use crate::bitset::BitSet;
use vstd::prelude::*;

verus! {

/// `s` is in strictly ascending order.
pub open spec fn strictly_sorted(s: Seq<u32>) -> bool {
    forall|i: int, j: int| 0 <= i < j < s.len() ==> s[i] < s[j]
}

/// A strictly ascending sequence holds no element twice.
pub proof fn lemma_strictly_sorted_no_duplicates(s: Seq<u32>)
    requires
        strictly_sorted(s),
    ensures
        s.no_duplicates(),
{
}

/// Law of idempotent evaluation: an ordered document set is determined by its
/// membership. Two strictly ascending sequences that contain the same ids are
/// the same sequence, ids and order alike; so two evaluations whose contracts
/// pin the same membership yield identical document sets.
pub proof fn lemma_equal_doc_sets(a: Seq<u32>, b: Seq<u32>)
    requires
        strictly_sorted(a),
        strictly_sorted(b),
        forall|d: u32| a.contains(d) <==> b.contains(d),
    ensures
        a == b,
    decreases a.len(),
{
    if a.len() == 0 {
        if b.len() > 0 {
            assert(b.contains(b[0]));
            assert(a.contains(b[0]));
        }
        assert(a =~= b);
    } else {
        assert(a.contains(a[0]));
        assert(b.contains(a[0]));
        if b.len() == 0 {
            assert(!b.contains(a[0]));
        }
        // The heads agree: each is the least element of the common membership.
        let i = choose|i: int| 0 <= i < b.len() && b[i] == a[0];
        if i > 0 {
            assert(b.contains(b[0]));
            assert(a.contains(b[0]));
            let j = choose|j: int| 0 <= j < a.len() && a[j] == b[0];
            assert(b[0] < b[i]);
            assert(j > 0 ==> a[0] < a[j]);
            assert(false);
        }
        assert(a[0] == b[0]);
        // The tails carry the same membership.
        let at = a.drop_first();
        let bt = b.drop_first();
        assert forall|d: u32| at.contains(d) implies bt.contains(d) by {
            let k = choose|k: int| 0 <= k < at.len() && at[k] == d;
            assert(a[k + 1] == d);
            assert(a.contains(d));
            assert(b.contains(d));
            let m = choose|m: int| 0 <= m < b.len() && b[m] == d;
            assert(a[0] < a[k + 1]);
            if m == 0 {
                assert(false);
            }
            assert(bt[m - 1] == d);
            assert(bt.contains(d));
        }
        assert forall|d: u32| bt.contains(d) implies at.contains(d) by {
            let k = choose|k: int| 0 <= k < bt.len() && bt[k] == d;
            assert(b[k + 1] == d);
            assert(b.contains(d));
            assert(a.contains(d));
            let m = choose|m: int| 0 <= m < a.len() && a[m] == d;
            assert(b[0] < b[k + 1]);
            if m == 0 {
                assert(false);
            }
            assert(at[m - 1] == d);
            assert(at.contains(d));
        }
        lemma_equal_doc_sets(at, bt);
        assert forall|n: int| 0 <= n < a.len() implies a[n] == b[n] by {
            if n > 0 {
                assert(at[n - 1] == bt[n - 1]);
            }
        }
        assert(a =~= b);
    }
}

/// A forward-only cursor over the ids of a [`BitSet`], in ascending order.
///
/// `advance` moves to the next id and reports whether one was left; `doc` is
/// meaningful only after an `advance` that returned `true`.
pub struct BitSetDocSet {
    docs: Vec<u32>,
    cursor: usize,
}

impl View for BitSetDocSet {
    type V = Seq<u32>;

    /// The full, ordered sequence of ids the cursor walks.
    closed spec fn view(&self) -> Seq<u32> {
        self.docs@
    }
}

impl BitSetDocSet {
    /// How many successful `advance` calls have happened.
    pub closed spec fn spec_cursor(&self) -> int {
        self.cursor as int
    }

    /// Collect the ids of `bits` in ascending order, cursor before the first.
    pub fn from_bitset(bits: &BitSet) -> (r: BitSetDocSet)
        requires
            bits.spec_max_value() <= u32::MAX,
        ensures
            strictly_sorted(r@),
            forall|d: u32| r@.contains(d) <==> bits.spec_contains(d),
            r.spec_cursor() == 0,
    {
        let mut docs: Vec<u32> = Vec::new();
        let cap: usize = bits.capacity();
        let mut d: u32 = 0;
        while (d as usize) < cap
            invariant
                cap == bits.spec_max_value(),
                cap <= u32::MAX,
                d <= cap,
                strictly_sorted(docs@),
                forall|k: int| 0 <= k < docs@.len() ==> docs@[k] < d,
                forall|e: u32| docs@.contains(e) <==> (e < d && bits.spec_contains(e)),
            decreases cap - d,
        {
            if bits.contains(d) {
                let ghost prev = docs@;
                docs.push(d);
                proof {
                    assert forall|e: u32| docs@.contains(e) implies (e < d + 1
                        && bits.spec_contains(e)) by {
                        let k = choose|k: int| 0 <= k < docs@.len() && docs@[k] == e;
                        if k < prev.len() {
                            assert(prev.contains(e));
                        }
                    }
                    assert forall|e: u32| (e < d + 1 && bits.spec_contains(e)) implies docs@.contains(
                        e,
                    ) by {
                        if e < d {
                            assert(prev.contains(e));
                            let k = choose|k: int| 0 <= k < prev.len() && prev[k] == e;
                            assert(docs@[k] == e);
                        } else {
                            assert(docs@[docs@.len() - 1] == d);
                        }
                    }
                }
            }
            d = d + 1;
        }
        proof {
            bits.lemma_contains_below_max();
        }
        BitSetDocSet { docs, cursor: 0 }
    }

    /// Move to the next id; `false` once the set is exhausted.
    pub fn advance(&mut self) -> (r: bool)
        ensures
            final(self)@ == old(self)@,
            r <==> old(self).spec_cursor() < old(self)@.len(),
            r ==> final(self).spec_cursor() == old(self).spec_cursor() + 1,
            !r ==> final(self).spec_cursor() == old(self).spec_cursor(),
    {
        if self.cursor < self.docs.len() {
            self.cursor = self.cursor + 1;
            true
        } else {
            false
        }
    }

    /// The id the cursor stands on.
    pub fn doc(&self) -> (r: u32)
        requires
            1 <= self.spec_cursor() <= self@.len(),
        ensures
            r == self@[self.spec_cursor() - 1],
    {
        self.docs[self.cursor - 1]
    }
}

/// Wraps a document set and hands out the same unit score for every id:
/// fuzzy matching carries no relevance gradient, so every matching document
/// is reported with the constant score `1`.
pub struct ConstScorer {
    docs: BitSetDocSet,
}

impl View for ConstScorer {
    type V = Seq<u32>;

    /// The ordered ids this scorer will yield.
    closed spec fn view(&self) -> Seq<u32> {
        self.docs@
    }
}

impl ConstScorer {
    /// See [`BitSetDocSet::spec_cursor`].
    pub closed spec fn spec_cursor(&self) -> int {
        self.docs.spec_cursor()
    }

    /// Wrap an id set; the cursor position carries over.
    pub fn new(docs: BitSetDocSet) -> (r: ConstScorer)
        ensures
            r@ == docs@,
            r.spec_cursor() == docs.spec_cursor(),
    {
        ConstScorer { docs }
    }

    /// Move to the next matching document; `false` once exhausted.
    pub fn advance(&mut self) -> (r: bool)
        ensures
            final(self)@ == old(self)@,
            r <==> old(self).spec_cursor() < old(self)@.len(),
            r ==> final(self).spec_cursor() == old(self).spec_cursor() + 1,
            !r ==> final(self).spec_cursor() == old(self).spec_cursor(),
    {
        self.docs.advance()
    }

    /// The id of the matching document the cursor stands on.
    pub fn doc(&self) -> (r: u32)
        requires
            1 <= self.spec_cursor() <= self@.len(),
        ensures
            r == self@[self.spec_cursor() - 1],
    {
        self.docs.doc()
    }

    /// The constant match score, the same for every matching document.
    pub fn score(&self) -> (r: u32)
        ensures
            r == 1,
    {
        1
    }
}

} // verus!
