use vstd::pervasive::VecAdditionalExecFns;
use vstd::prelude::*;

verus! {

/// A fixed-capacity set of document identifiers, holding ids in
/// `0 .. max_value`.
///
/// Insertion is idempotent: inserting an id that is already present leaves
/// the set unchanged, so a document that contains several matched terms is
/// still recorded once.
pub struct BitSet {
    bits: Vec<bool>,
}

impl BitSet {
    /// The capacity: only ids strictly below this bound can be stored.
    pub closed spec fn spec_max_value(&self) -> nat {
        self.bits@.len()
    }

    /// Whether `doc` is in the set.
    pub closed spec fn spec_contains(&self, doc: u32) -> bool {
        doc < self.bits@.len() && self.bits@[doc as int]
    }

    /// Every stored id lies below the capacity.
    pub proof fn lemma_contains_below_max(&self)
        ensures
            forall|d: u32| self.spec_contains(d) ==> d < self.spec_max_value(),
    {
    }

    /// An empty set able to hold the ids `0 .. max_value`.
    pub fn with_max_value(max_value: u32) -> (r: BitSet)
        ensures
            r.spec_max_value() == max_value,
            forall|d: u32| !r.spec_contains(d),
    {
        let mut bits: Vec<bool> = Vec::new();
        let mut i: u32 = 0;
        while i < max_value
            invariant
                i <= max_value,
                bits@.len() == i,
                forall|k: int| 0 <= k < bits@.len() ==> !bits@[k],
            decreases max_value - i,
        {
            bits.push(false);
            i = i + 1;
        }
        BitSet { bits }
    }

    /// The capacity, as an index bound.
    pub fn capacity(&self) -> (r: usize)
        ensures
            r == self.spec_max_value(),
    {
        self.bits.len()
    }

    /// Whether `doc` is in the set.
    pub fn contains(&self, doc: u32) -> (r: bool)
        ensures
            r == self.spec_contains(doc),
    {
        let i = doc as usize;
        if i < self.bits.len() {
            self.bits[i]
        } else {
            false
        }
    }

    /// Add `doc` to the set; ids already present stay present.
    pub fn insert(&mut self, doc: u32)
        requires
            doc < old(self).spec_max_value(),
        ensures
            final(self).spec_max_value() == old(self).spec_max_value(),
            forall|e: u32|
                final(self).spec_contains(e) <==> (old(self).spec_contains(e) || e == doc),
    {
        self.bits.set(doc as usize, true);
    }
}

} // verus!
