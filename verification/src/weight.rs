use crate::automaton::{Automaton, AutomatonBuilder};
use crate::bitset::BitSet;
use crate::docset::{strictly_sorted, BitSetDocSet, ConstScorer};
use crate::error::QueryError;
use crate::schema::Field;
use crate::segment::{SegmentReader, TermEntry};
use crate::termdict::TermStreamer;
use vstd::prelude::*;

verus! {

/// Whether `d` is a document of one of the first `n` dictionary entries of
/// `es` whose term the language of `b` accepts.
pub open spec fn partial_matches<B: AutomatonBuilder>(
    es: Seq<TermEntry>,
    n: int,
    b: B,
    d: u32,
) -> bool {
    exists|j: int| 0 <= j < n && b.lang((#[trigger] es[j]).term@) && es[j].docs@.contains(d)
}

/// Evaluates "every document containing some term the automaton accepts"
/// against one segment at a time: it builds a fresh automaton from its
/// factory, streams the accepted entries of the bound field's term
/// dictionary, decodes each matched term's posting list at set-membership
/// granularity, and accumulates the ids in a bitset sized to the segment.
pub struct AutomatonWeight<B: AutomatonBuilder> {
    field: Field,
    builder: B,
}

impl<B: AutomatonBuilder> AutomatonWeight<B> {
    /// The field whose terms are matched.
    pub closed spec fn spec_field(&self) -> Field {
        self.field
    }

    /// The captured automaton factory.
    pub closed spec fn spec_builder(&self) -> B {
        self.builder
    }

    /// Whether evaluating this weight against `reader` matches document `d`:
    /// some term of the bound field's dictionary is accepted by the factory's
    /// language and carries `d` in its posting list.
    pub open spec fn matches_doc(&self, reader: &SegmentReader, d: u32) -> bool {
        exists|k: int, j: int|
            {
                &&& 0 <= k < reader.indexes@.len()
                &&& reader.indexes@[k].field == self.spec_field()
                &&& 0 <= j < reader.indexes@[k].entries@.len()
                &&& self.spec_builder().lang(
                    (#[trigger] reader.indexes@[k].entries@[j]).term@,
                )
                &&& reader.indexes@[k].entries@[j].docs@.contains(d)
            }
    }

    /// A weight matching, within `field`, the language of `builder`.
    pub fn new(field: Field, builder: B) -> (r: AutomatonWeight<B>)
        ensures
            r.spec_field() == field,
            r.spec_builder() == builder,
    {
        AutomatonWeight { field, builder }
    }

    /// Build a fresh automaton and open a stream of the dictionary entries
    /// it accepts.
    pub fn automaton_stream(&self) -> (r: TermStreamer<<B as AutomatonBuilder>::Auto>)
        requires
            self.spec_builder().buildable(),
        ensures
            r.spec_pos() == 0,
            forall|s: Seq<u8>| r.spec_automaton().accepts(s) == self.spec_builder().lang(s),
    {
        let automaton = self.builder.build_automaton();
        TermStreamer::new(automaton)
    }

    /// Evaluate the weight against one segment.
    ///
    /// On success the scorer enumerates, in ascending order and each exactly
    /// once, precisely the ids of the documents of the segment that contain
    /// some accepted term of the bound field — every id below the segment's
    /// bound — with its cursor before the first id. Construction fails, and
    /// only fails, when the factory's parameters are outside what automaton
    /// construction supports.
    pub fn scorer(&self, reader: &SegmentReader) -> (r: Result<ConstScorer, QueryError>)
        requires
            reader.wf(),
        ensures
            r is Ok <==> self.spec_builder().buildable(),
            r is Ok ==> strictly_sorted((r->Ok_0)@),
            r is Ok ==> forall|d: u32| (r->Ok_0)@.contains(d) <==> self.matches_doc(reader, d),
            r is Ok ==> forall|i: int| 0 <= i < (r->Ok_0)@.len() ==> (r->Ok_0)@[i] < reader.max_doc,
            r is Ok ==> (r->Ok_0).spec_cursor() == 0,
    {
        if !self.builder.check_params() {
            return Err(QueryError::InvalidDistance);
        }
        let max_doc = reader.max_doc();
        let mut doc_bitset = BitSet::with_max_value(max_doc);
        match reader.inverted_index(self.field) {
            None => {
                proof {
                    assert forall|d: u32| !self.matches_doc(reader, d) by {
                        if self.matches_doc(reader, d) {
                            let (k, j) = choose|k: int, j: int|
                                {
                                    &&& 0 <= k < reader.indexes@.len()
                                    &&& reader.indexes@[k].field == self.spec_field()
                                    &&& 0 <= j < reader.indexes@[k].entries@.len()
                                    &&& self.spec_builder().lang((#[trigger] reader.indexes@[k].entries@[j]).term@)
                                    &&& reader.indexes@[k].entries@[j].docs@.contains(d)
                                };
                            assert(reader.indexes@[k].field != self.spec_field());
                        }
                    }
                }
            },
            Some(term_dict) => {
                let ghost kw = choose|k: int|
                    0 <= k < reader.indexes@.len() && #[trigger] reader.indexes@[k] == *term_dict;
                proof {
                    assert(reader.indexes@[kw].wf(reader.max_doc));
                }
                let ghost es = term_dict.entries@;
                let mut term_stream = self.automaton_stream();
                loop
                    invariant_except_break
                        term_dict.wf(max_doc),
                        es == term_dict.entries@,
                        term_stream.spec_pos() <= es.len(),
                        forall|s: Seq<u8>|
                            term_stream.spec_automaton().accepts(s) == self.spec_builder().lang(s),
                        doc_bitset.spec_max_value() == max_doc,
                        forall|d: u32|
                            doc_bitset.spec_contains(d) <==> partial_matches(
                                es,
                                term_stream.spec_pos(),
                                self.spec_builder(),
                                d,
                            ),
                    ensures
                        doc_bitset.spec_max_value() == max_doc,
                        forall|d: u32|
                            doc_bitset.spec_contains(d) <==> partial_matches(
                                es,
                                es.len() as int,
                                self.spec_builder(),
                                d,
                            ),
                    decreases es.len() - term_stream.spec_pos(),
                {
                    let ghost pos0 = term_stream.spec_pos();
                    let has_term = term_stream.advance(term_dict);
                    if !has_term {
                        proof {
                            assert forall|d: u32|
                                doc_bitset.spec_contains(d) <==> partial_matches(
                                    es,
                                    es.len() as int,
                                    self.spec_builder(),
                                    d,
                                ) by {
                                if doc_bitset.spec_contains(d) {
                                    let j = choose|j: int|
                                        0 <= j < pos0 && self.spec_builder().lang((#[trigger] es[j]).term@)
                                            && es[j].docs@.contains(d);
                                    assert(0 <= j < es.len() && self.spec_builder().lang(es[j].term@)
                                        && es[j].docs@.contains(d));
                                }
                                if partial_matches(es, es.len() as int, self.spec_builder(), d) {
                                    let j = choose|j: int|
                                        0 <= j < es.len() && self.spec_builder().lang((#[trigger] es[j]).term@)
                                            && es[j].docs@.contains(d);
                                    if j >= pos0 {
                                        assert(!term_stream.spec_automaton().accepts(
                                            es[j].term@,
                                        ));
                                        assert(false);
                                    }
                                    assert(0 <= j < pos0 && self.spec_builder().lang(es[j].term@)
                                        && es[j].docs@.contains(d));
                                }
                            }
                        }
                        break;
                    }
                    let term_ord = term_stream.value();
                    let ghost c = term_stream.spec_current();
                    proof {
                        // The entries the stream skipped match nothing, so the
                        // bitset still holds exactly the matches before `c`.
                        assert forall|d: u32|
                            doc_bitset.spec_contains(d) <==> partial_matches(es, c, self.spec_builder(), d) by {
                            if doc_bitset.spec_contains(d) {
                                let j = choose|j: int|
                                    0 <= j < pos0 && self.spec_builder().lang((#[trigger] es[j]).term@)
                                        && es[j].docs@.contains(d);
                                assert(0 <= j < c && self.spec_builder().lang(es[j].term@) && es[j].docs@.contains(d));
                            }
                            if partial_matches(es, c, self.spec_builder(), d) {
                                let j = choose|j: int|
                                    0 <= j < c && self.spec_builder().lang((#[trigger] es[j]).term@)
                                        && es[j].docs@.contains(d);
                                if j >= pos0 {
                                    assert(!term_stream.spec_automaton().accepts(es[j].term@));
                                    assert(false);
                                }
                                assert(0 <= j < pos0 && self.spec_builder().lang(es[j].term@) && es[j].docs@.contains(
                                    d,
                                ));
                            }
                        }
                        assert(term_dict.entries@[c].wf(max_doc));
                    }
                    let postings = term_dict.read_postings(term_ord);
                    let mut p: usize = 0;
                    while p < postings.len()
                        invariant
                            postings@ == es[c as int].docs@,
                            p <= postings@.len(),
                            0 <= c < es.len(),
                            es[c as int].wf(max_doc),
                            doc_bitset.spec_max_value() == max_doc,
                            forall|d: u32|
                                doc_bitset.spec_contains(d) <==> (partial_matches(es, c, self.spec_builder(), d)
                                    || postings@.subrange(0, p as int).contains(d)),
                        decreases postings@.len() - p,
                    {
                        let doc = postings[p];
                        let ghost prev = doc_bitset;
                        doc_bitset.insert(doc);
                        proof {
                            let sub = postings@.subrange(0, p + 1);
                            assert(sub.drop_last() =~= postings@.subrange(0, p as int));
                            assert forall|d: u32|
                                doc_bitset.spec_contains(d) <==> (partial_matches(es, c, self.spec_builder(), d)
                                    || sub.contains(d)) by {
                                assert(sub.last() == doc);
                                if sub.contains(d) {
                                    let q = choose|q: int| 0 <= q < sub.len() && sub[q] == d;
                                    if q < p {
                                        assert(sub.drop_last()[q] == d);
                                    }
                                }
                                if prev.spec_contains(d) || d == doc {
                                    if d == doc {
                                        assert(sub[p as int] == d);
                                    } else if postings@.subrange(0, p as int).contains(d) {
                                        let q = choose|q: int|
                                            0 <= q < p && postings@.subrange(0, p as int)[q] == d;
                                        assert(sub[q] == d);
                                    }
                                }
                            }
                        }
                        p = p + 1;
                    }
                    proof {
                        assert(postings@.subrange(0, postings@.len() as int) =~= postings@);
                        // Everything gathered so far is a match among the
                        // first `c + 1` entries, and conversely.
                        assert(term_stream.spec_automaton().accepts(es[c as int].term@));
                        assert(self.spec_builder().lang(es[c as int].term@));
                        assert forall|d: u32|
                            doc_bitset.spec_contains(d) <==> partial_matches(
                                es,
                                c + 1,
                                self.spec_builder(),
                                d,
                            ) by {
                            if doc_bitset.spec_contains(d) {
                                if es[c as int].docs@.contains(d) {
                                    assert(0 <= c < c + 1 && self.spec_builder().lang(es[c as int].term@)
                                        && es[c as int].docs@.contains(d));
                                } else {
                                    let j = choose|j: int|
                                        0 <= j < c && self.spec_builder().lang((#[trigger] es[j]).term@)
                                            && es[j].docs@.contains(d);
                                    assert(0 <= j < c + 1 && self.spec_builder().lang(es[j].term@)
                                        && es[j].docs@.contains(d));
                                }
                            }
                            if partial_matches(es, c + 1, self.spec_builder(), d) {
                                let j = choose|j: int|
                                    0 <= j < c + 1 && self.spec_builder().lang((#[trigger] es[j]).term@)
                                        && es[j].docs@.contains(d);
                                if j < c {
                                    assert(0 <= j < c && self.spec_builder().lang(es[j].term@) && es[j].docs@.contains(
                                        d,
                                    ));
                                    assert(partial_matches(es, c, self.spec_builder(), d));
                                } else {
                                    assert(es[c as int].docs@.contains(d));
                                }
                            }
                        }
                    }
                }
                proof {
                    // The stream is exhausted: the bitset holds exactly the
                    // matches of the whole dictionary, which — fields occur
                    // once in a well-formed segment — are the matches of the
                    // segment.
                    assert forall|d: u32|
                        doc_bitset.spec_contains(d) <==> self.matches_doc(reader, d) by {
                        if doc_bitset.spec_contains(d) {
                            let j = choose|j: int|
                                0 <= j < es.len() && self.spec_builder().lang((#[trigger] es[j]).term@)
                                    && es[j].docs@.contains(d);
                            assert({
                                &&& 0 <= kw < reader.indexes@.len()
                                &&& reader.indexes@[kw].field == self.spec_field()
                                &&& 0 <= j < reader.indexes@[kw].entries@.len()
                                &&& self.spec_builder().lang((#[trigger] reader.indexes@[kw].entries@[j]).term@)
                                &&& reader.indexes@[kw].entries@[j].docs@.contains(d)
                            });
                            assert(self.matches_doc(reader, d));
                        }
                        if self.matches_doc(reader, d) {
                            let (k, j) = choose|k: int, j: int|
                                {
                                    &&& 0 <= k < reader.indexes@.len()
                                    &&& reader.indexes@[k].field == self.spec_field()
                                    &&& 0 <= j < reader.indexes@[k].entries@.len()
                                    &&& self.spec_builder().lang((#[trigger] reader.indexes@[k].entries@[j]).term@)
                                    &&& reader.indexes@[k].entries@[j].docs@.contains(d)
                                };
                            // Fields occur once, so `k` is the found index.
                            if k != kw {
                                if k < kw {
                                    assert(reader.indexes@[k].field != reader.indexes@[kw].field);
                                } else {
                                    assert(reader.indexes@[kw].field != reader.indexes@[k].field);
                                }
                            }
                            assert(0 <= j < es.len() && self.spec_builder().lang(es[j].term@) && es[j].docs@.contains(
                                d,
                            ));
                            assert(partial_matches(es, es.len() as int, self.spec_builder(), d));
                        }
                    }
                }
            },
        }
        let docs = BitSetDocSet::from_bitset(&doc_bitset);
        let scorer = ConstScorer::new(docs);
        proof {
            doc_bitset.lemma_contains_below_max();
            assert forall|d: u32| scorer@.contains(d) <==> self.matches_doc(reader, d) by {
                assert(scorer@.contains(d) == docs@.contains(d));
                assert(docs@.contains(d) <==> doc_bitset.spec_contains(d));
            }
            assert forall|i: int| 0 <= i < scorer@.len() implies scorer@[i] < reader.max_doc by {
                let v = scorer@[i];
                assert(scorer@.contains(v));
                assert(doc_bitset.spec_contains(v));
                assert(v < doc_bitset.spec_max_value());
            }
        }
        Ok(scorer)
    }
}

/// Law of idempotent evaluation, in the weight's own vocabulary: any two
/// successful evaluations of the same weight against the same immutable
/// segment — any two sequences meeting `scorer`'s contract — are identical,
/// same ids in the same order.
pub proof fn lemma_scorer_idempotent<B: AutomatonBuilder>(
    w: &AutomatonWeight<B>,
    reader: &SegmentReader,
    a: Seq<u32>,
    b: Seq<u32>,
)
    requires
        strictly_sorted(a),
        strictly_sorted(b),
        forall|d: u32| a.contains(d) <==> w.matches_doc(reader, d),
        forall|d: u32| b.contains(d) <==> w.matches_doc(reader, d),
    ensures
        a == b,
{
    crate::docset::lemma_equal_doc_sets(a, b);
}

} // verus!
