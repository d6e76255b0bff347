use crate::automaton::AutomatonBuilder;
use crate::error::QueryError;
use crate::levenshtein::{lev_accepts, LevenshteinDfa, MAX_LEV_DISTANCE};
use crate::schema::{Field, Term};
use crate::segment::Searcher;
use crate::weight::AutomatonWeight;
use vstd::prelude::*;

verus! {

/// A fuzzy query: matches every document containing a term within a bounded
/// Levenshtein distance of a target term. Immutable once constructed and
/// freely reusable across searches; each search builds its own weight, each
/// segment evaluation its own automaton.
#[derive(Debug)]
pub struct FuzzyTermQuery {
    /// What term are we searching.
    term: Term,
    /// How many changes are we going to allow.
    distance: u8,
    /// Should a transposition cost 1 or 2?
    transposition_cost_one: bool,
    /// Match a prefix of an indexed term instead of the whole term?
    prefix: bool,
}

impl FuzzyTermQuery {
    /// The field of the target term.
    pub open spec fn spec_field(&self) -> Field {
        self.spec_term().spec_field()
    }

    /// The target term.
    pub closed spec fn spec_term(&self) -> Term {
        self.term
    }

    /// The edit-distance bound.
    pub closed spec fn spec_distance(&self) -> u8 {
        self.distance
    }

    /// Whether an adjacent transposition counts as one edit instead of two.
    pub closed spec fn spec_transposition_cost_one(&self) -> bool {
        self.transposition_cost_one
    }

    /// Whether a prefix of an indexed term may match instead of the whole
    /// term.
    pub closed spec fn spec_prefix(&self) -> bool {
        self.prefix
    }

    /// A query matching the terms within `distance` edits of `term`'s text.
    pub fn new(term: Term, distance: u8, transposition_cost_one: bool) -> (r: FuzzyTermQuery)
        ensures
            r.spec_term() == term,
            r.spec_distance() == distance,
            r.spec_transposition_cost_one() == transposition_cost_one,
            !r.spec_prefix(),
    {
        FuzzyTermQuery { term, distance, transposition_cost_one, prefix: false }
    }

    /// A query matching the terms some prefix of which is within `distance`
    /// edits of `term`'s text.
    pub fn new_prefix(term: Term, distance: u8, transposition_cost_one: bool) -> (r:
        FuzzyTermQuery)
        ensures
            r.spec_term() == term,
            r.spec_distance() == distance,
            r.spec_transposition_cost_one() == transposition_cost_one,
            r.spec_prefix(),
    {
        FuzzyTermQuery { term, distance, transposition_cost_one, prefix: true }
    }

    /// The weight of this query: it matches, within the term's field, the
    /// language of this query's automata.
    pub fn specialized_weight(&self) -> (r: AutomatonWeight<FuzzyTermQuery>)
        ensures
            r.spec_field() == self.spec_field(),
            forall|s: Seq<u8>| r.spec_builder().lang(s) == self.lang(s),
            r.spec_builder().buildable() == self.buildable(),
    {
        AutomatonWeight::new(self.term.field(), self.clone())
    }

    /// Produce this query's weight for a search. `scoring_enabled` is
    /// accepted for interface uniformity and has no effect: a fuzzy match
    /// carries a constant score either way, so this never fails.
    pub fn weight(&self, _searcher: &Searcher, _scoring_enabled: bool) -> (r: Result<
        AutomatonWeight<FuzzyTermQuery>,
        QueryError,
    >)
        ensures
            r is Ok,
            (r->Ok_0).spec_field() == self.spec_field(),
            forall|s: Seq<u8>| (r->Ok_0).spec_builder().lang(s) == self.lang(s),
            (r->Ok_0).spec_builder().buildable() == self.buildable(),
    {
        Ok(self.specialized_weight())
    }
}

impl Clone for FuzzyTermQuery {
    fn clone(&self) -> (r: Self)
        ensures
            r.spec_term().spec_field() == self.spec_term().spec_field(),
            r.spec_term().spec_text() == self.spec_term().spec_text(),
            r.spec_distance() == self.spec_distance(),
            r.spec_transposition_cost_one() == self.spec_transposition_cost_one(),
            r.spec_prefix() == self.spec_prefix(),
    {
        FuzzyTermQuery {
            term: self.term.clone(),
            distance: self.distance,
            transposition_cost_one: self.transposition_cost_one,
            prefix: self.prefix,
        }
    }
}

impl AutomatonBuilder for FuzzyTermQuery {
    type Auto = LevenshteinDfa;

    /// The byte strings within the query's distance bound of its target —
    /// of some prefix of which is, in prefix mode.
    open spec fn lang(&self, input: Seq<u8>) -> bool {
        lev_accepts(
            self.spec_term().spec_text(),
            self.spec_distance(),
            self.spec_transposition_cost_one(),
            self.spec_prefix(),
            input,
        )
    }

    /// Distances up to [`MAX_LEV_DISTANCE`] can be built.
    open spec fn buildable(&self) -> bool {
        self.spec_distance() <= MAX_LEV_DISTANCE
    }

    fn check_params(&self) -> (r: bool) {
        self.distance <= MAX_LEV_DISTANCE
    }

    fn build_automaton(&self) -> (a: LevenshteinDfa) {
        if self.prefix {
            LevenshteinDfa::build_prefix(self.term.text(), self.distance, self.transposition_cost_one)
        } else {
            LevenshteinDfa::build_exact(self.term.text(), self.distance, self.transposition_cost_one)
        }
    }
}

} // verus!
