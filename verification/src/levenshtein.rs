use crate::automaton::Automaton;
use vstd::prelude::*;

verus! {

#[verifier::external_type_specification]
#[verifier::external_body]
pub struct ExDfa(levenshtein_automata::DFA);

/// What `levenshtein_automata::DFA::eval` reports for a DFA built from
/// (`target`, `distance`, `transpose`, `prefix`) when it consumes `input`:
/// `Some(d)` when `input` (in exact mode), or its best prefix (in prefix
/// mode), lies at Levenshtein distance `d <= distance` from `target` under
/// the chosen transposition policy, `None` when every such distance exceeds
/// the bound. The report is a function of these arguments alone.
pub uninterp spec fn lev_eval(
    target: Seq<char>,
    distance: u8,
    transpose: bool,
    prefix: bool,
    input: Seq<u8>,
) -> Option<u8>;

/// Whether the Levenshtein automaton of (`target`, `distance`, `transpose`,
/// `prefix`) accepts the byte string `input`.
pub open spec fn lev_accepts(
    target: Seq<char>,
    distance: u8,
    transpose: bool,
    prefix: bool,
    input: Seq<u8>,
) -> bool {
    lev_eval(target, distance, transpose, prefix, input) is Some
}

/// Bound on the edit-distance parameter automata are built for. The
/// parametric construction behind the builder grows combinatorially with the
/// distance, so larger bounds are refused at evaluation time rather than
/// built.
pub const MAX_LEV_DISTANCE: u8 = 2;

/// A deterministic Levenshtein automaton over byte strings, built fresh for
/// each segment evaluation and never shared.
///
/// The `dfa` field is kept consistent with the remembered build parameters
/// by the two constructors, the only places a value of this type is made;
/// the contract of `eval` rests on that, which is why the fields stay
/// private to this module.
pub struct LevenshteinDfa {
    dfa: levenshtein_automata::DFA,
    target: String,
    distance: u8,
    transpose: bool,
    prefix: bool,
}

impl LevenshteinDfa {
    /// The target string the automaton was built against.
    pub closed spec fn spec_target(&self) -> Seq<char> {
        self.target@
    }

    /// The edit-distance bound.
    pub closed spec fn spec_distance(&self) -> u8 {
        self.distance
    }

    /// Whether an adjacent transposition counts as one edit instead of two.
    pub closed spec fn spec_transpose(&self) -> bool {
        self.transpose
    }

    /// Whether a prefix of the input may match instead of the whole input.
    pub closed spec fn spec_prefix(&self) -> bool {
        self.prefix
    }

    /// Relies on `levenshtein_automata::LevenshteinAutomatonBuilder::new`
    /// and `LevenshteinAutomatonBuilder::build_dfa`: the DFA accepts exactly
    /// the byte strings within `distance` edits of `target`, an adjacent
    /// transposition counting one edit when `transpose` holds.
    #[verifier::external_body]
    pub fn build_exact(target: &str, distance: u8, transpose: bool) -> (r: LevenshteinDfa)
        requires
            distance <= MAX_LEV_DISTANCE,
        ensures
            r.spec_target() == target@,
            r.spec_distance() == distance,
            r.spec_transpose() == transpose,
            !r.spec_prefix(),
    {
        let builder = levenshtein_automata::LevenshteinAutomatonBuilder::new(distance, transpose);
        let dfa = builder.build_dfa(target);
        LevenshteinDfa { dfa, target: target.to_string(), distance, transpose, prefix: false }
    }

    /// Relies on `levenshtein_automata::LevenshteinAutomatonBuilder::new`
    /// and `LevenshteinAutomatonBuilder::build_prefix_dfa`: the DFA accepts
    /// exactly the byte strings some prefix of which is within `distance`
    /// edits of `target`.
    #[verifier::external_body]
    pub fn build_prefix(target: &str, distance: u8, transpose: bool) -> (r: LevenshteinDfa)
        requires
            distance <= MAX_LEV_DISTANCE,
        ensures
            r.spec_target() == target@,
            r.spec_distance() == distance,
            r.spec_transpose() == transpose,
            r.spec_prefix(),
    {
        let builder = levenshtein_automata::LevenshteinAutomatonBuilder::new(distance, transpose);
        let dfa = builder.build_prefix_dfa(target);
        LevenshteinDfa { dfa, target: target.to_string(), distance, transpose, prefix: true }
    }

    /// Relies on `levenshtein_automata::DFA::eval`: on a DFA built from this
    /// value's parameters it reports `Distance::Exact(d)`, mapped to
    /// `Some(d)` here, exactly when the input is within the distance bound,
    /// and the report depends on the build parameters and the input alone.
    #[verifier::external_body]
    fn eval(&self, input: &Vec<u8>) -> (r: Option<u8>)
        ensures
            r == lev_eval(
                self.spec_target(),
                self.spec_distance(),
                self.spec_transpose(),
                self.spec_prefix(),
                input@,
            ),
    {
        match self.dfa.eval(input) {
            levenshtein_automata::Distance::Exact(d) => Some(d),
            levenshtein_automata::Distance::AtLeast(_) => None,
        }
    }
}

impl Automaton for LevenshteinDfa {
    open spec fn accepts(&self, input: Seq<u8>) -> bool {
        lev_accepts(
            self.spec_target(),
            self.spec_distance(),
            self.spec_transpose(),
            self.spec_prefix(),
            input,
        )
    }

    fn matches(&self, input: &Vec<u8>) -> (r: bool) {
        self.eval(input).is_some()
    }
}

} // verus!
