use vstd::prelude::*;

verus! {

/// Capability contract for a matcher over byte strings: a value that decides,
/// for any byte sequence, whether it is accepted. `accepts` is the
/// mathematical language; `matches` is its executable decision.
pub trait Automaton {
    /// The language of the automaton: the byte strings it accepts.
    spec fn accepts(&self, input: Seq<u8>) -> bool;

    /// Decide whether `input` is accepted.
    fn matches(&self, input: &Vec<u8>) -> (r: bool)
        ensures
            r == self.accepts(input@),
    ;
}

/// A factory that defers automaton construction until evaluation time, so one
/// immutable query description can hand an independent, freshly built
/// automaton to each segment evaluation. Every automaton built from the same
/// factory accepts the same language.
pub trait AutomatonBuilder {
    type Auto: Automaton;

    /// The language every automaton built by this factory accepts.
    spec fn lang(&self, input: Seq<u8>) -> bool;

    /// Whether the factory's parameters are within what construction
    /// supports.
    spec fn buildable(&self) -> bool;

    /// Decide whether `build_automaton` may be called.
    fn check_params(&self) -> (r: bool)
        ensures
            r == self.buildable(),
    ;

    /// Construct a fresh automaton for this factory's language.
    fn build_automaton(&self) -> (a: Self::Auto)
        requires
            self.buildable(),
        ensures
            forall|s: Seq<u8>| a.accepts(s) == self.lang(s),
    ;
}

} // verus!
