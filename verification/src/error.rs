use vstd::prelude::*;

verus! {

/// Why a search against a segment could not even start. Construction-time
/// failures surface here at scorer-build time instead of silently matching
/// nothing; there is no partial result.
#[derive(Clone, Copy, Debug, PartialEq, Eq, Structural)]
pub enum QueryError {
    /// The query asks for an edit-distance bound larger than automaton
    /// construction supports.
    InvalidDistance,
}

} // verus!
