//! Fuzzy term matching inside one immutable index segment.
//!
//! A [`query::FuzzyTermQuery`] describes an edit-distance-tolerant lookup of a
//! term. Evaluating it against a segment walks the segment's sorted term
//! dictionary, keeps the terms accepted by a Levenshtein automaton, decodes
//! their posting lists, and accumulates the matching document ids into a
//! bitset, which is finally exposed as an ordered, duplicate-free document
//! set with a constant match score.

pub mod automaton;
pub mod bitset;
pub mod docset;
pub mod error;
pub mod levenshtein;
pub mod query;
pub mod schema;
pub mod segment;
pub mod termdict;
pub mod weight;
