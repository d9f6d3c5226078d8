//! Error model: parse failures are data, classified by the sub-parser that
//! refused the input, and carry the unconsumed remainder for diagnostics.

use vstd::prelude::*;

verus! {

/// The category of sub-parser that refused the input.
#[derive(Debug, PartialEq, Eq, Clone, Copy)]
pub enum FailureKind {
    /// A fixed literal (`>`, `|`, `sp`, `OS=`, ...) was not at the expected place.
    TagMismatch,
    /// The accession pattern occurs nowhere in the remaining input.
    PatternMismatch,
    /// A bounded byte run (alphanumeric span, digit span, whitespace) was
    /// shorter than its minimum length.
    LengthBound,
    /// A sentinel substring (` OS=`, ` OX=`, ` PE=`) never occurs in the
    /// remaining input.
    MissingSentinel,
    /// The digit after `PE=` is outside `1..=5`.
    InvalidExistence,
}

/// Outcome of a failed sub-parse. `Malformed` names the position in the whole
/// input buffer where the failing sub-parser started to look, so that the
/// unconsumed remainder can be reported without re-parsing.
#[derive(Debug, PartialEq, Eq, Clone, Copy)]
pub enum Failure {
    /// The bytes from this position on do not fit the grammar; the kind says
    /// which sub-parser refused them.
    Malformed(usize, FailureKind),
    /// The input ended where the grammar still required a byte.
    Incomplete,
}

/// Error returned by the two header parsers.
#[derive(Debug, PartialEq, Eq)]
pub enum UniProtHeaderError {
    /// The input is malformed: carries the unconsumed remainder at the failure
    /// point and the category of the sub-parser that refused it.
    ParsingError(Vec<u8>, FailureKind),
    /// The input ended where the grammar still required a byte.
    Incomplete,
}

/// A malformed-input failure at byte position `i`.
pub open spec fn mal(i: int, kind: FailureKind) -> Failure {
    Failure::Malformed(i as usize, kind)
}

} // verus!
