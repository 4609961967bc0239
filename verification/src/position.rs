//! Source positions and spans.
//!
//! A [`Position`] is a (line, column) coordinate in the original source text,
//! using the convention of the upstream tokenizer that produced the tokens.
//! A [`Span`] records the half-open extent of a token or of a group delimiter
//! as a (start, end) pair of positions.

use vstd::prelude::*;

verus! {

/// A (line, column) coordinate in the original source text.
#[derive(Clone, Copy, PartialEq, Eq, Structural, Debug)]
pub struct Position {
    pub line: usize,
    pub column: usize,
}

/// The half-open source extent of a token or delimiter: from `start`
/// (inclusive) to `end` (exclusive).
#[derive(Clone, Copy, PartialEq, Eq, Structural, Debug)]
pub struct Span {
    pub start: Position,
    pub end: Position,
}

/// The error returned when rendering would have to move the cursor backward:
/// the target position `to` precedes the current position `from` in reading
/// order, which means the input stream's spans are out of order or overlap.
#[derive(Clone, Copy, PartialEq, Eq, Structural, Debug)]
pub struct InconsistentSpan {
    /// Where the cursor stood when the inconsistency was found.
    pub from: Position,
    /// The recorded position that precedes `from`.
    pub to: Position,
}

impl Position {
    /// `a` does not come after `b` in reading order: an earlier line, or the
    /// same line and a column no greater.
    pub open spec fn reaches(self, other: Position) -> bool {
        self.line < other.line || (self.line == other.line && self.column <= other.column)
    }
}

} // verus!
