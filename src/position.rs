//! Places in a changelog document.
use vstd::prelude::*;

verus! {

/// One place in a document: 1-based line and column, 0-based byte offset.
#[derive(Debug, Clone, Copy, PartialEq, Eq, Structural)]
pub struct Point {
    pub line: usize,
    pub column: usize,
    pub offset: usize,
}

/// A span of a document, from `start` to `end`.
#[derive(Debug, Clone, Copy, PartialEq, Eq, Structural)]
pub struct Position {
    pub start: Point,
    pub end: Point,
}

/// The position used when nothing in the document can be pointed at: line 1,
/// column 1, offset 0.
pub open spec fn spec_default_position() -> Position {
    Position {
        start: Point { line: 1, column: 1, offset: 0 },
        end: Point { line: 1, column: 1, offset: 0 },
    }
}

pub fn default_position() -> (r: Position)
    ensures
        r == spec_default_position(),
{
    Position {
        start: Point { line: 1, column: 1, offset: 0 },
        end: Point { line: 1, column: 1, offset: 0 },
    }
}

} // verus!
