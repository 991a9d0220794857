//! Source positions attached to every node: pure data with equality and copy.

use vstd::prelude::*;

verus! {

/// A (line, column) position inside one source file.
#[derive(Clone, Copy, PartialEq, Eq, Structural, Debug)]
pub struct SourceLoc {
    pub line: u32,
    pub col: u32,
}

/// The span of a node: a file id and the start and end positions.
#[derive(Clone, Copy, PartialEq, Eq, Structural, Debug)]
pub struct SourceRange {
    pub file: u32,
    pub start: SourceLoc,
    pub end: SourceLoc,
}

} // verus!
