use vstd::prelude::*;

verus! {

/// A position inside a source unit: 1-based line and column, 0-based byte
/// offset.
#[derive(Debug, Clone, Copy, PartialEq, Eq, Structural)]
pub struct Location {
    pub line: usize,
    pub column: usize,
    pub offset: usize,
}

impl Location {
    pub fn new(line: usize, row: usize, offset: usize) -> (r: Self)
        ensures
            r == (Location { line, column: row, offset }),
    {
        Location { line, column: row, offset }
    }
}

impl Default for Location {
    fn default() -> (r: Self)
        ensures
            r == (Location { line: 1, column: 1, offset: 0 }),
    {
        Location { line: 1, column: 1, offset: 0 }
    }
}

} // verus!
