use vstd::prelude::*;

use crate::location::Location;
use crate::source_unit::SourceUnit;

verus! {

/// Mapping from each compiled instruction's index back to the source
/// position of its operation token, together with the originating source
/// unit.
#[derive(Debug, Clone, PartialEq)]
pub struct DebugInfo {
    pub source_loc: Vec<Location>,
    pub unit: SourceUnit,
}

impl DebugInfo {
    /// The source position of the instruction at `address`, if recorded.
    pub fn source_location(&self, address: usize) -> (r: Option<Location>)
        ensures
            r == (if address < self.source_loc@.len() {
                Some(self.source_loc@[address as int])
            } else {
                None
            }),
    {
        if address < self.source_loc.len() {
            Some(self.source_loc[address])
        } else {
            None
        }
    }
}

} // verus!
