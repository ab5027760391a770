use vstd::prelude::*;

verus! {

/// Configured capacities of a virtual machine: how many regular registers and
/// pins exist, how many values the stack holds, and how many bytes of RAM are
/// addressable.
#[derive(Debug, Clone, Copy, PartialEq, Eq, Structural)]
pub struct Limits {
    pub regular_registers: usize,
    pub pins: usize,
    pub stack_size: usize,
    pub ram_length: usize,
}

impl Default for Limits {
    fn default() -> (r: Self)
        ensures
            r.regular_registers == 16,
            r.pins == 8,
            r.stack_size == 256,
            r.ram_length == 16384,
    {
        Limits { regular_registers: 16, pins: 8, stack_size: 256, ram_length: 16384 }
    }
}

} // verus!
