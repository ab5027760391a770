use vstd::prelude::*;

verus! {

/// How a regular register operand is read or written: directly, or through
/// the register whose id is the integer value the operand register holds.
#[derive(Debug, Clone, Copy, PartialEq, Eq, Structural)]
pub enum RegisterMode {
    Direct,
    Indirect,
}

/// A register operand: a regular register with an addressing mode, the
/// program counter, or the stack pointer.
#[derive(Debug, Clone, Copy, PartialEq, Eq, Structural)]
pub enum RegisterKind {
    Regular { id: usize, mode: RegisterMode },
    ProgramCounter,
    StackPointer,
}

} // verus!
