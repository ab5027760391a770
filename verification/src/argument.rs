use vstd::prelude::*;

use crate::register_kind::RegisterKind;

verus! {

/// A compiled instruction operand. Strings, labels, constants and pins of
/// the source language are lowered by the compiler; at run time only
/// registers, pins and numbers remain, and a float is carried as the bit
/// pattern of the 32-bit value it denotes.
#[derive(Debug, Clone, Copy, PartialEq, Eq, Structural)]
pub enum Argument {
    Register { register: RegisterKind },
    Pin { id: usize },
    Int { value: i32 },
    Float { bits: u32 },
}

} // verus!
