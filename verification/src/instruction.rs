use vstd::prelude::*;

use crate::argument::Argument;
use crate::operation::Operation;

verus! {

/// A compiled instruction: an opcode with its operands in order.
#[derive(Debug, Clone, PartialEq)]
pub struct Instruction {
    pub operation: Operation,
    pub arguments: Vec<Argument>,
}

} // verus!
