//! A small, embeddable RISC-style virtual machine, verified end to end:
//! a lexer for its assembly dialect, a label-resolving compiler with string
//! interning, a load-time validator, and a tick-driven interpreter over a
//! register file, a stack and byte-addressable RAM.
//!
//! Machine values are 32-bit floats carried as `u32` bit patterns; their
//! arithmetic goes through trusted wrappers over a bit-exact software float
//! implementation, and a few host-dependent operations (square root,
//! exponential, logarithm, decimal rendering) through the `HostFloat` trait
//! that the embedding program implements.

use vstd::prelude::*;

mod argument;
mod assembly;
mod compiler;
mod debug_info;
mod errors;
mod float_bits;
mod instruction;
mod laws;
mod limits;
mod location;
mod operation;
mod parser;
mod ram;
mod register_kind;
mod source_unit;
mod text;
mod token;
mod vm;
mod vm_status;

pub use argument::Argument;
pub use assembly::Assembly;
pub use compiler::Ast;
pub use compiler::SyntaxToken;
pub use compiler::compile;
pub use debug_info::DebugInfo;
pub use errors::AssemblyError;
pub use errors::AssemblyErrorKind;
pub use errors::CompilationError;
pub use errors::CompilationErrorKind;
pub use errors::ParsingError;
pub use errors::ParsingErrorKind;
pub use errors::RuntimeError;
pub use errors::RuntimeErrorKind;
pub use float_bits::HostFloat;
pub use instruction::Instruction;
pub use laws::lemma_intern_reuse;
pub use laws::lemma_label_targets_in_range;
pub use laws::lemma_monotone_pc_on_fall_through;
pub use laws::lemma_push_then_pop;
pub use laws::lemma_store_then_load_word;
pub use laws::lemma_terminal_states_sticky;
pub use limits::Limits;
pub use location::Location;
pub use operation::OpeartionParseError;
pub use operation::Operation;
pub use parser::parse;
pub use ram::Ram;
pub use register_kind::RegisterKind;
pub use register_kind::RegisterMode;
pub use source_unit::SourceUnit;
pub use token::ArgumentToken;
pub use token::Token;
pub use token::TokenKind;
pub use vm::VM;
pub use vm_status::VMStatus;
