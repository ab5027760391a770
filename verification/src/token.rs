use vstd::prelude::*;

use crate::location::Location;
use crate::register_kind::RegisterKind;

verus! {

/// An argument as the lexer reads it. Strings, labels and constants are
/// still symbolic here; the compiler lowers them to integers.
#[derive(Debug, Clone, PartialEq)]
pub enum ArgumentToken {
    Register { register: RegisterKind },
    Pin { id: usize },
    Int { value: i32 },
    Float { bits: u32 },
    String { value: String },
    Label { name: String },
    Constant { name: String },
}

/// What one token is: a comment, a label definition, an operation mnemonic
/// (already lower-cased), or an argument.
#[derive(Debug, Clone, PartialEq)]
pub enum TokenKind {
    Comment { text: String },
    Label { name: String },
    Operation { operation: String },
    Argument { argument: ArgumentToken },
}

/// One token with the source position of its first byte.
#[derive(Debug, Clone, PartialEq)]
pub struct Token {
    pub location: Location,
    pub kind: TokenKind,
}

impl ArgumentToken {
    /// An equal copy. (The derived clone carries no specification.)
    pub fn duplicate(&self) -> (r: Self)
        ensures
            r == *self,
    {
        match self {
            ArgumentToken::Register { register } => ArgumentToken::Register {
                register: *register,
            },
            ArgumentToken::Pin { id } => ArgumentToken::Pin { id: *id },
            ArgumentToken::Int { value } => ArgumentToken::Int { value: *value },
            ArgumentToken::Float { bits } => ArgumentToken::Float { bits: *bits },
            ArgumentToken::String { value } => ArgumentToken::String { value: value.clone() },
            ArgumentToken::Label { name } => ArgumentToken::Label { name: name.clone() },
            ArgumentToken::Constant { name } => ArgumentToken::Constant { name: name.clone() },
        }
    }
}

impl Token {
    /// An equal copy. (The derived clone carries no specification.)
    pub fn duplicate(&self) -> (r: Self)
        ensures
            r == *self,
    {
        let kind = match &self.kind {
            TokenKind::Comment { text } => TokenKind::Comment { text: text.clone() },
            TokenKind::Label { name } => TokenKind::Label { name: name.clone() },
            TokenKind::Operation { operation } => TokenKind::Operation {
                operation: operation.clone(),
            },
            TokenKind::Argument { argument } => TokenKind::Argument {
                argument: argument.duplicate(),
            },
        };
        Token { location: self.location, kind }
    }
}

} // verus!
