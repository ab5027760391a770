//! The error values of the three pipeline stages and of the running machine.
//! Each carries a human-readable message and a machine-readable kind; the
//! library's contracts speak of the kind.

use vstd::prelude::*;

use crate::location::Location;
use crate::register_kind::RegisterKind;

verus! {

/// Why a token stream could not be produced from source text.
#[derive(Debug, Clone, Copy, PartialEq, Eq, PartialOrd, Ord, Structural)]
pub enum ParsingErrorKind {
    InvalidLabel,
    InvalidComment,
    InvalidRegister,
    InvalidArgument,
    Unknown,
}

/// A failure of the lexical stage, at a source position. It may wrap the
/// error of an inner alternative.
#[derive(Debug, PartialEq)]
pub struct ParsingError {
    pub message: String,
    pub location: Location,
    pub kind: ParsingErrorKind,
    pub inner: Option<Box<ParsingError>>,
}

impl ParsingError {
    pub fn new(message: String, location: Location, kind: ParsingErrorKind) -> (r: Self)
        ensures
            r.message == message,
            r.location == location,
            r.kind == kind,
            r.inner is None,
    {
        ParsingError { message, location, kind, inner: None }
    }

    pub fn wrap(message: String, location: Location, kind: ParsingErrorKind, inner: Self) -> (r:
        Self)
        ensures
            r.message == message,
            r.location == location,
            r.kind == kind,
            r.inner == Some(Box::new(inner)),
    {
        ParsingError { message, location, kind, inner: Some(Box::new(inner)) }
    }

    pub fn set_inner(&mut self, inner: Option<Box<Self>>)
        ensures
            *final(self) == (ParsingError { inner, ..*old(self) }),
    {
        self.inner = inner;
    }

    pub fn message(&self) -> (r: &str)
        ensures
            r@ == self.message@,
    {
        self.message.as_str()
    }

    pub fn location(&self) -> (r: Location)
        ensures
            r == self.location,
    {
        self.location
    }

    pub fn kind(&self) -> (r: ParsingErrorKind)
        ensures
            r == self.kind,
    {
        self.kind
    }

    pub fn inner(&self) -> (r: Option<&ParsingError>)
        ensures
            match r {
                Some(e) => self.inner is Some && *e == *self.inner->0,
                None => self.inner is None,
            },
    {
        match &self.inner {
            Some(b) => Some(&**b),
            None => None,
        }
    }
}

/// Why the compiler rejected a token stream.
#[derive(Debug, Clone, PartialEq, Eq)]
pub enum CompilationErrorKind {
    InvalidOperation,
    InvalidArgument,
    DuplicateLabel { name: String },
    UnknownLabel { name: String },
    UnknownConstant { name: String },
    TooLargeAssembly { size: usize },
}

/// A failure of the compilation stage, at a source position.
#[derive(Debug, Clone, PartialEq)]
pub struct CompilationError {
    pub message: String,
    pub location: Location,
    pub kind: CompilationErrorKind,
}

impl CompilationError {
    pub fn new(message: String, location: Location, kind: CompilationErrorKind) -> (r: Self)
        ensures
            r.message == message,
            r.location == location,
            r.kind == kind,
    {
        CompilationError { message, location, kind }
    }

    pub fn message(&self) -> (r: &str)
        ensures
            r@ == self.message@,
    {
        self.message.as_str()
    }

    pub fn location(&self) -> (r: Location)
        ensures
            r == self.location,
    {
        self.location
    }

    pub fn kind(&self) -> (r: &CompilationErrorKind)
        ensures
            r == &self.kind,
    {
        &self.kind
    }
}

/// Why an assembly failed validation at load time.
#[derive(Debug, Clone, PartialEq)]
pub enum AssemblyErrorKind {
    InvalidInstruction { name: String },
    InvalidRegister { id: usize },
    InvalidPin { id: usize },
    TooLarge,
}

/// A failure of the load-time validator, with a source position where debug
/// information supplies one.
#[derive(Debug, Clone, PartialEq)]
pub struct AssemblyError {
    pub message: String,
    pub location: Option<Location>,
    pub kind: AssemblyErrorKind,
}

impl AssemblyError {
    pub fn new(message: String, location: Option<Location>, kind: AssemblyErrorKind) -> (r: Self)
        ensures
            r.message == message,
            r.location == location,
            r.kind == kind,
    {
        AssemblyError { message, location, kind }
    }

    pub fn message(&self) -> (r: &str)
        ensures
            r@ == self.message@,
    {
        self.message.as_str()
    }

    pub fn location(&self) -> (r: Option<Location>)
        ensures
            r == self.location,
    {
        self.location
    }

    pub fn kind(&self) -> (r: &AssemblyErrorKind)
        ensures
            r == &self.kind,
    {
        &self.kind
    }
}

/// Why a tick failed at run time.
#[derive(Debug, Clone, Copy, PartialEq, Eq, Structural)]
pub enum RuntimeErrorKind {
    InvalidType,
    DividedByZero,
    RegisterIsReadOnly { register: RegisterKind },
    InvalidRegister { register: RegisterKind },
    InvalidAddress { address: usize },
    StackOverflow,
    OutOfMemory,
}

/// A run-time failure; it moves the machine to the Error status.
#[derive(Debug, Clone, PartialEq)]
pub struct RuntimeError {
    pub message: String,
    pub kind: RuntimeErrorKind,
}

impl RuntimeError {
    pub fn new(message: String, kind: RuntimeErrorKind) -> (r: Self)
        ensures
            r.message == message,
            r.kind == kind,
    {
        RuntimeError { message, kind }
    }

    pub fn message(&self) -> (r: &str)
        ensures
            r@ == self.message@,
    {
        self.message.as_str()
    }

    pub fn kind(&self) -> (r: &RuntimeErrorKind)
        ensures
            r == &self.kind,
    {
        &self.kind
    }
}

} // verus!
