use vstd::prelude::*;

verus! {

/// The machine's lifecycle state. Idle before an assembly is loaded;
/// Running while ticks execute; Yield after a cooperative yield; Finished
/// and Error are terminal until a reset.
#[derive(Debug, Clone, Copy, PartialEq, Eq, Structural)]
pub enum VMStatus {
    Idle,
    Yield,
    Running,
    Finished,
    Error,
}

} // verus!
