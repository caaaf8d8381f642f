//! Scheduling descriptors of a process or thread.
use vstd::prelude::*;

verus! {

/// The status of a context, used for scheduling.
#[derive(Copy, Clone, Debug, Eq, PartialEq, Structural)]
pub enum Status {
    Runnable,
    Blocked,
    Exited(usize),
}

/// Identifier of a context.
#[derive(Copy, Clone, Debug, Eq, PartialEq, Structural)]
pub struct ContextId(pub usize);

/// A context, which identifies either a process or a thread.
#[derive(Debug)]
pub struct Context {
    /// The ID of this context.
    pub id: ContextId,
    /// Status of the context.
    pub status: Status,
    pub status_reason: &'static str,
    /// Whether the context is running.
    pub running: bool,
}

} // verus!
