//! Tasks: suspendable units of cooperative computation.
use vstd::prelude::*;

use crate::event_queue::EventQueue;
use crate::wake_signal::WakeSignal;

verus! {

/// Identifier of a task, handed out by the executor from a counter that only
/// grows, so no two tasks of one executor ever share it.
#[derive(Clone, Copy, Debug, PartialEq, Eq, Structural, Hash)]
pub struct TaskId(pub u64);

/// What a task reports after being polled.
#[derive(Clone, Copy, Debug, PartialEq, Eq, Structural)]
pub enum Progress {
    /// The computation has finished; the task is dropped.
    Complete,
    /// The computation waits; it has arranged to be woken through a resource
    /// such as the wake signal before returning this.
    Suspended,
}

/// A computation that the executor drives one poll at a time.
///
/// A poll sees the shared event queue and wake signal. It must not block:
/// when it cannot go on it registers `id` with the signal and reports
/// `Progress::Suspended`.
pub trait Computation {
    fn poll(&mut self, id: TaskId, events: &mut EventQueue, signal: &mut WakeSignal) -> Progress;
}

/// A computation together with the identifier it was spawned under.
pub struct Task<C> {
    pub id: TaskId,
    pub computation: C,
}

} // verus!
