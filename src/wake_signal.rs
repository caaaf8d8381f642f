//! One-slot wake signal shared between a reader task and interrupt handlers.
use vstd::prelude::*;

use crate::task::TaskId;

verus! {

/// Holds at most one resume handle. Registering replaces any earlier handle;
/// waking takes the handle out.
pub struct WakeSignal {
    handle: Option<TaskId>,
}

impl View for WakeSignal {
    type V = Option<TaskId>;

    /// The registered handle, if any.
    closed spec fn view(&self) -> Option<TaskId> {
        self.handle
    }
}

impl WakeSignal {
    pub fn new() -> (s: Self)
        ensures
            s@ is None,
    {
        WakeSignal { handle: None }
    }

    /// Stores `id` as the handle to resume, replacing any previous one.
    pub fn register(&mut self, id: TaskId)
        ensures
            final(self)@ == Some(id),
    {
        self.handle = Some(id);
    }

    /// Takes the registered handle out, if there is one. The caller schedules
    /// the task it names.
    pub fn wake(&mut self) -> (r: Option<TaskId>)
        ensures
            r == old(self)@,
            final(self)@ is None,
    {
        self.handle.take()
    }

    pub fn is_registered(&self) -> (r: bool)
        ensures
            r == (self@ is Some),
    {
        self.handle.is_some()
    }
}

} // verus!
