//! Cooperative executor: owns every task, a ready queue of task ids, and the
//! event queue and wake signal that interrupt handlers feed.
use vstd::prelude::*;

use crate::event_queue::{pushed, EventQueue};
use crate::task::{Computation, Progress, Task, TaskId};
use crate::wake_signal::WakeSignal;

verus! {

/// Ready queue after asking to schedule `id`: appended if `id` names a live
/// task that is not queued already, unchanged otherwise.
pub open spec fn scheduled(ready: Seq<TaskId>, live: Seq<TaskId>, id: TaskId) -> Seq<TaskId> {
    if live.contains(id) && !ready.contains(id) {
        ready.push(id)
    } else {
        ready
    }
}

/// Ready queue after the wake signal, holding `handle`, has been fired.
pub open spec fn woken(ready: Seq<TaskId>, live: Seq<TaskId>, handle: Option<TaskId>) -> Seq<
    TaskId,
> {
    match handle {
        Some(id) => scheduled(ready, live, id),
        None => ready,
    }
}

/// A live task enters the ready queue only when a wake names it, and a
/// second wake before its poll queues nothing more: the queue stays a set.
pub proof fn lemma_wake_queues_at_most_once(
    ready: Seq<TaskId>,
    live: Seq<TaskId>,
    id: TaskId,
    t: TaskId,
)
    requires
        ready.no_duplicates(),
    ensures
        scheduled(ready, live, id).no_duplicates(),
        scheduled(ready, live, id).contains(t) <==> (ready.contains(t) || (t == id
            && live.contains(t))),
        scheduled(scheduled(ready, live, id), live, id) == scheduled(ready, live, id),
        woken(woken(ready, live, Some(id)), live, None) == scheduled(ready, live, id),
{
    let r = scheduled(ready, live, id);
    if live.contains(id) && !ready.contains(id) {
        assert(r.no_duplicates()) by {
            assert forall|i: int, j: int| 0 <= i < r.len() && 0 <= j < r.len() && i != j implies r[i]
                != r[j] by {
                if i == ready.len() {
                    assert(ready[j] != id);
                } else if j == ready.len() {
                    assert(ready[i] != id);
                }
            }
        }
        assert(r.contains(t) <==> (ready.contains(t) || t == id)) by {
            if r.contains(t) {
                let i = choose|i: int| 0 <= i < r.len() && r[i] == t;
                if i < ready.len() {
                    assert(ready[i] == t);
                }
            }
            if ready.contains(t) {
                let i = choose|i: int| 0 <= i < ready.len() && ready[i] == t;
                assert(r[i] == t);
            }
            if t == id {
                assert(r[ready.len() as int] == t);
            }
        }
        assert(r[ready.len() as int] == id);
        assert(r.contains(id));
    }
}

/// Ready queue after asking to schedule each of `ids` in turn.
pub open spec fn scheduled_all(ready: Seq<TaskId>, live: Seq<TaskId>, ids: Seq<TaskId>) -> Seq<
    TaskId,
>
    decreases ids.len(),
{
    if ids.len() == 0 {
        ready
    } else {
        scheduled(scheduled_all(ready, live, ids.drop_last()), live, ids.last())
    }
}

/// However many wakes come before a poll, and for whichever tasks, the ready
/// queue stays a set: a task is in it once if it was queued already, or is
/// live and was woken, and is absent otherwise.
pub proof fn lemma_wakes_queue_each_once(
    ready: Seq<TaskId>,
    live: Seq<TaskId>,
    ids: Seq<TaskId>,
    t: TaskId,
)
    requires
        ready.no_duplicates(),
    ensures
        scheduled_all(ready, live, ids).no_duplicates(),
        scheduled_all(ready, live, ids).contains(t) <==> (ready.contains(t) || (ids.contains(t)
            && live.contains(t))),
    decreases ids.len(),
{
    if ids.len() > 0 {
        let init = ids.drop_last();
        lemma_wakes_queue_each_once(ready, live, init, t);
        let prev = scheduled_all(ready, live, init);
        lemma_wake_queues_at_most_once(prev, live, ids.last(), t);
        assert(ids.contains(t) <==> (init.contains(t) || ids.last() == t)) by {
            if ids.contains(t) {
                let i = choose|i: int| 0 <= i < ids.len() && ids[i] == t;
                if i < init.len() {
                    assert(init[i] == t);
                }
            }
            if init.contains(t) {
                let i = choose|i: int| 0 <= i < init.len() && init[i] == t;
                assert(ids[i] == t);
            }
            if ids.last() == t {
                assert(ids[ids.len() - 1] == t);
            }
        }
    }
}

/// The poll in which a task completes is its last: once removed from the
/// live tasks (at position `k`), no wake can queue it again, so every poll
/// of a task but the last is one in which it suspended.
pub proof fn lemma_completed_never_requeued(
    ready: Seq<TaskId>,
    live: Seq<TaskId>,
    k: int,
    x: TaskId,
)
    requires
        live.no_duplicates(),
        0 <= k < live.len(),
        !ready.contains(live[k]),
    ensures
        !live.remove(k).contains(live[k]),
        !scheduled(ready, live.remove(k), x).contains(live[k]),
{
    let id = live[k];
    let rest = live.remove(k);
    assert(!rest.contains(id)) by {
        if rest.contains(id) {
            let i = choose|i: int| 0 <= i < rest.len() && rest[i] == id;
            if i < k {
                assert(live[i] == id);
            } else {
                assert(live[i + 1] == id);
            }
        }
    }
    let r = scheduled(ready, rest, x);
    if rest.contains(x) && !ready.contains(x) {
        assert(x != id);
        assert(!r.contains(id)) by {
            if r.contains(id) {
                let i = choose|i: int| 0 <= i < r.len() && r[i] == id;
                if i < ready.len() {
                    assert(ready[i] == id);
                }
            }
        }
    }
}

/// Counts of one pass of the executor over its ready queue.
#[derive(Clone, Copy, Debug, PartialEq, Eq, Structural)]
pub struct RunStats {
    /// Polls performed.
    pub polls: usize,
    /// Tasks that reported completion and were removed.
    pub completed: usize,
}

pub struct Executor<C> {
    tasks: Vec<Task<C>>,
    ready: Vec<TaskId>,
    next_id: u64,
    events: EventQueue,
    signal: WakeSignal,
    polled: Ghost<Seq<TaskId>>,
}

impl<C> Executor<C> {
    /// Ids of the tasks the executor owns, in storage order.
    pub closed spec fn live(&self) -> Seq<TaskId> {
        Seq::new(self.tasks@.len(), |i: int| self.tasks@[i].id)
    }

    /// Ids waiting for a poll, in the order they will be polled.
    pub closed spec fn ready_queue(&self) -> Seq<TaskId> {
        self.ready@
    }

    /// The id the next spawned task will get.
    pub closed spec fn next_id(&self) -> u64 {
        self.next_id
    }

    /// Bytes waiting in the event queue, oldest first.
    pub closed spec fn events(&self) -> Seq<u8> {
        self.events@
    }

    pub closed spec fn event_capacity(&self) -> nat {
        self.events.capacity()
    }

    /// Handle held by the wake signal.
    pub closed spec fn registered(&self) -> Option<TaskId> {
        self.signal@
    }

    /// Ids are unique, the ready queue is a set of live ids, and every id
    /// handed out lies below the counter.
    pub open spec fn wf(&self) -> bool {
        &&& self.live().no_duplicates()
        &&& self.ready_queue().no_duplicates()
        &&& forall|i: int|
            0 <= i < self.ready_queue().len() ==> self.live().contains(
                #[trigger] self.ready_queue()[i],
            )
        &&& forall|i: int| 0 <= i < self.live().len() ==> (#[trigger] self.live()[i]).0 < self.next_id()
    }

    /// Ids of the tasks polled so far, in the order of their polls.
    pub closed spec fn polled(&self) -> Seq<TaskId> {
        self.polled@
    }
}

impl<C: Computation> Executor<C> {
    /// An executor with no tasks and an event queue of `capacity` bytes.
    pub fn new(capacity: usize) -> (e: Self)
        ensures
            e.wf(),
            e.live() == Seq::<TaskId>::empty(),
            e.ready_queue() == Seq::<TaskId>::empty(),
            e.next_id() == 0,
            e.events() == Seq::<u8>::empty(),
            e.event_capacity() == capacity,
            e.registered() is None,
            e.polled() == Seq::<TaskId>::empty(),
    {
        let e = Executor {
            tasks: Vec::new(),
            ready: Vec::new(),
            next_id: 0,
            events: EventQueue::new(capacity),
            signal: WakeSignal::new(),
            polled: Ghost(Seq::empty()),
        };
        assert(e.live() =~= Seq::<TaskId>::empty());
        e
    }

    /// Index of `id` among the tasks.
    fn position(&self, id: TaskId) -> (r: Option<usize>)
        requires
            self.wf(),
        ensures
            match r {
                Some(k) => k < self.live().len() && self.live()[k as int] == id,
                None => !self.live().contains(id),
            },
    {
        let mut k: usize = 0;
        while k < self.tasks.len()
            invariant
                k <= self.tasks@.len(),
                forall|j: int| 0 <= j < k ==> self.live()[j] != id,
            decreases self.tasks@.len() - k,
        {
            if self.tasks[k].id.0 == id.0 {
                return Some(k);
            }
            k = k + 1;
        }
        None
    }

    fn is_queued(&self, id: TaskId) -> (r: bool)
        ensures
            r == self.ready_queue().contains(id),
    {
        let mut k: usize = 0;
        while k < self.ready.len()
            invariant
                k <= self.ready@.len(),
                forall|j: int| 0 <= j < k ==> self.ready@[j] != id,
            decreases self.ready@.len() - k,
        {
            if self.ready[k].0 == id.0 {
                return true;
            }
            k = k + 1;
        }
        false
    }

    /// True while the id counter has ids left to hand out.
    pub fn can_spawn(&self) -> (r: bool)
        ensures
            r == (self.next_id() < u64::MAX),
    {
        self.next_id < u64::MAX
    }

    /// Takes ownership of `computation` as a new task and queues it for a
    /// first poll. The id counter running out is a fatal condition, left out
    /// here.
    pub fn spawn(&mut self, computation: C) -> (id: TaskId)
        requires
            old(self).wf(),
            old(self).next_id() < u64::MAX,
        ensures
            final(self).wf(),
            id == TaskId(old(self).next_id()),
            final(self).next_id() == old(self).next_id() + 1,
            final(self).live() == old(self).live().push(id),
            final(self).ready_queue() == old(self).ready_queue().push(id),
            final(self).events() == old(self).events(),
            final(self).event_capacity() == old(self).event_capacity(),
            final(self).registered() == old(self).registered(),
            final(self).polled() == old(self).polled(),
    {
        let id = TaskId(self.next_id);
        let ghost live0 = self.live();
        let ghost ready0 = self.ready@;
        assert(!live0.contains(id)) by {
            if live0.contains(id) {
                let i = choose|i: int| 0 <= i < live0.len() && live0[i] == id;
                assert(live0[i].0 < self.next_id);
            }
        }
        assert(!ready0.contains(id)) by {
            if ready0.contains(id) {
                let i = choose|i: int| 0 <= i < ready0.len() && ready0[i] == id;
                assert(live0.contains(ready0[i]));
            }
        }
        self.tasks.push(Task { id, computation });
        self.ready.push(id);
        self.next_id = self.next_id + 1;
        assert(self.live() =~= live0.push(id));
        assert forall|i: int| 0 <= i < self.ready@.len() implies self.live().contains(
            #[trigger] self.ready@[i],
        ) by {
            if i < ready0.len() {
                assert(live0.contains(ready0[i]));
                let j = choose|j: int| 0 <= j < live0.len() && live0[j] == ready0[i];
                assert(self.live()[j] == ready0[i]);
            } else {
                assert(self.live()[live0.len() as int] == id);
            }
        }
        id
    }

    /// Queues the task `id` for a poll unless it is already queued or is not
    /// a live task.
    pub fn wake_task(&mut self, id: TaskId)
        requires
            old(self).wf(),
        ensures
            final(self).wf(),
            final(self).ready_queue() == scheduled(
                old(self).ready_queue(),
                old(self).live(),
                id,
            ),
            final(self).live() == old(self).live(),
            final(self).next_id() == old(self).next_id(),
            final(self).events() == old(self).events(),
            final(self).event_capacity() == old(self).event_capacity(),
            final(self).registered() == old(self).registered(),
            final(self).polled() == old(self).polled(),
    {
        let known = self.position(id);
        let queued = self.is_queued(id);
        if known.is_some() && !queued {
            let ghost ready0 = self.ready@;
            self.ready.push(id);
            assert forall|i: int| 0 <= i < self.ready@.len() implies self.live().contains(
                #[trigger] self.ready@[i],
            ) by {
                if i < ready0.len() {
                    assert(self.live().contains(ready0[i]));
                } else {
                    let k = known.unwrap();
                    assert(self.live()[k as int] == id);
                }
            }
            assert(self.ready@.no_duplicates()) by {
                assert forall|i: int, j: int|
                    0 <= i < self.ready@.len() && 0 <= j < self.ready@.len() && i != j
                        implies self.ready@[i] != self.ready@[j] by {
                    if i == ready0.len() {
                        assert(!ready0.contains(id));
                        assert(ready0[j] != id);
                    } else if j == ready0.len() {
                        assert(ready0[i] != id);
                    }
                }
            }
        }
    }

    /// Interrupt hook: offers `byte` to the event queue; false when the queue
    /// was full and the byte was dropped.
    pub fn push_event(&mut self, byte: u8) -> (accepted: bool)
        requires
            old(self).wf(),
        ensures
            final(self).wf(),
            accepted == (old(self).events().len() < old(self).event_capacity()),
            final(self).events() == pushed(old(self).events(), old(self).event_capacity(), byte),
            final(self).event_capacity() == old(self).event_capacity(),
            final(self).live() == old(self).live(),
            final(self).ready_queue() == old(self).ready_queue(),
            final(self).next_id() == old(self).next_id(),
            final(self).registered() == old(self).registered(),
            final(self).polled() == old(self).polled(),
    {
        self.events.push(byte)
    }

    /// Interrupt hook: fires the wake signal, scheduling the task whose
    /// handle it held.
    pub fn wake(&mut self)
        requires
            old(self).wf(),
        ensures
            final(self).wf(),
            final(self).registered() is None,
            final(self).ready_queue() == woken(
                old(self).ready_queue(),
                old(self).live(),
                old(self).registered(),
            ),
            final(self).live() == old(self).live(),
            final(self).next_id() == old(self).next_id(),
            final(self).events() == old(self).events(),
            final(self).event_capacity() == old(self).event_capacity(),
            final(self).polled() == old(self).polled(),
    {
        match self.signal.wake() {
            Some(id) => self.wake_task(id),
            None => {},
        }
    }

    /// True when no task waits for a poll: the caller may suspend the CPU
    /// until the next interrupt, after checking this with interrupts masked.
    pub fn is_idle(&self) -> (r: bool)
        ensures
            r == (self.ready_queue().len() == 0),
    {
        self.ready.len() == 0
    }

    pub fn task_count(&self) -> (r: usize)
        ensures
            r == self.live().len(),
    {
        self.tasks.len()
    }

    pub fn ready_count(&self) -> (r: usize)
        ensures
            r == self.ready_queue().len(),
    {
        self.ready.len()
    }

    pub fn pending_events(&self) -> (r: usize)
        ensures
            r == self.events().len(),
    {
        self.events.len()
    }

    /// Polls the task at the front of the ready queue, if any. A task that
    /// completes is dropped; one that suspends stays, off the ready queue,
    /// until something wakes it. The poll may change the event queue and the
    /// wake signal as it likes.
    pub fn step(&mut self) -> (r: Option<(TaskId, Progress)>)
        requires
            old(self).wf(),
        ensures
            final(self).wf(),
            final(self).next_id() == old(self).next_id(),
            old(self).ready_queue().len() == 0 ==> {
                &&& r is None
                &&& final(self).live() == old(self).live()
                &&& final(self).ready_queue() == old(self).ready_queue()
                &&& final(self).events() == old(self).events()
                &&& final(self).registered() == old(self).registered()
                &&& final(self).polled() == old(self).polled()
            },
            old(self).ready_queue().len() > 0 ==> {
                &&& r is Some
                &&& (r->0).0 == old(self).ready_queue()[0]
                &&& final(self).ready_queue() == old(self).ready_queue().drop_first()
                &&& final(self).polled() == old(self).polled().push((r->0).0)
                &&& (r->0).1 == Progress::Suspended ==> final(self).live() == old(self).live()
                &&& (r->0).1 == Progress::Complete ==> exists|k: int|
                    0 <= k < old(self).live().len() && old(self).live()[k] == (r->0).0
                        && final(self).live() == old(self).live().remove(k)
            },
    {
        if self.ready.len() == 0 {
            return None;
        }
        let ghost ready0 = self.ready@;
        let ghost live0 = self.live();
        let id = self.ready.remove(0);
        assert(self.ready@ =~= ready0.drop_first());
        assert(live0.contains(id)) by {
            assert(live0.contains(ready0[0]));
        }
        let k = match self.position(id) {
            Some(k) => k,
            None => {
                return None;
            },
        };
        let p = self.tasks[k].computation.poll(id, &mut self.events, &mut self.signal);
        self.polled = Ghost(self.polled@.push(id));
        assert(self.live() =~= live0);
        match p {
            Progress::Complete => {
                self.tasks.remove(k);
                assert(self.live() =~= live0.remove(k as int));
                assert forall|i: int| 0 <= i < self.ready@.len() implies self.live().contains(
                    #[trigger] self.ready@[i],
                ) by {
                    let x = ready0[i + 1];
                    assert(ready0[0] != x);
                    assert(live0.contains(x));
                    let j = choose|j: int| 0 <= j < live0.len() && live0[j] == x;
                    assert(j != k);
                    if j < k {
                        assert(self.live()[j] == x);
                    } else {
                        assert(self.live()[j - 1] == x);
                    }
                }
            },
            Progress::Suspended => {},
        }
        Some((id, p))
    }

    /// Polls every task that is ready when the pass begins, once each. Polls
    /// cannot queue tasks, so the pass ends with the ready queue empty.
    pub fn run_ready(&mut self) -> (stats: RunStats)
        requires
            old(self).wf(),
        ensures
            final(self).wf(),
            final(self).ready_queue().len() == 0,
            stats.polls == old(self).ready_queue().len(),
            stats.completed <= stats.polls,
            final(self).live().len() + stats.completed == old(self).live().len(),
            final(self).next_id() == old(self).next_id(),
            final(self).polled() == old(self).polled() + old(self).ready_queue(),
    {
        let mut stats = RunStats { polls: 0, completed: 0 };
        let n0 = self.ready.len();
        while self.ready.len() > 0
            invariant
                self.wf(),
                old(self).ready_queue().len() == n0,
                stats.polls + self.ready_queue().len() == old(self).ready_queue().len(),
                stats.completed <= stats.polls,
                self.live().len() + stats.completed == old(self).live().len(),
                self.next_id() == old(self).next_id(),
                self.polled() + self.ready_queue() == old(self).polled() + old(self).ready_queue(),
            decreases self.ready_queue().len(),
        {
            let ghost p0 = self.polled();
            let ghost q0 = self.ready_queue();
            let r = self.step();
            assert(self.polled() + self.ready_queue() =~= p0 + q0);
            match r {
                Some((_, Progress::Complete)) => {
                    stats.completed = stats.completed + 1;
                },
                _ => {},
            }
            stats.polls = stats.polls + 1;
        }
        stats
    }
}

} // verus!
