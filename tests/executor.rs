use std::cell::Cell;
use std::rc::Rc;

use toy_os::event_queue::EventQueue;
use toy_os::executor::{Executor, RunStats};
use toy_os::task::{Computation, Progress, TaskId};
use toy_os::wake_signal::WakeSignal;

/// Completes after `suspensions` polls that each register for a wake-up.
struct Countdown {
    suspensions: u32,
    polls: Rc<Cell<u32>>,
}

impl Computation for Countdown {
    fn poll(&mut self, id: TaskId, _events: &mut EventQueue, signal: &mut WakeSignal) -> Progress {
        self.polls.set(self.polls.get() + 1);
        if self.suspensions == 0 {
            Progress::Complete
        } else {
            self.suspensions -= 1;
            signal.register(id);
            Progress::Suspended
        }
    }
}

fn countdown(suspensions: u32) -> (Countdown, Rc<Cell<u32>>) {
    let polls = Rc::new(Cell::new(0));
    (Countdown { suspensions, polls: polls.clone() }, polls)
}

#[test]
fn immediate_tasks_all_complete_in_one_pass() {
    let mut ex: Executor<Countdown> = Executor::new(8);
    let mut counters = Vec::new();
    for i in 0..5u64 {
        let (c, polls) = countdown(0);
        assert_eq!(ex.spawn(c), TaskId(i));
        counters.push(polls);
    }
    assert_eq!(ex.task_count(), 5);
    assert_eq!(ex.ready_count(), 5);
    let stats = ex.run_ready();
    assert_eq!(stats, RunStats { polls: 5, completed: 5 });
    assert_eq!(ex.task_count(), 0);
    assert!(ex.is_idle());
    for p in counters {
        assert_eq!(p.get(), 1);
    }
}

#[test]
fn task_suspending_three_times_is_polled_four_times() {
    let mut ex: Executor<Countdown> = Executor::new(8);
    let (c, polls) = countdown(3);
    ex.spawn(c);
    let mut total = ex.run_ready().polls;
    for _ in 0..3 {
        assert!(ex.is_idle());
        ex.wake();
        assert_eq!(ex.ready_count(), 1);
        total += ex.run_ready().polls;
    }
    assert_eq!(total, 4);
    assert_eq!(polls.get(), 4);
    assert_eq!(ex.task_count(), 0);
    ex.wake();
    assert!(ex.is_idle());
}

#[test]
fn suspended_task_is_not_polled_without_a_wake() {
    let mut ex: Executor<Countdown> = Executor::new(8);
    let (c, polls) = countdown(2);
    ex.spawn(c);
    assert_eq!(ex.run_ready(), RunStats { polls: 1, completed: 0 });
    assert_eq!(ex.run_ready(), RunStats { polls: 0, completed: 0 });
    assert_eq!(ex.step(), None);
    assert_eq!(polls.get(), 1);
    assert_eq!(ex.task_count(), 1);
}

#[test]
fn repeated_wakes_queue_a_task_once() {
    let mut ex: Executor<Countdown> = Executor::new(8);
    let (c, polls) = countdown(5);
    let id = ex.spawn(c);
    ex.run_ready();
    ex.wake();
    ex.wake();
    ex.wake_task(id);
    ex.wake_task(id);
    assert_eq!(ex.ready_count(), 1);
    assert_eq!(ex.run_ready().polls, 1);
    assert_eq!(polls.get(), 2);
}

#[test]
fn waking_an_unknown_task_does_nothing() {
    let mut ex: Executor<Countdown> = Executor::new(8);
    ex.wake_task(TaskId(42));
    assert!(ex.is_idle());
    let (c, _) = countdown(0);
    let id = ex.spawn(c);
    ex.run_ready();
    ex.wake_task(id);
    assert!(ex.is_idle());
}

#[test]
fn step_reports_the_polled_task() {
    let mut ex: Executor<Countdown> = Executor::new(8);
    let (a, _) = countdown(1);
    let (b, _) = countdown(0);
    let ia = ex.spawn(a);
    let ib = ex.spawn(b);
    assert_eq!(ex.step(), Some((ia, Progress::Suspended)));
    assert_eq!(ex.step(), Some((ib, Progress::Complete)));
    assert_eq!(ex.step(), None);
    assert_eq!(ex.task_count(), 1);
}

#[test]
fn push_event_reports_overflow() {
    let mut ex: Executor<Countdown> = Executor::new(2);
    assert!(ex.push_event(1));
    assert!(ex.push_event(2));
    assert!(!ex.push_event(3));
    assert_eq!(ex.pending_events(), 2);
}
