use toy_os::keyboard::Key;

use toy_os::event_queue::EventQueue;
use toy_os::executor::Executor;
use toy_os::interrupts::{keyboard_interrupt, KEYBOARD_INTERRUPT_ID};
use toy_os::keyboard::{KeyboardTask, ScancodeStream};
use toy_os::task::{Progress, TaskId};
use toy_os::wake_signal::WakeSignal;

#[test]
fn burst_decodes_to_two_key_presses() {
    let mut events = EventQueue::new(100);
    let mut signal = WakeSignal::new();
    let mut stream = ScancodeStream::new();
    for b in [0x1Eu8, 0x9E, 0x1F] {
        assert!(events.push(b));
    }
    let keys = stream.poll_next(TaskId(0), &mut events, &mut signal);
    assert_eq!(keys, Some(vec![Key::Unicode('a'), Key::Unicode('s')]));
    assert!(events.is_empty());
    assert!(!signal.is_registered());
}

#[test]
fn burst_split_over_interrupts_decodes_the_same() {
    let mut events = EventQueue::new(100);
    let mut signal = WakeSignal::new();
    let mut stream = ScancodeStream::new();
    let mut keys = Vec::new();
    for b in [0x1Eu8, 0x9E, 0x1F] {
        assert!(events.push(b));
        if let Some(mut batch) = stream.poll_next(TaskId(0), &mut events, &mut signal) {
            keys.append(&mut batch);
        }
    }
    assert_eq!(keys, vec![Key::Unicode('a'), Key::Unicode('s')]);
}

#[test]
fn empty_queue_registers_the_reader() {
    let mut events = EventQueue::new(4);
    let mut signal = WakeSignal::new();
    assert_eq!(ScancodeStream::poll_scancodes(TaskId(7), &mut events, &mut signal), None);
    assert_eq!(signal.wake(), Some(TaskId(7)));
    events.push(0x1E);
    assert_eq!(
        ScancodeStream::poll_scancodes(TaskId(7), &mut events, &mut signal),
        Some(vec![0x1E])
    );
    assert!(!signal.is_registered());
}

#[test]
fn keyboard_task_collects_keys_and_waits() {
    let mut events = EventQueue::new(16);
    let mut signal = WakeSignal::new();
    let mut task = KeyboardTask::new();
    for b in [0x1Eu8, 0x9E, 0x1F, 0x9F] {
        events.push(b);
    }
    assert_eq!(task.consume(TaskId(3), &mut events, &mut signal), Progress::Suspended);
    assert_eq!(signal.wake(), Some(TaskId(3)));
    assert_eq!(task.take_keys(), vec![Key::Unicode('a'), Key::Unicode('s')]);
    assert_eq!(task.take_keys(), Vec::new());
}

#[test]
fn release_only_bytes_give_no_key() {
    let mut stream = ScancodeStream::new();
    assert_eq!(stream.decode(&vec![0x9E, 0x9F]), Vec::new());
}

#[test]
fn keyboard_interrupt_wakes_the_waiting_reader() {
    let mut ex: Executor<KeyboardTask> = Executor::new(100);
    let id = ex.spawn(KeyboardTask::new());
    assert_eq!(ex.run_ready().polls, 1);
    assert!(ex.is_idle());
    assert_eq!(keyboard_interrupt(&mut ex, 0x1E), KEYBOARD_INTERRUPT_ID);
    assert_eq!(ex.pending_events(), 1);
    assert_eq!(ex.ready_count(), 1);
    assert_eq!(keyboard_interrupt(&mut ex, 0x9E), KEYBOARD_INTERRUPT_ID);
    assert_eq!(ex.ready_count(), 1);
    assert_eq!(ex.step(), Some((id, Progress::Suspended)));
    assert_eq!(ex.pending_events(), 0);
    assert_eq!(ex.task_count(), 1);
}

#[test]
fn keys_without_a_character_come_out_raw() {
    let mut stream = ScancodeStream::new();
    let keys = stream.decode(&vec![0x01, 0x81, 0x2A, 0x1E, 0x9E, 0xAA, 0x1E]);
    assert_eq!(keys.len(), 4);
    assert_eq!(keys[0], Key::Unicode('\u{1b}'));
    assert!(matches!(keys[1], Key::Raw(_)));
    assert_eq!(keys[2], Key::Unicode('A'));
    assert_eq!(keys[3], Key::Unicode('a'));
}

#[test]
fn extended_sequence_spans_two_batches() {
    let mut whole = ScancodeStream::new();
    let mut split = ScancodeStream::new();
    let bytes = vec![0xE0, 0x48, 0x1F];
    let all = whole.decode(&bytes);
    let mut parts = split.decode(&vec![0xE0]);
    parts.append(&mut split.decode(&vec![0x48, 0x1F]));
    assert_eq!(all, parts);
    assert_eq!(all.len(), 2);
    assert!(matches!(all[0], Key::Raw(_)));
    assert_eq!(all[1], Key::Unicode('s'));
}
