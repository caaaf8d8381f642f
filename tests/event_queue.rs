use toy_os::event_queue::EventQueue;
use toy_os::wake_signal::WakeSignal;
use toy_os::task::TaskId;

#[test]
fn burst_over_capacity_drops_newest() {
    let mut q = EventQueue::new(4);
    for b in [10u8, 11, 12, 13] {
        assert!(q.push(b));
    }
    assert!(!q.push(14));
    assert_eq!(q.len(), 4);
    assert_eq!(q.drain(), vec![10, 11, 12, 13]);
    assert!(q.is_empty());
}

#[test]
fn interleaved_pushes_and_drains_keep_order() {
    let mut q = EventQueue::new(3);
    assert!(q.push(1));
    assert!(q.push(2));
    assert_eq!(q.drain(), vec![1, 2]);
    assert!(q.push(3));
    assert!(q.push(4));
    assert!(q.push(5));
    assert!(!q.push(6));
    assert_eq!(q.pop(), Some(3));
    assert!(q.push(7));
    assert_eq!(q.drain(), vec![4, 5, 7]);
    assert_eq!(q.drain(), Vec::<u8>::new());
}

#[test]
fn ring_wraps_many_times() {
    let mut q = EventQueue::new(5);
    let mut expected: u8 = 0;
    let mut next: u8 = 0;
    for round in 0..40u32 {
        let n = (round % 5) + 1;
        for _ in 0..n {
            assert!(q.push(next));
            next = next.wrapping_add(1);
        }
        let got = q.drain();
        assert_eq!(got.len(), n as usize);
        for b in got {
            assert_eq!(b, expected);
            expected = expected.wrapping_add(1);
        }
    }
}

#[test]
fn pop_on_empty_queue_is_none() {
    let mut q = EventQueue::new(2);
    assert_eq!(q.pop(), None);
    assert!(q.push(9));
    assert_eq!(q.pop(), Some(9));
    assert_eq!(q.pop(), None);
}

#[test]
fn zero_capacity_queue_drops_everything() {
    let mut q = EventQueue::new(0);
    assert_eq!(q.capacity_of(), 0);
    assert!(!q.push(1));
    assert!(q.is_empty());
    assert_eq!(q.drain(), Vec::<u8>::new());
}

#[test]
fn hundred_slot_queue_holds_a_hundred() {
    let mut q = EventQueue::new(100);
    for i in 0..101u32 {
        assert_eq!(q.push(i as u8), i < 100);
    }
    let got = q.drain();
    assert_eq!(got.len(), 100);
    for (i, b) in got.iter().enumerate() {
        assert_eq!(*b, i as u8);
    }
}

#[test]
fn wake_signal_keeps_latest_handle_once() {
    let mut s = WakeSignal::new();
    assert!(!s.is_registered());
    assert_eq!(s.wake(), None);
    s.register(TaskId(1));
    s.register(TaskId(2));
    assert!(s.is_registered());
    assert_eq!(s.wake(), Some(TaskId(2)));
    assert_eq!(s.wake(), None);
}
