//! Fixed-capacity ring buffer of raw event bytes.
//!
//! The producer side (`push`) never blocks and never allocates: when the
//! buffer is full the newest byte is dropped.
use vstd::prelude::*;

verus! {

/// Contents after offering `item` to a queue holding `s` with room for `cap`
/// bytes: appended when there is room, dropped otherwise.
pub open spec fn pushed(s: Seq<u8>, cap: nat, item: u8) -> Seq<u8> {
    if s.len() < cap {
        s.push(item)
    } else {
        s
    }
}

/// Physical slot of logical position `pos` in a ring of `cap` slots,
/// for `pos < 2 * cap`.
spec fn wrap(pos: int, cap: int) -> int {
    if pos < cap {
        pos
    } else {
        pos - cap
    }
}

/// One call on a queue: an offered byte, or a full drain.
#[derive(Clone, Copy, Debug, PartialEq, Eq, Structural)]
pub enum QueueOp {
    Push(u8),
    Drain,
}

/// Replays `ops` on a queue that starts empty with room for `cap` bytes,
/// each step as `push` and `drain` state it. Gives the bytes still queued,
/// the bytes drained so far in the order the drains returned them, and the
/// bytes whose push was accepted, in push order.
pub open spec fn replay(cap: nat, ops: Seq<QueueOp>) -> (Seq<u8>, Seq<u8>, Seq<u8>)
    decreases ops.len(),
{
    if ops.len() == 0 {
        (Seq::empty(), Seq::empty(), Seq::empty())
    } else {
        let prev = replay(cap, ops.drop_last());
        match ops.last() {
            QueueOp::Push(b) => (
                pushed(prev.0, cap, b),
                prev.1,
                if prev.0.len() < cap {
                    prev.2.push(b)
                } else {
                    prev.2
                },
            ),
            QueueOp::Drain => (Seq::empty(), prev.1 + prev.0, prev.2),
        }
    }
}

/// Whatever the interleaving of pushes and drains, the bytes drained so far
/// followed by the bytes still queued are exactly the accepted pushes in
/// push order, a push being refused only when the queue already holds `cap`
/// bytes; the queue never holds more than `cap`.
pub proof fn lemma_drain_keeps_push_order(cap: nat, ops: Seq<QueueOp>)
    ensures
        replay(cap, ops).1 + replay(cap, ops).0 == replay(cap, ops).2,
        replay(cap, ops).0.len() <= cap,
    decreases ops.len(),
{
    if ops.len() > 0 {
        lemma_drain_keeps_push_order(cap, ops.drop_last());
        let prev = replay(cap, ops.drop_last());
        match ops.last() {
            QueueOp::Push(b) => {
                if prev.0.len() < cap {
                    assert(prev.1 + prev.0.push(b) =~= (prev.1 + prev.0).push(b));
                }
            },
            QueueOp::Drain => {
                assert(prev.1 + prev.0 + Seq::<u8>::empty() =~= prev.1 + prev.0);
            },
        }
    }
}

/// Queue contents after offering `items` in order to an empty queue with
/// room for `cap` bytes, with no drain in between.
pub open spec fn filled(cap: nat, items: Seq<u8>) -> Seq<u8>
    decreases items.len(),
{
    if items.len() == 0 {
        Seq::empty()
    } else {
        pushed(filled(cap, items.drop_last()), cap, items.last())
    }
}

/// A burst with no drain keeps its oldest `cap` bytes in order and drops the
/// rest; with one byte more than the capacity, exactly the newest is dropped.
pub proof fn lemma_burst_keeps_oldest(cap: nat, items: Seq<u8>)
    ensures
        items.len() <= cap ==> filled(cap, items) == items,
        items.len() > cap ==> filled(cap, items) == items.take(cap as int),
        items.len() == cap + 1 ==> filled(cap, items.drop_last()).len() == cap && filled(
            cap,
            items,
        ) == items.drop_last(),
    decreases items.len(),
{
    if items.len() > 0 {
        let init = items.drop_last();
        lemma_burst_keeps_oldest(cap, init);
        if items.len() <= cap {
            assert(init.push(items.last()) =~= items);
        } else if items.len() == cap + 1 {
            assert(init =~= items.take(cap as int));
        } else {
            assert(init.take(cap as int) =~= items.take(cap as int));
        }
    }
}

pub struct EventQueue {
    buf: Vec<u8>,
    head: usize,
    len: usize,
}

impl View for EventQueue {
    type V = Seq<u8>;

    /// The queued bytes, oldest first.
    closed spec fn view(&self) -> Seq<u8> {
        Seq::new(self.len as nat, |i: int| self.buf@[wrap(self.head + i, self.buf@.len() as int)])
    }
}

impl EventQueue {
    #[verifier::type_invariant]
    spec fn inv(&self) -> bool {
        &&& self.len <= self.buf@.len()
        &&& (self.head < self.buf@.len() || (self.head == 0 && self.buf@.len() == 0))
    }

    /// Number of bytes the queue can hold at once.
    pub closed spec fn capacity(&self) -> nat {
        self.buf@.len()
    }

    /// An empty queue with room for `capacity` bytes.
    pub fn new(capacity: usize) -> (q: Self)
        ensures
            q@ == Seq::<u8>::empty(),
            q.capacity() == capacity,
    {
        let q = EventQueue { buf: vec![0u8; capacity], head: 0, len: 0 };
        assert(q@ =~= Seq::<u8>::empty());
        q
    }

    pub fn capacity_of(&self) -> (r: usize)
        ensures
            r == self.capacity(),
    {
        self.buf.len()
    }

    pub fn len(&self) -> (r: usize)
        ensures
            r == self@.len(),
    {
        self.len
    }

    pub fn is_empty(&self) -> (r: bool)
        ensures
            r == (self@.len() == 0),
    {
        self.len == 0
    }

    /// Offers `item` to the queue. Returns false, leaving the queue as it
    /// was, when the queue is full.
    pub fn push(&mut self, item: u8) -> (accepted: bool)
        ensures
            accepted == (old(self)@.len() < old(self).capacity()),
            final(self)@ == pushed(old(self)@, old(self).capacity(), item),
            final(self).capacity() == old(self).capacity(),
            final(self)@.len() <= final(self).capacity(),
    {
        proof {
            use_type_invariant(&*self);
        }
        let cap = self.buf.len();
        if self.len == cap {
            return false;
        }
        let ghost before = self@;
        let pos: usize = if self.head >= cap - self.len {
            self.head - (cap - self.len)
        } else {
            self.head + self.len
        };
        assert(pos == wrap(self.head + self.len, cap as int));
        self.buf[pos] = item;
        self.len = self.len + 1;
        assert(self@ =~= before.push(item)) by {
            assert forall|i: int| 0 <= i < before.len() implies self@[i] == before[i] by {
                assert(wrap(self.head + i, cap as int) != pos);
            }
        }
        true
    }

    /// Takes the oldest byte out of the queue, if there is one.
    pub fn pop(&mut self) -> (r: Option<u8>)
        ensures
            old(self)@.len() == 0 ==> r is None && final(self)@ == old(self)@,
            old(self)@.len() > 0 ==> r == Some(old(self)@[0]) && final(self)@
                == old(self)@.drop_first(),
            final(self).capacity() == old(self).capacity(),
    {
        proof {
            use_type_invariant(&*self);
        }
        if self.len == 0 {
            return None;
        }
        let ghost before = self@;
        let cap = self.buf.len();
        let item = self.buf[self.head];
        self.head = if self.head + 1 == cap {
            0
        } else {
            self.head + 1
        };
        self.len = self.len - 1;
        assert(self@ =~= before.drop_first()) by {
            assert forall|i: int| 0 <= i < self@.len() implies self@[i] == before[i + 1] by {}
        }
        Some(item)
    }

    /// Takes every queued byte out, oldest first, leaving the queue empty.
    pub fn drain(&mut self) -> (items: Vec<u8>)
        ensures
            items@ == old(self)@,
            final(self)@ == Seq::<u8>::empty(),
            final(self).capacity() == old(self).capacity(),
    {
        let mut items: Vec<u8> = Vec::new();
        while !self.is_empty()
            invariant
                items@ + self@ == old(self)@,
                self.capacity() == old(self).capacity(),
            decreases self@.len(),
        {
            let ghost prev = self@;
            let b = self.pop();
            match b {
                Some(x) => {
                    items.push(x);
                    assert(items@ + self@ =~= old(self)@) by {
                        assert(prev =~= seq![x] + self@);
                    }
                }
                None => {}
            }
        }
        assert(self@ =~= Seq::<u8>::empty());
        assert(items@ + self@ =~= items@);
        items
    }
}

} // verus!
