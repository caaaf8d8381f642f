//! Keyboard input as an asynchronous stream: scancodes that interrupt
//! handlers put in the event queue are drained by a task and decoded with
//! pc-keyboard's scancode set 1 decoder on a US 104-key layout.
use vstd::prelude::*;

use pc_keyboard::layouts::Us104Key;
use pc_keyboard::{DecodedKey, HandleControl, PS2Keyboard, ScancodeSet1};

use crate::event_queue::{pushed, EventQueue};
use crate::executor::{scheduled, woken};
use crate::task::{Computation, Progress, TaskId};
use crate::wake_signal::WakeSignal;

verus! {

/// pc_keyboard's PS/2 keyboard decoder for scancode set 1 on a US 104-key
/// layout. Its state (a pending multi-byte sequence, held modifiers) lives
/// inside it, out of the proofs' sight; the type's bounds on outside traits
/// keep Verus from declaring it, so it is held whole here.
#[verifier::external_body]
pub struct KeyDecoder {
    kb: PS2Keyboard<Us104Key, ScancodeSet1>,
}

/// A decoded key: a character, or the number of a key that has none.
#[derive(Clone, Copy, Debug, PartialEq, Eq, Structural)]
pub enum Key {
    Unicode(char),
    Raw(u8),
}

/// Key that a fresh decoder yields on the last of the bytes `fed`, fed to it
/// in order, if any. The decoder's state depends on those bytes alone.
pub uninterp spec fn key_of(fed: Seq<u8>) -> Option<Key>;

/// The keys a decoder that was fed `fed` yields on `bytes`, in order.
pub open spec fn keys_for(fed: Seq<u8>, bytes: Seq<u8>) -> Seq<Key>
    decreases bytes.len(),
{
    if bytes.len() == 0 {
        Seq::empty()
    } else {
        keys_for(fed, bytes.drop_last()) + match key_of(fed + bytes) {
            Some(k) => seq![k],
            None => Seq::empty(),
        }
    }
}

/// Decoding is the same whether a run of bytes comes in one batch or in two:
/// the decoder's state carries from one batch to the next.
pub proof fn lemma_keys_for_split(fed: Seq<u8>, a: Seq<u8>, b: Seq<u8>)
    ensures
        keys_for(fed, a + b) == keys_for(fed, a) + keys_for(fed + a, b),
    decreases b.len(),
{
    if b.len() == 0 {
        assert(a + b =~= a);
        assert(keys_for(fed, a) + Seq::<Key>::empty() =~= keys_for(fed, a));
    } else {
        lemma_keys_for_split(fed, a, b.drop_last());
        assert((a + b).drop_last() =~= a + b.drop_last());
        assert(fed + (a + b) =~= (fed + a) + b);
        let tail = match key_of(fed + (a + b)) {
            Some(k) => seq![k],
            None => Seq::<Key>::empty(),
        };
        assert(keys_for(fed, a) + keys_for(fed + a, b.drop_last()) + tail =~= keys_for(fed, a)
            + (keys_for(fed + a, b.drop_last()) + tail));
    }
}

/// A decoder together with the bytes fed to it since it was made.
pub struct Decoder {
    kb: KeyDecoder,
    fed: Ghost<Seq<u8>>,
}

impl Decoder {
    /// Bytes fed so far, oldest first.
    pub closed spec fn fed(&self) -> Seq<u8> {
        self.fed@
    }

    pub fn new() -> (d: Self)
        ensures
            d.fed() == Seq::<u8>::empty(),
    {
        Decoder { kb: new_decoder(), fed: Ghost(Seq::empty()) }
    }
}

/// Relies on pc_keyboard's `PS2Keyboard::new`: a decoder in its start state,
/// with Ctrl left out of the mapping of letters.
#[verifier::external_body]
fn new_decoder() -> KeyDecoder {
    KeyDecoder { kb: PS2Keyboard::new(ScancodeSet1::new(), Us104Key, HandleControl::Ignore) }
}

/// Relies on pc_keyboard's `PS2Keyboard::add_byte`, which advances the
/// scancode state machine by one byte, and `process_keyevent`, which maps a
/// whole key event to a decoded key: the result depends on the bytes fed
/// since the decoder was made. Bytes the decoder rejects give no key.
#[verifier::external_body]
fn feed(d: &mut Decoder, byte: u8) -> (r: Option<Key>)
    ensures
        final(d).fed() == old(d).fed().push(byte),
        r == key_of(old(d).fed().push(byte)),
{
    match d.kb.kb.add_byte(byte) {
        Ok(Some(ev)) => match d.kb.kb.process_keyevent(ev) {
            Some(DecodedKey::Unicode(c)) => Some(Key::Unicode(c)),
            Some(DecodedKey::RawKey(code)) => Some(Key::Raw(code as u8)),
            None => None,
        },
        _ => None,
    }
}

/// What interrupt handlers and a reader share: queued bytes, the handle in
/// the wake signal, and the executor's ready queue.
pub type Shared = (Seq<u8>, Option<TaskId>, Seq<TaskId>);

/// The keyboard handler running once on `s`: `b` offered to the queue, then
/// the wake signal fired.
pub open spec fn interrupt(s: Shared, cap: nat, live: Seq<TaskId>, b: u8) -> Shared {
    (pushed(s.0, cap, b), None, woken(s.2, live, s.1))
}

/// `s` after point `point` of a reader's poll, where the one interrupt
/// lands when `k == point`.
pub open spec fn at_point(
    k: nat,
    point: nat,
    s: Shared,
    cap: nat,
    live: Seq<TaskId>,
    b: u8,
) -> Shared {
    if k == point {
        interrupt(s, cap, live, b)
    } else {
        s
    }
}

/// A reader `id` polling a queue that starts empty, as `poll_scancodes`
/// does it (look, register, look again), while one interrupt bringing `b`
/// lands before the first look (`k == 0`), between the first look and the
/// registration (`k == 1`), between the registration and the second look
/// (`k == 2`), or after the poll (`k == 3`). Gives the bytes the reader got
/// and the shared state at the end.
pub open spec fn poll_racing_interrupt(
    k: nat,
    cap: nat,
    live: Seq<TaskId>,
    id: TaskId,
    slot: Option<TaskId>,
    ready: Seq<TaskId>,
    b: u8,
) -> (Seq<u8>, Shared) {
    let s1 = at_point(k, 0, (Seq::empty(), slot, ready), cap, live, b);
    let first = s1.0;
    let s2: Shared = (Seq::empty(), s1.1, s1.2);
    if first.len() > 0 {
        (first, if k > 0 { interrupt(s2, cap, live, b) } else { s2 })
    } else {
        let s3 = at_point(k, 1, s2, cap, live, b);
        let s4 = at_point(k, 2, (s3.0, Some(id), s3.2), cap, live, b);
        let second = s4.0;
        (second, at_point(k, 3, (Seq::empty(), s4.1, s4.2), cap, live, b))
    }
}

/// No byte that an interrupt brings while a live reader polls is lost:
/// wherever the interrupt lands, the reader gets the byte in this poll or
/// ends up in the ready queue for another. A byte that lands between the
/// first look and the registration is taken by the second look. A queue
/// with no room at all drops every byte, so `cap` is positive.
pub proof fn lemma_no_lost_wakeup(
    k: nat,
    cap: nat,
    live: Seq<TaskId>,
    id: TaskId,
    slot: Option<TaskId>,
    ready: Seq<TaskId>,
    b: u8,
)
    requires
        k <= 3,
        cap > 0,
        live.contains(id),
    ensures
        poll_racing_interrupt(k, cap, live, id, slot, ready, b).0.contains(b)
            || poll_racing_interrupt(k, cap, live, id, slot, ready, b).1.2.contains(id),
        k == 1 ==> poll_racing_interrupt(k, cap, live, id, slot, ready, b).0 == seq![b],
{
    let e = Seq::<u8>::empty();
    assert(pushed(e, cap, b) =~= seq![b]);
    assert(seq![b][0] == b);
    let s1 = at_point(k, 0, (e, slot, ready), cap, live, b);
    if k == 0 {
        assert(s1.0.contains(b));
    } else if k == 2 || k == 3 {
        let r = scheduled(ready, live, id);
        if ready.contains(id) {
            let i = choose|i: int| 0 <= i < ready.len() && ready[i] == id;
            assert(r[i] == id);
        } else {
            assert(r[ready.len() as int] == id);
        }
        assert(r.contains(id));
    }
}

/// The read side of the event queue for one reader task.
pub struct ScancodeStream {
    decoder: Decoder,
}

impl ScancodeStream {
    pub fn new() -> (s: Self)
        ensures
            s.fed() == Seq::<u8>::empty(),
    {
        ScancodeStream { decoder: Decoder::new() }
    }

    /// Bytes decoded since the stream was made, oldest first.
    pub closed spec fn fed(&self) -> Seq<u8> {
        self.decoder.fed()
    }

    /// Takes every queued scancode. When there is none, registers `id` with
    /// the signal and then looks at the queue once more, since a byte may
    /// have come in between the first look and the registration; only when
    /// that second look finds nothing is the reader left waiting.
    pub fn poll_scancodes(id: TaskId, events: &mut EventQueue, signal: &mut WakeSignal) -> (r:
        Option<Vec<u8>>)
        ensures
            old(events)@.len() > 0 ==> {
                &&& r is Some
                &&& r->0@ == old(events)@
                &&& final(signal)@ == old(signal)@
            },
            old(events)@.len() == 0 ==> {
                &&& r is None
                &&& final(signal)@ == Some(id)
            },
            final(events)@ == Seq::<u8>::empty(),
            final(events).capacity() == old(events).capacity(),
    {
        let first = events.drain();
        if first.len() > 0 {
            return Some(first);
        }
        signal.register(id);
        let second = events.drain();
        if second.len() > 0 {
            Some(second)
        } else {
            None
        }
    }

    /// Feeds `bytes` to the decoder in order and collects the keys it
    /// yields.
    pub fn decode(&mut self, bytes: &Vec<u8>) -> (keys: Vec<Key>)
        ensures
            keys@ == keys_for(old(self).fed(), bytes@),
            final(self).fed() == old(self).fed() + bytes@,
    {
        let mut keys: Vec<Key> = Vec::new();
        let mut i: usize = 0;
        while i < bytes.len()
            invariant
                i <= bytes@.len(),
                keys@ == keys_for(old(self).fed(), bytes@.take(i as int)),
                self.fed() == old(self).fed() + bytes@.take(i as int),
            decreases bytes@.len() - i,
        {
            let ghost before = keys@;
            let r = feed(&mut self.decoder, bytes[i]);
            match r {
                Some(key) => keys.push(key),
                None => {},
            }
            proof {
                let t = bytes@.take(i + 1);
                assert(t.drop_last() =~= bytes@.take(i as int));
                assert(old(self).fed() + t =~= (old(self).fed() + bytes@.take(i as int)).push(
                    bytes@[i as int],
                ));
                match r {
                    Some(k) => {
                        assert(keys@ =~= before + seq![k]);
                    },
                    None => {
                        assert(keys@ =~= before + Seq::<Key>::empty());
                    },
                }
            }
            i = i + 1;
        }
        assert(bytes@.take(i as int) =~= bytes@);
        keys
    }

    /// Next batch of decoded keys, or `None` after registering `id` for a
    /// wake-up when no scancode is queued.
    pub fn poll_next(&mut self, id: TaskId, events: &mut EventQueue, signal: &mut WakeSignal) -> (r:
        Option<Vec<Key>>)
        ensures
            old(events)@.len() > 0 ==> {
                &&& r is Some
                &&& r->0@ == keys_for(old(self).fed(), old(events)@)
                &&& final(signal)@ == old(signal)@
            },
            old(events)@.len() == 0 ==> {
                &&& r is None
                &&& final(signal)@ == Some(id)
            },
            final(self).fed() == old(self).fed() + old(events)@,
            final(events)@ == Seq::<u8>::empty(),
            final(events).capacity() == old(events).capacity(),
    {
        match Self::poll_scancodes(id, events, signal) {
            Some(bytes) => Some(self.decode(&bytes)),
            None => None,
        }
    }
}

/// A task that reads the keyboard forever, keeping the decoded keys until
/// they are taken.
pub struct KeyboardTask {
    stream: ScancodeStream,
    keys: Vec<Key>,
}

impl KeyboardTask {
    pub fn new() -> (t: Self)
        ensures
            t.keys().len() == 0,
            t.fed() == Seq::<u8>::empty(),
    {
        KeyboardTask { stream: ScancodeStream::new(), keys: Vec::new() }
    }

    /// Keys decoded and not yet taken, oldest first.
    pub closed spec fn keys(&self) -> Seq<Key> {
        self.keys@
    }

    /// Bytes the task has decoded since it was made, oldest first.
    pub closed spec fn fed(&self) -> Seq<u8> {
        self.stream.fed()
    }

    /// Hands out the keys decoded so far and forgets them.
    pub fn take_keys(&mut self) -> (keys: Vec<Key>)
        ensures
            keys@ == old(self).keys(),
            final(self).keys().len() == 0,
            final(self).fed() == old(self).fed(),
    {
        let keys = self.keys.split_off(0);
        keys
    }
}

impl KeyboardTask {
    /// Consumes every queued scancode, appending the decoded keys, and ends
    /// waiting with `id` registered: the stream never ends.
    pub fn consume(&mut self, id: TaskId, events: &mut EventQueue, signal: &mut WakeSignal) -> (p:
        Progress)
        ensures
            p == Progress::Suspended,
            final(events)@ == Seq::<u8>::empty(),
            final(events).capacity() == old(events).capacity(),
            final(signal)@ == Some(id),
            final(self).keys() == old(self).keys() + keys_for(old(self).fed(), old(events)@),
            final(self).fed() == old(self).fed() + old(events)@,
    {
        let ghost n0 = old(events)@;
        loop
            invariant
                self.keys() + keys_for(self.fed(), events@) == old(self).keys() + keys_for(
                    old(self).fed(),
                    n0,
                ),
                self.fed() + events@ == old(self).fed() + n0,
                events.capacity() == old(events).capacity(),
                n0 == old(events)@,
            decreases events@.len(),
        {
            let ghost k0 = self.keys();
            let ghost f0 = self.fed();
            let ghost e0 = events@;
            match self.stream.poll_next(id, events, signal) {
                Some(batch) => {
                    let mut batch = batch;
                    self.keys.append(&mut batch);
                    assert(events@ =~= Seq::<u8>::empty());
                    assert(self.fed() + events@ =~= f0 + e0);
                    assert(self.keys() + keys_for(self.fed(), events@) =~= k0 + keys_for(f0, e0));
                },
                None => {
                    assert(e0 =~= Seq::<u8>::empty());
                    assert(self.fed() + e0 =~= self.fed());
                    assert(self.keys() + keys_for(self.fed(), e0) =~= self.keys());
                    return Progress::Suspended;
                },
            }
        }
    }
}

impl Computation for KeyboardTask {
    fn poll(&mut self, id: TaskId, events: &mut EventQueue, signal: &mut WakeSignal) -> (p:
        Progress) {
        self.consume(id, events, signal)
    }
}

} // verus!
