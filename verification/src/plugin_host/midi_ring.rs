//! Fixed-capacity ring of MIDI events queued for a plugin block between
//! audio buffers. A full ring drops its oldest event: a stuck note is
//! worse than a dropped one.

use vstd::prelude::*;

verus! {

/// How many slots the ring has; it holds at most one fewer event.
pub const MIDI_RING_CAPACITY: usize = 256;

/// A MIDI event handed to an audio block.
#[derive(Clone, Copy, Debug, PartialEq, Eq, Structural)]
pub enum MidiBlockEvent {
    NoteOn { note: u8, velocity: u8 },
    NoteOff { note: u8 },
    AllNotesOff,
    SustainPedal { down: bool },
}

/// The pending events after one push: appended, and the oldest dropped
/// when the ring was already holding its maximum.
pub open spec fn spec_push(s: Seq<MidiBlockEvent>, e: MidiBlockEvent) -> Seq<MidiBlockEvent> {
    if s.len() < MIDI_RING_CAPACITY - 1 {
        s.push(e)
    } else {
        s.drop_first().push(e)
    }
}

/// The pending events after pushing each of `evs` in order.
pub open spec fn spec_push_all(s: Seq<MidiBlockEvent>, evs: Seq<MidiBlockEvent>) -> Seq<MidiBlockEvent>
    decreases evs.len(),
{
    if evs.len() == 0 {
        s
    } else {
        spec_push(spec_push_all(s, evs.drop_last()), evs.last())
    }
}

/// Ring buffer of MIDI events: the pending events are the slots from
/// `tail` (oldest) up to, not including, `head`.
pub struct MidiRing {
    buf: Vec<MidiBlockEvent>,
    head: usize,
    tail: usize,
}

impl MidiRing {
    /// The ring has all its slots and both ends point inside it.
    pub closed spec fn wf(self) -> bool {
        &&& self.buf@.len() == MIDI_RING_CAPACITY
        &&& self.head < MIDI_RING_CAPACITY
        &&& self.tail < MIDI_RING_CAPACITY
    }

    /// Number of pending events.
    spec fn count(self) -> int {
        if self.head >= self.tail {
            self.head - self.tail
        } else {
            MIDI_RING_CAPACITY - self.tail + self.head
        }
    }

    /// The pending events, oldest first.
    pub closed spec fn pending(self) -> Seq<MidiBlockEvent> {
        Seq::new(self.count() as nat, |i: int| self.buf@[(self.tail + i) % (MIDI_RING_CAPACITY as int)])
    }
}

impl View for MidiRing {
    type V = Seq<MidiBlockEvent>;

    open spec fn view(&self) -> Seq<MidiBlockEvent> {
        self.pending()
    }
}

impl MidiRing {
    /// An empty ring.
    pub fn new() -> (r: MidiRing)
        ensures
            r.wf(),
            r@ == Seq::<MidiBlockEvent>::empty(),
    {
        let mut buf: Vec<MidiBlockEvent> = Vec::new();
        let mut i: usize = 0;
        while i < MIDI_RING_CAPACITY
            invariant
                i <= MIDI_RING_CAPACITY,
                buf@.len() == i,
            decreases MIDI_RING_CAPACITY - i,
        {
            buf.push(MidiBlockEvent::AllNotesOff);
            i = i + 1;
        }
        let r = MidiRing { buf, head: 0, tail: 0 };
        assert(r@ =~= Seq::<MidiBlockEvent>::empty());
        r
    }

    /// Number of pending events.
    pub fn len(&self) -> (r: usize)
        requires
            self.wf(),
        ensures
            r == self@.len(),
            r < MIDI_RING_CAPACITY,
    {
        if self.head >= self.tail {
            self.head - self.tail
        } else {
            MIDI_RING_CAPACITY - self.tail + self.head
        }
    }

    /// Queues one event, dropping the oldest one when the ring is full.
    pub fn push(&mut self, ev: MidiBlockEvent)
        requires
            old(self).wf(),
        ensures
            final(self).wf(),
            final(self)@ == spec_push(old(self)@, ev),
    {
        let ghost old_view = self@;
        let ghost c = self.count();
        let ghost old_tail = self.tail as int;
        assert(self.head == (old_tail + c) % 256);
        let head = self.head;
        let tail = self.tail;
        let next = (head + 1) % MIDI_RING_CAPACITY;
        if next == tail {
            self.tail = (tail + 1) % MIDI_RING_CAPACITY;
        }
        self.buf.set(head, ev);
        self.head = next;
        proof {
            let cap = 256int;
            if next == tail {
                assert(c == cap - 1);
                assert(self.count() == cap - 1);
                let expected = old_view.drop_first().push(ev);
                assert forall|i: int| 0 <= i < cap - 1 implies #[trigger] self@[i] == expected[i] by {
                    let p = (self.tail + i) % cap;
                    assert(p == (old_tail + 1 + i) % cap);
                    if i < cap - 2 {
                        assert(p != head);
                        assert(old_view[i + 1] == old(self).buf@[(old_tail + (i + 1)) % cap]);
                    } else {
                        assert(p == head);
                    }
                }
                assert(self@ =~= expected);
            } else {
                assert(c < cap - 1);
                assert(self.count() == c + 1);
                let expected = old_view.push(ev);
                assert forall|i: int| 0 <= i < c + 1 implies #[trigger] self@[i] == expected[i] by {
                    let p = (old_tail + i) % cap;
                    if i < c {
                        assert(p != head);
                    } else {
                        assert(p == head);
                    }
                }
                assert(self@ =~= expected);
            }
        }
    }

    /// Moves every pending event, oldest first, to the end of `out`.
    pub fn drain_into(&mut self, out: &mut Vec<MidiBlockEvent>)
        requires
            old(self).wf(),
        ensures
            final(self).wf(),
            final(out)@ == old(out)@ + old(self)@,
            final(self)@ == Seq::<MidiBlockEvent>::empty(),
    {
        let ghost old_view = self@;
        let ghost old_out = out@;
        let ghost c = self.count();
        let ghost t0 = self.tail as int;
        let head = self.head;
        let mut tail = self.tail;
        let ghost mut k: int = 0;
        assert(head == (t0 + c) % 256);
        while tail != head
            invariant
                self.buf@.len() == MIDI_RING_CAPACITY,
                head == self.head,
                head < MIDI_RING_CAPACITY,
                tail < MIDI_RING_CAPACITY,
                t0 == old(self).tail,
                0 <= c < 256,
                head == (t0 + c) % 256,
                0 <= k <= c,
                tail == (t0 + k) % 256,
                old_view.len() == c,
                forall|i: int| 0 <= i < c ==> old_view[i] == #[trigger] self.buf@[(t0 + i) % 256],
                out@ == old_out + old_view.subrange(0, k),
            decreases c - k,
        {
            assert(k < c);
            out.push(self.buf[tail]);
            proof {
                assert(old_view[k] == self.buf@[(t0 + k) % 256]);
                assert(old_view.subrange(0, k + 1) =~= old_view.subrange(0, k).push(old_view[k]));
                k = k + 1;
            }
            tail = (tail + 1) % MIDI_RING_CAPACITY;
        }
        assert(k == c);
        assert(old_view.subrange(0, c) =~= old_view);
        self.tail = tail;
        assert(self@ =~= Seq::<MidiBlockEvent>::empty());
    }
}

/// Pushing events into a ring that holds `s` keeps the newest ones: all
/// of them while they fit, else the last 255 of `s` followed by the events.
pub proof fn lemma_ring_keeps_newest(s: Seq<MidiBlockEvent>, evs: Seq<MidiBlockEvent>)
    requires
        s.len() < MIDI_RING_CAPACITY,
    ensures
        ({
            let all = s + evs;
            let keep: int = if all.len() < MIDI_RING_CAPACITY { all.len() as int } else { MIDI_RING_CAPACITY - 1 };
            spec_push_all(s, evs) == all.subrange(all.len() - keep, all.len() as int)
        }),
    decreases evs.len(),
{
    let all = s + evs;
    if evs.len() == 0 {
        assert(all =~= s);
        assert(all.subrange(0, all.len() as int) =~= all);
    } else {
        let prev_evs = evs.drop_last();
        lemma_ring_keeps_newest(s, prev_evs);
        let prev_all = s + prev_evs;
        assert(prev_all =~= all.drop_last());
        let pk: int = if prev_all.len() < MIDI_RING_CAPACITY { prev_all.len() as int } else { MIDI_RING_CAPACITY - 1 };
        let prev = spec_push_all(s, prev_evs);
        assert(prev == prev_all.subrange(prev_all.len() - pk, prev_all.len() as int));
        assert(all.last() == evs.last());
        let keep: int = if all.len() < MIDI_RING_CAPACITY { all.len() as int } else { MIDI_RING_CAPACITY - 1 };
        if prev.len() < MIDI_RING_CAPACITY - 1 {
            assert(prev.push(evs.last()) =~= all.subrange(all.len() - keep, all.len() as int));
        } else {
            assert(prev.drop_first().push(evs.last()) =~= all.subrange(all.len() - keep, all.len() as int));
        }
    }
}

} // verus!
