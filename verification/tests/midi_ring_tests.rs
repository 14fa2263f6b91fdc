use contrapunk::plugin_host::midi_ring::{MidiBlockEvent, MidiRing, MIDI_RING_CAPACITY};

#[test]
fn midi_ring_push_drain_roundtrip() {
    let mut r = MidiRing::new();
    r.push(MidiBlockEvent::NoteOn { note: 60, velocity: 100 });
    r.push(MidiBlockEvent::NoteOff { note: 60 });
    assert_eq!(r.len(), 2);

    let mut out = Vec::new();
    r.drain_into(&mut out);
    assert_eq!(out.len(), 2);
    assert_eq!(out[0], MidiBlockEvent::NoteOn { note: 60, velocity: 100 });
    assert_eq!(out[1], MidiBlockEvent::NoteOff { note: 60 });
    assert_eq!(r.len(), 0);
}

#[test]
fn midi_ring_overflow_drops_oldest() {
    let mut r = MidiRing::new();
    for i in 0..MIDI_RING_CAPACITY + 8 {
        r.push(MidiBlockEvent::NoteOn { note: (i % 128) as u8, velocity: 100 });
    }
    assert!(r.len() < MIDI_RING_CAPACITY);
}

#[test]
fn overflow_keeps_the_newest_events_in_order() {
    let mut r = MidiRing::new();
    let total = MIDI_RING_CAPACITY + 8;
    for i in 0..total {
        r.push(MidiBlockEvent::NoteOn { note: (i % 128) as u8, velocity: 1 });
    }
    assert_eq!(r.len(), MIDI_RING_CAPACITY - 1);
    let mut out = vec![MidiBlockEvent::AllNotesOff];
    r.drain_into(&mut out);
    assert_eq!(out.len(), MIDI_RING_CAPACITY);
    assert_eq!(out[0], MidiBlockEvent::AllNotesOff);
    for (k, ev) in out[1..].iter().enumerate() {
        let i = total - (MIDI_RING_CAPACITY - 1) + k;
        assert_eq!(*ev, MidiBlockEvent::NoteOn { note: (i % 128) as u8, velocity: 1 });
    }
}

#[test]
fn ring_is_reusable_after_draining() {
    let mut r = MidiRing::new();
    let mut out = Vec::new();
    for round in 0..3u8 {
        for n in 0..200u8 {
            r.push(MidiBlockEvent::NoteOff { note: n % 128 });
        }
        r.push(MidiBlockEvent::NoteOn { note: round, velocity: 9 });
        out.clear();
        r.drain_into(&mut out);
        assert_eq!(out.len(), 201);
        assert_eq!(out[200], MidiBlockEvent::NoteOn { note: round, velocity: 9 });
        assert_eq!(r.len(), 0);
    }
}
