use contrapunk::synth::params::{clamp_u32, raises_fault, synth_event_channel, SendError, SynthEvent, SynthParams, Waveform, SYNTH_EVENT_QUEUE_CAPACITY};
use std::sync::atomic::Ordering;
use std::sync::mpsc;

#[test]
fn synth_event_channel_is_bounded_and_marks_overflow() {
    let (tx, rx) = synth_event_channel();
    for _ in 0..SYNTH_EVENT_QUEUE_CAPACITY {
        tx.send(SynthEvent::AllNotesOff).unwrap();
    }
    assert!(matches!(tx.send(SynthEvent::AllNotesOff), Err(SendError::Full(SynthEvent::AllNotesOff))));
    assert!(rx.fault_flag().load(Ordering::Acquire));
}

#[test]
fn events_arrive_in_order_and_fault_clears() {
    let (tx, rx) = synth_event_channel();
    tx.send(SynthEvent::NoteOn { note: 60, velocity: 100, mix_group: 1 }).unwrap();
    tx.send(SynthEvent::NoteOff { note: 60, mix_group: 1 }).unwrap();
    assert_eq!(rx.try_recv(), Ok(SynthEvent::NoteOn { note: 60, velocity: 100, mix_group: 1 }));
    assert_eq!(rx.recv(), Ok(SynthEvent::NoteOff { note: 60, mix_group: 1 }));
    assert_eq!(rx.try_recv(), Err(mpsc::TryRecvError::Empty));
    assert!(!rx.take_fault());
    for _ in 0..=SYNTH_EVENT_QUEUE_CAPACITY {
        let _ = tx.send(SynthEvent::AllNotesOff);
    }
    assert!(rx.take_fault());
    assert!(!rx.take_fault());
}

#[test]
fn waveform_codes_round_trip() {
    for w in [Waveform::Sine, Waveform::Saw, Waveform::Square, Waveform::Triangle] {
        assert_eq!(Waveform::from_u8(w.code()), w);
    }
    assert_eq!(Waveform::from_u8(2), Waveform::Square);
    assert_eq!(Waveform::from_u8(9), Waveform::Sine);
}

#[test]
fn clamp_bounds() {
    assert_eq!(clamp_u32(0, 1, 5000), 1);
    assert_eq!(clamp_u32(9000, 1, 5000), 5000);
    assert_eq!(clamp_u32(300, 1, 5000), 300);
}

#[test]
fn params_defaults_and_setters() {
    let p = SynthParams::new();
    assert!(p.enabled());
    assert_eq!(p.waveform(), Waveform::Sine);
    assert_eq!(p.attack_ms(), 5);
    assert_eq!(p.decay_ms(), 120);
    assert_eq!(p.sustain_ppt(), 700);
    assert_eq!(p.release_ms(), 250);
    assert_eq!(p.cutoff_hz(), 6000);
    assert_eq!(p.resonance_ppt(), 200);
    assert_eq!(p.master_gain_ppt(), 250);
    assert_eq!(p.mix_gain_ppt(3), 1000);
    p.set_waveform(Waveform::Triangle);
    p.set_attack_ms(0);
    p.set_release_ms(20000);
    p.set_cutoff_hz(5);
    p.set_sustain_ppt(1500);
    p.set_mix_gain_ppt(2, 400);
    p.set_mix_gain_ppt(7, 400);
    p.set_enabled(false);
    assert_eq!(p.waveform(), Waveform::Triangle);
    assert_eq!(p.attack_ms(), 1);
    assert_eq!(p.release_ms(), 10000);
    assert_eq!(p.cutoff_hz(), 20);
    assert_eq!(p.sustain_ppt(), 1000);
    assert_eq!(p.mix_gain_ppt(2), 400);
    assert!(!p.enabled());
}

#[test]
fn fault_flag_handle_is_the_shared_flag() {
    let (_tx, rx) = synth_event_channel();
    let flag = rx.fault_flag();
    assert!(!rx.take_fault());
    flag.store(true, Ordering::Release);
    assert!(rx.take_fault());
    assert!(!flag.load(Ordering::Acquire));
}

#[test]
fn disconnected_queue_does_not_raise_fault() {
    let (tx, rx) = synth_event_channel();
    let flag = rx.fault_flag();
    drop(rx);
    let ev = SynthEvent::NoteOff { note: 61, mix_group: 0 };
    assert_eq!(tx.send(ev), Err(SendError::Disconnected(ev)));
    assert!(!flag.load(Ordering::Acquire));
}

#[test]
fn only_full_queue_raises_fault() {
    assert!(raises_fault(&SendError::Full(SynthEvent::AllNotesOff)));
    assert!(!raises_fault(&SendError::Disconnected(SynthEvent::AllNotesOff)));
}
