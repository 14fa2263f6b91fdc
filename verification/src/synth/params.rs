//! Runtime-tweakable synth parameters, lock-free, and the bounded event
//! queue feeding the audio thread.
//!
//! All parameters are atomics holding integers, so the audio callback can
//! read them without locks: times in milliseconds, cutoff in Hz, and linear
//! 0..1 values (sustain, resonance, gains) in parts per thousand.

use vstd::prelude::*;

use std::sync::atomic::{AtomicBool, AtomicU32, AtomicU8};
use std::sync::mpsc;
use std::sync::Arc;

verus! {

/// Oscillator waveform.
#[derive(Clone, Copy, Debug, PartialEq, Eq, Structural)]
pub enum Waveform {
    Sine,
    Saw,
    Square,
    Triangle,
}

/// The waveform stored as `v`: 1 saw, 2 square, 3 triangle, anything else sine.
pub open spec fn spec_waveform_from(v: u8) -> Waveform {
    if v == 1 {
        Waveform::Saw
    } else if v == 2 {
        Waveform::Square
    } else if v == 3 {
        Waveform::Triangle
    } else {
        Waveform::Sine
    }
}

/// The stored code of a waveform (0-3).
pub open spec fn spec_waveform_code(w: Waveform) -> u8 {
    match w {
        Waveform::Sine => 0,
        Waveform::Saw => 1,
        Waveform::Square => 2,
        Waveform::Triangle => 3,
    }
}

impl Waveform {
    /// The waveform stored as `v` (unknown codes read as sine).
    pub fn from_u8(v: u8) -> (r: Self)
        ensures
            r == spec_waveform_from(v),
    {
        if v == 1 {
            Waveform::Saw
        } else if v == 2 {
            Waveform::Square
        } else if v == 3 {
            Waveform::Triangle
        } else {
            Waveform::Sine
        }
    }

    /// The code a waveform is stored as.
    pub fn code(self) -> (r: u8)
        ensures
            r == spec_waveform_code(self),
            spec_waveform_from(r) == self,
    {
        match self {
            Waveform::Sine => 0,
            Waveform::Saw => 1,
            Waveform::Square => 2,
            Waveform::Triangle => 3,
        }
    }
}

/// MIDI-like events pushed from the router thread into the audio thread.
#[derive(Clone, Copy, Debug, PartialEq, Eq, Structural)]
pub enum SynthEvent {
    NoteOn { note: u8, velocity: u8, mix_group: u8 },
    NoteOff { note: u8, mix_group: u8 },
    AllNotesOff,
}

/// Fixed router-to-synth queue bound. Overflow is non-blocking and raises a
/// shared fault flag.
pub const SYNTH_EVENT_QUEUE_CAPACITY: usize = 1024;

/// Number of per-role mix groups.
pub const MIX_GROUP_COUNT: usize = 4;

/// Mix group meaning "all groups".
pub const MIX_GROUP_ALL: u8 = 255;

#[verifier::external_type_specification]
#[verifier::external_body]
#[verifier::reject_recursive_types(T)]
pub struct ExSyncSender<T>(mpsc::SyncSender<T>);

#[verifier::external_type_specification]
#[verifier::external_body]
#[verifier::reject_recursive_types(T)]
pub struct ExReceiver<T>(mpsc::Receiver<T>);

#[verifier::external_type_specification]
#[verifier::external_body]
pub struct ExTryRecvError(mpsc::TryRecvError);

#[verifier::external_type_specification]
#[verifier::external_body]
pub struct ExRecvError(mpsc::RecvError);

/// Creates a queue of `bound` events with `std::sync::mpsc::sync_channel`.
/// Nothing is stated of the ends: what they deliver depends on the threads
/// using them.
#[verifier::external_body]
fn bounded_queue(bound: usize) -> (r: (mpsc::SyncSender<SynthEvent>, mpsc::Receiver<SynthEvent>)) {
    mpsc::sync_channel(bound)
}

/// Why a non-blocking send did not go through; the event comes back.
#[derive(Clone, Copy, Debug, PartialEq, Eq, Structural)]
pub enum SendError {
    /// The queue is full.
    Full(SynthEvent),
    /// The receiving end is gone.
    Disconnected(SynthEvent),
}

/// Sends without blocking with `SyncSender::try_send`, its error told apart
/// by variant. Whether the send goes through depends on the queue's fill
/// level and on the receiving thread, so that is not stated; a refused
/// event is handed back, as `TrySendError` does.
#[verifier::external_body]
fn queue_try_send(tx: &mpsc::SyncSender<SynthEvent>, event: SynthEvent) -> (r: Result<(), SendError>)
    ensures
        r matches Err(SendError::Full(e)) ==> e == event,
        r matches Err(SendError::Disconnected(e)) ==> e == event,
{
    match tx.try_send(event) {
        Ok(()) => Ok(()),
        Err(mpsc::TrySendError::Full(e)) => Err(SendError::Full(e)),
        Err(mpsc::TrySendError::Disconnected(e)) => Err(SendError::Disconnected(e)),
    }
}

/// Whether a refused send raises the fault flag: only a full queue does
/// (a voice could be stranded); a disconnected queue does not.
pub fn raises_fault(e: &SendError) -> (r: bool)
    ensures
        r == (*e is Full),
{
    match e {
        SendError::Full(_) => true,
        SendError::Disconnected(_) => false,
    }
}

/// Receives without blocking with `Receiver::try_recv`; depends on the
/// sending threads, so nothing is stated.
#[verifier::external_body]
fn queue_try_recv(rx: &mpsc::Receiver<SynthEvent>) -> (r: Result<SynthEvent, mpsc::TryRecvError>) {
    rx.try_recv()
}

/// Receives, blocking, with `Receiver::recv`; depends on the sending
/// threads, so nothing is stated.
#[verifier::external_body]
fn queue_recv(rx: &mpsc::Receiver<SynthEvent>) -> (r: Result<SynthEvent, mpsc::RecvError>) {
    rx.recv()
}

/// `SyncSender::clone`: another sending handle to the same queue. What it
/// delivers depends on the receiving thread, so nothing is stated.
pub assume_specification<T>[ <mpsc::SyncSender<T> as Clone>::clone ](sender: &mpsc::SyncSender<T>) -> mpsc::SyncSender<T>;

/// A second handle to the shared fault flag (`Arc::clone`): a pointer to
/// the same flag.
#[verifier::external_body]
fn share_flag(flag: &Arc<AtomicBool>) -> (r: Arc<AtomicBool>)
    ensures
        r == *flag,
{
    Arc::clone(flag)
}

/// The sending end of the synth event queue.
#[derive(Clone)]
pub struct SynthEventSender {
    tx: mpsc::SyncSender<SynthEvent>,
    fault: Arc<AtomicBool>,
}

/// The receiving end of the synth event queue.
pub struct SynthEventReceiver {
    rx: mpsc::Receiver<SynthEvent>,
    fault: Arc<AtomicBool>,
}

impl SynthEventSender {
    /// The fault flag this end raises.
    pub closed spec fn fault_handle(&self) -> Arc<AtomicBool> {
        self.fault
    }
}

impl SynthEventReceiver {
    /// The fault flag this end reads.
    pub closed spec fn fault_handle(&self) -> Arc<AtomicBool> {
        self.fault
    }
}

/// Creates the bounded event queue (capacity `SYNTH_EVENT_QUEUE_CAPACITY`)
/// with a shared fault flag, initially clear.
pub fn synth_event_channel() -> (r: (SynthEventSender, SynthEventReceiver))
    ensures
        r.0.fault_handle() == r.1.fault_handle(),
{
    let (tx, rx) = bounded_queue(SYNTH_EVENT_QUEUE_CAPACITY);
    let fault = Arc::new(AtomicBool::new(false));
    let fault2 = share_flag(&fault);
    (SynthEventSender { tx, fault: fault2 }, SynthEventReceiver { rx, fault })
}

impl SynthEventSender {
    /// Sends without blocking. A refused event comes back in the error; a
    /// full queue (see `raises_fault`) raises the fault flag so that the
    /// audio side can stop instead of stranding a voice.
    pub fn send(&self, event: SynthEvent) -> (r: Result<(), SendError>)
        ensures
            r matches Err(SendError::Full(e)) ==> e == event,
            r matches Err(SendError::Disconnected(e)) ==> e == event,
    {
        let r = queue_try_send(&self.tx, event);
        match &r {
            Ok(()) => {},
            Err(e) => {
                if raises_fault(e) {
                    self.fault.store(true, std::sync::atomic::Ordering::Release);
                }
            },
        }
        r
    }
}

impl SynthEventReceiver {
    /// Receives an event without blocking.
    pub fn try_recv(&self) -> (r: Result<SynthEvent, mpsc::TryRecvError>) {
        queue_try_recv(&self.rx)
    }

    /// Receives an event, blocking until one arrives or the senders are gone.
    pub fn recv(&self) -> (r: Result<SynthEvent, mpsc::RecvError>) {
        queue_recv(&self.rx)
    }

    /// Reads and clears the fault flag.
    pub fn take_fault(&self) -> (r: bool) {
        self.fault.swap(false, std::sync::atomic::Ordering::AcqRel)
    }

    /// A handle to the shared fault flag.
    pub fn fault_flag(&self) -> (r: Arc<AtomicBool>)
        ensures
            r == self.fault_handle(),
    {
        share_flag(&self.fault)
    }
}

/// `v` clamped to `[lo, hi]`.
pub open spec fn spec_clamp(v: u32, lo: u32, hi: u32) -> u32 {
    if v < lo {
        lo
    } else if v > hi {
        hi
    } else {
        v
    }
}

/// `v` clamped to `[lo, hi]`.
pub fn clamp_u32(v: u32, lo: u32, hi: u32) -> (r: u32)
    requires
        lo <= hi,
    ensures
        r == spec_clamp(v, lo, hi),
        lo <= r <= hi,
{
    if v < lo {
        lo
    } else if v > hi {
        hi
    } else {
        v
    }
}

/// The value of `a`, kept within `[lo, hi]`.
fn load_within(a: &AtomicU32, lo: u32, hi: u32) -> (r: u32)
    requires
        lo <= hi,
    ensures
        lo <= r <= hi,
{
    clamp_u32(a.load(std::sync::atomic::Ordering::Relaxed), lo, hi)
}

/// Shared parameter store, read by the audio thread and written by the UI
/// and command threads.
pub struct SynthParams {
    waveform: AtomicU8,
    attack_ms: AtomicU32,
    decay_ms: AtomicU32,
    sustain_ppt: AtomicU32,
    release_ms: AtomicU32,
    cutoff_hz: AtomicU32,
    resonance_ppt: AtomicU32,
    master_gain_ppt: AtomicU32,
    mix_gain_ppt: [AtomicU32; 4],
    enabled: AtomicBool,
}

impl Default for SynthParams {
    /// Sine, attack 5 ms, decay 120 ms, sustain 0.7, release 250 ms,
    /// cutoff 6 kHz, resonance 0.2, master gain 0.25, mix gains 1, enabled.
    fn default() -> (r: Self) {
        SynthParams {
            waveform: AtomicU8::new(0),
            attack_ms: AtomicU32::new(5),
            decay_ms: AtomicU32::new(120),
            sustain_ppt: AtomicU32::new(700),
            release_ms: AtomicU32::new(250),
            cutoff_hz: AtomicU32::new(6000),
            resonance_ppt: AtomicU32::new(200),
            master_gain_ppt: AtomicU32::new(250),
            mix_gain_ppt: [AtomicU32::new(1000), AtomicU32::new(1000), AtomicU32::new(1000), AtomicU32::new(1000)],
            enabled: AtomicBool::new(true),
        }
    }
}

impl SynthParams {
    /// The default parameters.
    pub fn new() -> (r: Self) {
        Self::default()
    }

    /// Whether the synth is enabled.
    pub fn enabled(&self) -> (r: bool) {
        self.enabled.load(std::sync::atomic::Ordering::Relaxed)
    }

    /// The oscillator waveform (see `Waveform::from_u8`).
    pub fn waveform(&self) -> (r: Waveform) {
        Waveform::from_u8(self.waveform.load(std::sync::atomic::Ordering::Relaxed))
    }

    /// Attack time in milliseconds, within 1-5000: the default and every setter keep the
    /// stored value in that range, and the read keeps to it as well.
    pub fn attack_ms(&self) -> (r: u32)
        ensures
            1 <= r <= 5000,
    {
        load_within(&self.attack_ms, 1, 5000)
    }

    /// Decay time in milliseconds, within 1-5000: the default and every setter keep the
    /// stored value in that range, and the read keeps to it as well.
    pub fn decay_ms(&self) -> (r: u32)
        ensures
            1 <= r <= 5000,
    {
        load_within(&self.decay_ms, 1, 5000)
    }

    /// Sustain level in parts per thousand, within 0-1000: the default and every setter keep the
    /// stored value in that range, and the read keeps to it as well.
    pub fn sustain_ppt(&self) -> (r: u32)
        ensures
            0 <= r <= 1000,
    {
        load_within(&self.sustain_ppt, 0, 1000)
    }

    /// Release time in milliseconds, within 1-10000: the default and every setter keep the
    /// stored value in that range, and the read keeps to it as well.
    pub fn release_ms(&self) -> (r: u32)
        ensures
            1 <= r <= 10000,
    {
        load_within(&self.release_ms, 1, 10000)
    }

    /// Filter cutoff in Hz, within 20-20000: the default and every setter keep the
    /// stored value in that range, and the read keeps to it as well.
    pub fn cutoff_hz(&self) -> (r: u32)
        ensures
            20 <= r <= 20000,
    {
        load_within(&self.cutoff_hz, 20, 20000)
    }

    /// Filter resonance in parts per thousand, within 0-1000: the default and every setter keep the
    /// stored value in that range, and the read keeps to it as well.
    pub fn resonance_ppt(&self) -> (r: u32)
        ensures
            0 <= r <= 1000,
    {
        load_within(&self.resonance_ppt, 0, 1000)
    }

    /// Master gain in parts per thousand, within 0-1000: the default and every setter keep the
    /// stored value in that range, and the read keeps to it as well.
    pub fn master_gain_ppt(&self) -> (r: u32)
        ensures
            0 <= r <= 1000,
    {
        load_within(&self.master_gain_ppt, 0, 1000)
    }

    /// Gain of mix group `group` (0-3) in parts per thousand, at most
    /// 1000: the default and every setter keep the stored value in that
    /// range, and the read keeps to it as well.
    pub fn mix_gain_ppt(&self, group: usize) -> (r: u32)
        requires
            group < MIX_GROUP_COUNT,
        ensures
            r <= 1000,
    {
        load_within(&self.mix_gain_ppt[group], 0, 1000)
    }

    /// Enables or disables the synth.
    pub fn set_enabled(&self, v: bool) {
        self.enabled.store(v, std::sync::atomic::Ordering::Relaxed);
    }

    /// Sets the waveform.
    pub fn set_waveform(&self, w: Waveform) {
        self.waveform.store(w.code(), std::sync::atomic::Ordering::Relaxed);
    }

    /// Sets the attack time, clamped to 1-5000 ms.
    pub fn set_attack_ms(&self, ms: u32) {
        self.attack_ms.store(clamp_u32(ms, 1, 5000), std::sync::atomic::Ordering::Relaxed);
    }

    /// Sets the decay time, clamped to 1-5000 ms.
    pub fn set_decay_ms(&self, ms: u32) {
        self.decay_ms.store(clamp_u32(ms, 1, 5000), std::sync::atomic::Ordering::Relaxed);
    }

    /// Sets the release time, clamped to 1-10000 ms.
    pub fn set_release_ms(&self, ms: u32) {
        self.release_ms.store(clamp_u32(ms, 1, 10000), std::sync::atomic::Ordering::Relaxed);
    }

    /// Sets the filter cutoff, clamped to 20-20000 Hz.
    pub fn set_cutoff_hz(&self, hz: u32) {
        self.cutoff_hz.store(clamp_u32(hz, 20, 20000), std::sync::atomic::Ordering::Relaxed);
    }

    /// Sets the sustain level in parts per thousand (at most 1000).
    pub fn set_sustain_ppt(&self, ppt: u32) {
        self.sustain_ppt.store(clamp_u32(ppt, 0, 1000), std::sync::atomic::Ordering::Relaxed);
    }

    /// Sets the resonance in parts per thousand (at most 1000).
    pub fn set_resonance_ppt(&self, ppt: u32) {
        self.resonance_ppt.store(clamp_u32(ppt, 0, 1000), std::sync::atomic::Ordering::Relaxed);
    }

    /// Sets the master gain in parts per thousand (at most 1000).
    pub fn set_master_gain_ppt(&self, ppt: u32) {
        self.master_gain_ppt.store(clamp_u32(ppt, 0, 1000), std::sync::atomic::Ordering::Relaxed);
    }

    /// Sets the gain of mix group `group` in parts per thousand (at most
    /// 1000); groups beyond the last are ignored.
    pub fn set_mix_gain_ppt(&self, group: usize, ppt: u32) {
        if group < MIX_GROUP_COUNT {
            self.mix_gain_ppt[group].store(clamp_u32(ppt, 0, 1000), std::sync::atomic::Ordering::Relaxed);
        }
    }
}

} // verus!
