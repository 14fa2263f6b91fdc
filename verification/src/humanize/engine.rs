//! Humanization of harmony notes: random velocity variation, timing jitter,
//! swing delay and note-length extension, with the Note-Off of each note
//! delayed to match its Note-On. The swing delay itself comes from the
//! beat clock, which works on floating-point time; the application computes
//! it and hands it in.

use vstd::prelude::*;

use std::collections::HashMap;

use crate::harmony::modes::random_index;

verus! {

broadcast use vstd::std_specs::hash::group_hash_axioms;

/// The integer humanization settings.
#[derive(Clone, Copy, Debug, PartialEq, Eq, Structural)]
pub struct HumanizeSettings {
    /// Master switch.
    pub enabled: bool,
    /// Random timing jitter on/off.
    pub jitter_enabled: bool,
    /// Smallest jitter in milliseconds.
    pub jitter_min_ms: u16,
    /// Largest jitter in milliseconds.
    pub jitter_max_ms: u16,
    /// Random velocity variation on/off.
    pub velocity_enabled: bool,
    /// Largest velocity change either way.
    pub velocity_variation: u8,
    /// Random note extension on/off.
    pub duration_enabled: bool,
    /// Largest note extension in milliseconds.
    pub duration_variation_ms: u16,
    /// Swing on/off.
    pub swing_enabled: bool,
}

/// A note with its humanized velocity and timing.
#[derive(Clone, Copy, Debug, PartialEq, Eq, Structural)]
pub struct HumanizedNote {
    pub note: u8,
    pub channel: u8,
    pub velocity: u8,
    /// Delay before sending, in milliseconds.
    pub delay_ms: u16,
    /// Extension of the note's length, in milliseconds.
    pub duration_delta_ms: i16,
    pub port: usize,
    pub voice_index: u8,
    pub is_note_off: bool,
}

/// What a Note-On's humanization left for its Note-Off.
#[derive(Clone, Copy, Debug, PartialEq, Eq, Structural)]
pub struct HumanizationRecord {
    pub delay_ms: u16,
    pub velocity: u8,
    pub duration_delta_ms: i16,
}

/// Settings the random draws can be made with: a jitter range that is not
/// empty, and a note extension that fits the signed 16-bit length delta.
pub open spec fn settings_ok(s: HumanizeSettings) -> bool {
    &&& (s.enabled && s.jitter_enabled ==> s.jitter_min_ms <= s.jitter_max_ms)
    &&& (s.enabled && s.duration_enabled ==> s.duration_variation_ms <= 32767)
}

/// `v` capped at the 16-bit limit.
pub open spec fn sat16(v: int) -> int {
    if v > 65535 {
        65535
    } else {
        v
    }
}

/// `v` clamped to the velocity range 1-127.
pub open spec fn clamp_velocity(v: int) -> u8 {
    if v < 1 {
        1
    } else if v > 127 {
        127
    } else {
        v as u8
    }
}

/// Whether `r` is a possible humanized Note-On for `note` under `s` with
/// swing delay `swing_ms`: passed through unchanged when humanization is
/// off; otherwise the velocity moves by at most the variation (clamped to
/// 1-127), the delay is a jitter in its range plus the swing (capped at the
/// 16-bit limit), and the
/// length grows by up to the duration variation, each only when enabled.
pub open spec fn is_humanized_on(
    s: HumanizeSettings,
    note: u8,
    channel: u8,
    velocity: u8,
    port: usize,
    voice_index: u8,
    swing_ms: u16,
    r: HumanizedNote,
) -> bool {
    &&& r.note == note
    &&& r.channel == channel
    &&& r.port == port
    &&& r.voice_index == voice_index
    &&& !r.is_note_off
    &&& if !s.enabled {
        &&& r.velocity == velocity
        &&& r.delay_ms == 0
        &&& r.duration_delta_ms == 0
    } else {
        &&& (if s.velocity_enabled {
            exists|d: int|
                -s.velocity_variation <= d <= s.velocity_variation && r.velocity == #[trigger] clamp_velocity(
                    velocity + d,
                )
        } else {
            r.velocity == velocity
        })
        &&& ({
            let sw: int = if s.swing_enabled {
                swing_ms as int
            } else {
                0
            };
            if s.jitter_enabled {
                sat16(s.jitter_min_ms + sw) <= r.delay_ms <= sat16(s.jitter_max_ms + sw)
            } else {
                r.delay_ms == sw
            }
        })
        &&& (if s.duration_enabled {
            0 <= r.duration_delta_ms <= s.duration_variation_ms
        } else {
            r.duration_delta_ms == 0
        })
    }
}

/// A humanized Note-On keeps the note, channel, port and voice and is a
/// Note-On. With humanization off it is unchanged; with it on, the velocity
/// lies between the clamped velocity minus and plus the variation (unchanged
/// when velocity variation is off), and the length grows by 0 up to the
/// duration variation (not at all when that is off).
pub proof fn lemma_humanized_on_bounds(
    s: HumanizeSettings,
    note: u8,
    channel: u8,
    velocity: u8,
    port: usize,
    voice_index: u8,
    swing_ms: u16,
    r: HumanizedNote,
)
    requires
        is_humanized_on(s, note, channel, velocity, port, voice_index, swing_ms, r),
    ensures
        r.note == note && r.channel == channel && r.port == port && r.voice_index == voice_index,
        !r.is_note_off,
        !s.enabled ==> r.velocity == velocity && r.delay_ms == 0 && r.duration_delta_ms == 0,
        s.enabled && s.velocity_enabled ==> clamp_velocity(velocity - s.velocity_variation) <= r.velocity
            <= clamp_velocity(velocity + s.velocity_variation),
        s.enabled && !s.velocity_enabled ==> r.velocity == velocity,
        s.enabled ==> 0 <= r.duration_delta_ms <= (if s.duration_enabled { s.duration_variation_ms as int } else { 0 }),
{
    if s.enabled && s.velocity_enabled {
        let d = choose|d: int|
            -s.velocity_variation <= d <= s.velocity_variation && r.velocity == #[trigger] clamp_velocity(velocity + d);
        assert(r.velocity == clamp_velocity(velocity + d));
    }
}

/// The record a humanized Note-On leaves.
pub open spec fn record_of(n: HumanizedNote) -> HumanizationRecord {
    HumanizationRecord { delay_ms: n.delay_ms, velocity: n.velocity, duration_delta_ms: n.duration_delta_ms }
}

/// The records after a Note-On: kept only when humanization is on.
pub open spec fn records_after_on(s: HumanizeSettings, m: Map<u8, HumanizationRecord>, n: HumanizedNote) -> Map<
    u8,
    HumanizationRecord,
> {
    if s.enabled {
        m.insert(n.note, record_of(n))
    } else {
        m
    }
}

/// The Note-Off for `note`: delayed by its Note-On's delay plus its
/// extension (saturating at the 16-bit limit), or sent at once when no
/// Note-On was recorded.
pub open spec fn spec_note_off(
    m: Map<u8, HumanizationRecord>,
    note: u8,
    channel: u8,
    velocity: u8,
    port: usize,
    voice_index: u8,
) -> HumanizedNote {
    if m.contains_key(note) {
        let rec = m[note];
        let total = rec.delay_ms + rec.duration_delta_ms;
        HumanizedNote {
            note,
            channel,
            velocity,
            delay_ms: if total > 65535 { 65535 } else { total as u16 },
            duration_delta_ms: rec.duration_delta_ms,
            port,
            voice_index,
            is_note_off: true,
        }
    } else {
        HumanizedNote {
            note,
            channel,
            velocity,
            delay_ms: 0,
            duration_delta_ms: 0,
            port,
            voice_index,
            is_note_off: true,
        }
    }
}

/// Whether a Note-On can be humanized under `s`: the settings allow the
/// random draws. The swing delay `swing_ms` never prevents it: the total
/// delay saturates at the 16-bit limit.
pub fn can_humanize(s: &HumanizeSettings, swing_ms: u16) -> (r: bool)
    ensures
        r == settings_ok(*s),
{
    if !s.enabled {
        return true;
    }
    if s.jitter_enabled && s.jitter_min_ms > s.jitter_max_ms {
        return false;
    }
    if s.duration_enabled && s.duration_variation_ms > 32767 {
        return false;
    }
    true
}

/// Records of humanized notes awaiting their Note-Off, by note number.
pub struct NoteHumanizer {
    records: HashMap<u8, HumanizationRecord>,
}

impl View for NoteHumanizer {
    type V = Map<u8, HumanizationRecord>;

    closed spec fn view(&self) -> Map<u8, HumanizationRecord> {
        self.records@
    }
}

impl NoteHumanizer {
    /// Every recorded extension is non-negative.
    pub open spec fn wf(&self) -> bool {
        forall|k: u8| #[trigger] self@.contains_key(k) ==> self@[k].duration_delta_ms >= 0
    }

    /// No note is awaiting its Note-Off.
    pub fn new() -> (r: Self)
        ensures
            r.wf(),
            r@ == Map::<u8, HumanizationRecord>::empty(),
    {
        NoteHumanizer { records: HashMap::new() }
    }

    /// Humanizes a harmony Note-On; `swing_ms` is the swing delay at the
    /// current beat position.
    pub fn humanize_note_on(
        &mut self,
        s: &HumanizeSettings,
        note: u8,
        channel: u8,
        velocity: u8,
        port: usize,
        voice_index: u8,
        swing_ms: u16,
    ) -> (r: HumanizedNote)
        requires
            old(self).wf(),
            settings_ok(*s),
        ensures
            final(self).wf(),
            is_humanized_on(*s, note, channel, velocity, port, voice_index, swing_ms, r),
            final(self)@ == records_after_on(*s, old(self)@, r),
    {
        if !s.enabled {
            return HumanizedNote {
                note,
                channel,
                velocity,
                delay_ms: 0,
                duration_delta_ms: 0,
                port,
                voice_index,
                is_note_off: false,
            };
        }
        let humanized_vel: u8 = if s.velocity_enabled {
            let var: usize = s.velocity_variation as usize;
            let k = random_index(2 * var + 1);
            let v: i32 = velocity as i32 + k as i32 - var as i32;
            let c: u8 = if v < 1 {
                1
            } else if v > 127 {
                127
            } else {
                v as u8
            };
            assert(c == clamp_velocity(velocity + (k - var)));
            c
        } else {
            velocity
        };
        let jitter: u16 = if s.jitter_enabled {
            let k = random_index((s.jitter_max_ms - s.jitter_min_ms) as usize + 1);
            s.jitter_min_ms + k as u16
        } else {
            0
        };
        let swing: u16 = if s.swing_enabled {
            swing_ms
        } else {
            0
        };
        let total_delay: u16 = jitter.saturating_add(swing);
        let duration_delta_ms: i16 = if s.duration_enabled {
            let k = random_index(s.duration_variation_ms as usize + 1);
            k as i16
        } else {
            0
        };
        let r = HumanizedNote {
            note,
            channel,
            velocity: humanized_vel,
            delay_ms: total_delay,
            duration_delta_ms,
            port,
            voice_index,
            is_note_off: false,
        };
        self.records.insert(
            note,
            HumanizationRecord { delay_ms: total_delay, velocity: humanized_vel, duration_delta_ms },
        );
        assert(self@ =~= old(self)@.insert(note, record_of(r)));
        r
    }

    /// The Note-Off of a harmony note, delayed to match its Note-On; the
    /// record is forgotten.
    pub fn humanize_note_off(&mut self, note: u8, channel: u8, velocity: u8, port: usize, voice_index: u8) -> (r:
        HumanizedNote)
        requires
            old(self).wf(),
        ensures
            final(self).wf(),
            r == spec_note_off(old(self)@, note, channel, velocity, port, voice_index),
            final(self)@ == old(self)@.remove(note),
    {
        let ghost m0 = self@;
        let r = match self.records.remove(&note) {
            Some(record) => {
                assert(m0.contains_key(note) && m0[note] == record);
                let total: u32 = record.delay_ms as u32 + record.duration_delta_ms as u32;
                HumanizedNote {
                    note,
                    channel,
                    velocity,
                    delay_ms: if total > 65535 {
                        65535
                    } else {
                        total as u16
                    },
                    duration_delta_ms: record.duration_delta_ms,
                    port,
                    voice_index,
                    is_note_off: true,
                }
            },
            None => HumanizedNote {
                note,
                channel,
                velocity,
                delay_ms: 0,
                duration_delta_ms: 0,
                port,
                voice_index,
                is_note_off: true,
            },
        };
        assert(self@ =~= m0.remove(note));
        r
    }
}

/// A humanized harmony note is released after exactly its own delay plus
/// its extension (capped at the 16-bit limit): the Note-Off that follows a
/// Note-On of the same note carries the Note-On's timing, and the record is
/// then gone.
pub proof fn lemma_note_off_matches_note_on(
    s: HumanizeSettings,
    m: Map<u8, HumanizationRecord>,
    on: HumanizedNote,
    channel: u8,
    velocity: u8,
    port: usize,
    voice_index: u8,
)
    requires
        s.enabled,
        on.duration_delta_ms >= 0,
    ensures
        ({
            let off = spec_note_off(records_after_on(s, m, on), on.note, channel, velocity, port, voice_index);
            &&& off.is_note_off
            &&& off.delay_ms == if on.delay_ms + on.duration_delta_ms > 65535 {
                65535
            } else {
                on.delay_ms + on.duration_delta_ms
            }
            &&& off.duration_delta_ms == on.duration_delta_ms
            &&& records_after_on(s, m, on).remove(on.note) == m.remove(on.note)
        }),
{
    assert(records_after_on(s, m, on).remove(on.note) =~= m.remove(on.note));
}

} // verus!
