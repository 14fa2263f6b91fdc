//! What the note-suggestion scorer reads of the musical context, and
//! guitar fretboard positions of MIDI notes. (The scorer's terms are
//! floating point and stay with the application.)

use vstd::prelude::*;

verus! {

/// Open-string pitches of a guitar in standard tuning (E2 A2 D3 G3 B3 E4),
/// from the lowest string to the highest.
pub const STANDARD_TUNING: [u8; 6] = [40, 45, 50, 55, 59, 64];

/// Highest fret considered playable.
pub const MAX_FRET: u8 = 24;

/// The open-string pitch of string `s` (0-5).
pub open spec fn spec_open_string(s: int) -> int {
    if s == 0 {
        40
    } else if s == 1 {
        45
    } else if s == 2 {
        50
    } else if s == 3 {
        55
    } else if s == 4 {
        59
    } else {
        64
    }
}

/// The (string, fret) positions of `note` on the first `k` strings, in
/// string order: a string holds the note when it lies 0 to 24 semitones
/// above the open string.
pub open spec fn spec_positions(note: u8, k: int) -> Seq<(u8, u8)>
    decreases k,
{
    if k <= 0 {
        Seq::empty()
    } else {
        let prev = spec_positions(note, k - 1);
        let fret = note - spec_open_string(k - 1);
        if 0 <= fret <= MAX_FRET {
            prev.push(((k - 1) as u8, fret as u8))
        } else {
            prev
        }
    }
}

/// Every valid (string, fret) position for a MIDI note, by string.
pub fn midi_to_positions(note: u8) -> (r: Vec<(u8, u8)>)
    ensures
        r@ == spec_positions(note, 6),
{
    let tuning = STANDARD_TUNING;
    let mut positions: Vec<(u8, u8)> = Vec::new();
    let mut s: usize = 0;
    while s < 6
        invariant
            s <= 6,
            tuning@ == seq![40u8, 45u8, 50u8, 55u8, 59u8, 64u8],
            positions@ == spec_positions(note, s as int),
        decreases 6 - s,
    {
        let open = tuning[s];
        assert(open == spec_open_string(s as int));
        if note >= open && note - open <= MAX_FRET {
            positions.push((s as u8, note - open));
        }
        s = s + 1;
    }
    positions
}

/// The harmonic context a note suggestion is scored in: the last notes
/// played (oldest first), the current and predicted chords as pitch-class
/// masks (bit `pc` set for each pitch class), the scale as a mask, and the
/// key. The confidence of the chord prediction is a float and travels
/// beside it.
#[derive(Clone, Copy, Debug)]
pub struct SuggestionSnapshot {
    pub recent_notes: [u8; 8],
    pub recent_count: u8,
    pub current_chord_root: u8,
    pub current_chord_quality: u8,
    pub chord_pc_mask: u16,
    pub next_chord_root: u8,
    pub next_chord_pc_mask: u16,
    pub scale_mask: u16,
    pub key_root: u8,
    pub last_note_on_time_ms: u32,
}

impl Default for SuggestionSnapshot {
    /// No notes, every mask empty, everything zero.
    fn default() -> (r: Self)
        ensures
            r.recent_count == 0,
            r.recent_notes@ == seq![0u8, 0u8, 0u8, 0u8, 0u8, 0u8, 0u8, 0u8],
            r.chord_pc_mask == 0,
            r.next_chord_pc_mask == 0,
            r.scale_mask == 0,
            r.current_chord_root == 0 && r.current_chord_quality == 0 && r.next_chord_root == 0,
            r.key_root == 0 && r.last_note_on_time_ms == 0,
    {
        let r = SuggestionSnapshot {
            recent_notes: [0u8; 8],
            recent_count: 0,
            current_chord_root: 0,
            current_chord_quality: 0,
            chord_pc_mask: 0,
            next_chord_root: 0,
            next_chord_pc_mask: 0,
            scale_mask: 0,
            key_root: 0,
            last_note_on_time_ms: 0,
        };
        assert(r.recent_notes@ =~= seq![0u8, 0u8, 0u8, 0u8, 0u8, 0u8, 0u8, 0u8]);
        r
    }
}

/// Whether bit `pc % 12` of a pitch-class mask is set.
pub open spec fn mask_has(mask: u16, pc: u8) -> bool {
    (mask >> ((pc % 12) as u16)) & 1u16 == 1u16
}

/// How many of the first `k` entries of `s` equal `x`.
pub open spec fn count_of(s: Seq<u8>, k: int, x: u8) -> nat
    decreases k,
{
    if k <= 0 {
        0
    } else {
        count_of(s, k - 1, x) + if s[k - 1] == x {
            1nat
        } else {
            0nat
        }
    }
}

/// Whether bit `pc % 12` of `mask` is set.
fn has_pitch_class(mask: u16, pc: u8) -> (r: bool)
    ensures
        r == mask_has(mask, pc),
{
    let b: u16 = (pc % 12) as u16;
    let r = mask & (1u16 << b) != 0;
    assert(r == ((mask >> b) & 1u16 == 1u16)) by (bit_vector)
        requires
            b < 12,
            r == (mask & (1u16 << b) != 0),
    ;
    r
}

impl SuggestionSnapshot {
    /// The snapshot holds at most eight recent notes.
    pub open spec fn wf(self) -> bool {
        self.recent_count <= 8
    }

    /// The most recent note, if any.
    pub fn last_note(&self) -> (r: Option<u8>)
        requires
            self.wf(),
        ensures
            r == if self.recent_count == 0 {
                None
            } else {
                Some(self.recent_notes@[self.recent_count - 1])
            },
    {
        if self.recent_count == 0 {
            None
        } else {
            Some(self.recent_notes[(self.recent_count - 1) as usize])
        }
    }

    /// The note before the most recent one, if any.
    pub fn prev_note(&self) -> (r: Option<u8>)
        requires
            self.wf(),
        ensures
            r == if self.recent_count < 2 {
                None
            } else {
                Some(self.recent_notes@[self.recent_count - 2])
            },
    {
        if self.recent_count < 2 {
            None
        } else {
            Some(self.recent_notes[(self.recent_count - 2) as usize])
        }
    }

    /// Whether the pitch class of `pc` belongs to the scale.
    pub fn is_in_scale(&self, pc: u8) -> (r: bool)
        ensures
            r == mask_has(self.scale_mask, pc),
    {
        has_pitch_class(self.scale_mask, pc)
    }

    /// Whether the pitch class of `pc` belongs to the current chord.
    pub fn is_chord_tone(&self, pc: u8) -> (r: bool)
        ensures
            r == mask_has(self.chord_pc_mask, pc),
    {
        has_pitch_class(self.chord_pc_mask, pc)
    }

    /// How often `note` occurs among the recent notes.
    pub fn count_in_recent(&self, note: u8) -> (r: u8)
        requires
            self.wf(),
        ensures
            r == count_of(self.recent_notes@, self.recent_count as int, note),
    {
        let n = self.recent_count as usize;
        let mut c: u8 = 0;
        let mut i: usize = 0;
        while i < n
            invariant
                n == self.recent_count,
                n <= 8,
                i <= n,
                c == count_of(self.recent_notes@, i as int, note),
                c <= i,
            decreases n - i,
        {
            if self.recent_notes[i] == note {
                c = c + 1;
            }
            i = i + 1;
        }
        c
    }
}

/// The most recent note of a snapshot, if any.
pub open spec fn spec_last(snap: SuggestionSnapshot) -> Option<u8> {
    if snap.recent_count == 0 {
        None
    } else {
        Some(snap.recent_notes@[snap.recent_count - 1])
    }
}

/// The note before the most recent one, if any.
pub open spec fn spec_prev(snap: SuggestionSnapshot) -> Option<u8> {
    if snap.recent_count < 2 {
        None
    } else {
        Some(snap.recent_notes@[snap.recent_count - 2])
    }
}

/// The sign of `x` (-1, 0 or 1).
pub open spec fn sign(x: int) -> int {
    if x > 0 {
        1
    } else if x < 0 {
        -1
    } else {
        0
    }
}

/// `|x|`.
pub open spec fn abs_int(x: int) -> int {
    if x < 0 {
        -x
    } else {
        x
    }
}

/// Chord-tone affinity in thousandths: the chord root 1000, other chord
/// tones 800, other scale tones 200, the rest 0; none without a current
/// chord (root 255).
pub open spec fn spec_chord_tone_grade(c: u8, snap: SuggestionSnapshot) -> Option<u16> {
    if snap.current_chord_root == 255 {
        None
    } else if mask_has(snap.chord_pc_mask, c % 12) {
        if c % 12 == snap.current_chord_root % 12 {
            Some(1000)
        } else {
            Some(800)
        }
    } else if mask_has(snap.scale_mask, c % 12) {
        Some(200)
    } else {
        Some(0)
    }
}

/// Scale-tone affinity in thousandths: the tonic 1000, other scale tones
/// 700, chromatic neighbours of a scale tone 300, the rest 0.
pub open spec fn spec_scale_tone_grade(c: u8, snap: SuggestionSnapshot) -> u16 {
    let pc = c % 12;
    if mask_has(snap.scale_mask, pc) {
        if pc == snap.key_root {
            1000
        } else {
            700
        }
    } else if mask_has(snap.scale_mask, ((pc + 1) % 12) as u8) || mask_has(snap.scale_mask, ((pc + 11) % 12) as u8) {
        300
    } else {
        0
    }
}

/// Contour grade in thousandths for moving from `last` to `c` after
/// `prev` to `last`: after a repeated note a step 750, else 400; continuing
/// the direction by step 1000, by a leap up to a fifth 500, by more 0; a
/// unison 400; reversing by step 750, by leap 250.
pub open spec fn spec_contour_grade(c: u8, last: u8, prev: u8) -> u16 {
    let dir_prev = sign(last - prev);
    let dir_cand = sign(c - last);
    let iv = abs_int(c - last);
    if dir_prev == 0 {
        if iv <= 2 {
            750
        } else {
            400
        }
    } else if dir_cand == dir_prev {
        if iv <= 2 {
            1000
        } else if iv <= 7 {
            500
        } else {
            0
        }
    } else if dir_cand == 0 {
        400
    } else if iv <= 2 {
        750
    } else {
        250
    }
}

/// Leap-recovery grade in thousandths: neutral (500) after a step or a
/// third; after a leap of a fourth or more, reversing by step 1000, by a
/// third 750, by more 500, and continuing (or repeating) 100.
pub open spec fn spec_leap_recovery_grade(c: u8, last: u8, prev: u8) -> u16 {
    let i1 = last - prev;
    let i2 = c - last;
    let reverses = (i1 > 0 && i2 < 0) || (i1 < 0 && i2 > 0);
    if abs_int(i1) <= 2 {
        500
    } else if abs_int(i1) >= 5 {
        if reverses {
            if abs_int(i2) <= 2 {
                1000
            } else if abs_int(i2) <= 4 {
                750
            } else {
                500
            }
        } else {
            100
        }
    } else {
        500
    }
}

/// Next-chord preparation factor in thousandths (the score is this times
/// the prediction's confidence): a tone of both chords 1000, the leading
/// tone of the next root 830, another tone of the next chord 500, the rest
/// 0; none without a predicted chord (root 255).
pub open spec fn spec_next_chord_prep_grade(c: u8, snap: SuggestionSnapshot) -> Option<u16> {
    let pc = c % 12;
    if snap.next_chord_root == 255 {
        None
    } else if mask_has(snap.next_chord_pc_mask, pc) && mask_has(snap.chord_pc_mask, pc) {
        Some(1000)
    } else if pc == (snap.next_chord_root + 11) % 12 {
        Some(830)
    } else if mask_has(snap.next_chord_pc_mask, pc) {
        Some(500)
    } else {
        Some(0)
    }
}

/// Tendency-tone grade in thousandths: the leading tone resolving to the
/// tonic 1000, the fourth degree falling to the third 860, a tendency tone
/// going elsewhere 0; none when the last note is no tendency tone.
pub open spec fn spec_leading_tone_grade(c: u8, last: u8, key_root: u8) -> Option<u16> {
    let last_pc = last % 12;
    let cand_pc = c % 12;
    let degree_7 = (key_root + 11) % 12;
    let degree_4 = (key_root + 5) % 12;
    let degree_3 = (key_root + 4) % 12;
    if last_pc == degree_7 && cand_pc == key_root {
        Some(1000)
    } else if last_pc == degree_4 && cand_pc == degree_3 {
        Some(860)
    } else if last_pc == degree_7 || last_pc == degree_4 {
        Some(0)
    } else {
        None
    }
}

/// Registral-direction factor of the implication-realization model in
/// thousandths: after a leap of a fifth or more, reversing 1000,
/// continuing 250, repeating 500; after at most a fourth, continuing 750,
/// otherwise 500; after a tritone 500.
pub open spec fn spec_narmour_direction_grade(c: u8, last: u8, prev: u8) -> u16 {
    let i1 = last - prev;
    let i2 = c - last;
    let same_dir = (i1 > 0 && i2 > 0) || (i1 < 0 && i2 < 0);
    let reverses = (i1 > 0 && i2 < 0) || (i1 < 0 && i2 > 0);
    if abs_int(i1) >= 7 {
        if reverses {
            1000
        } else if same_dir {
            250
        } else {
            500
        }
    } else if abs_int(i1) <= 5 {
        if same_dir {
            750
        } else {
            500
        }
    } else {
        500
    }
}

/// Consonance with the chord root in thousandths: unison and fifth 1000,
/// thirds and sixths 800, seconds, fourth and minor seventh 500, the
/// sharpest dissonances 125; none without a current chord (root 255).
pub open spec fn spec_dissonance_grade(c: u8, chord_root: u8) -> Option<u16> {
    if chord_root == 255 {
        None
    } else {
        let ic = ((c % 12) - (chord_root % 12) + 12) % 12;
        if ic == 0 || ic == 7 {
            Some(1000)
        } else if ic == 3 || ic == 4 || ic == 8 || ic == 9 {
            Some(800)
        } else if ic == 2 || ic == 5 || ic == 10 {
            Some(500)
        } else {
            Some(125)
        }
    }
}

/// Sign of a small signed number.
fn sign_i16(x: i16) -> (r: i16)
    ensures
        r == sign(x as int),
{
    if x > 0 {
        1
    } else if x < 0 {
        -1
    } else {
        0
    }
}

/// Absolute value of a small signed number.
fn abs_i16(x: i16) -> (r: i16)
    requires
        x > i16::MIN,
    ensures
        r == abs_int(x as int),
{
    if x < 0 {
        -x
    } else {
        x
    }
}

impl SuggestionSnapshot {
    /// Chord-tone affinity of a candidate note, in thousandths.
    pub fn chord_tone_grade(&self, candidate: u8) -> (r: Option<u16>)
        ensures
            r == spec_chord_tone_grade(candidate, *self),
    {
        if self.current_chord_root == 255 {
            return None;
        }
        let pc = candidate % 12;
        if self.is_chord_tone(pc) {
            if pc == self.current_chord_root % 12 {
                Some(1000)
            } else {
                Some(800)
            }
        } else if self.is_in_scale(pc) {
            Some(200)
        } else {
            Some(0)
        }
    }

    /// Scale-tone affinity of a candidate note, in thousandths.
    pub fn scale_tone_grade(&self, candidate: u8) -> (r: u16)
        ensures
            r == spec_scale_tone_grade(candidate, *self),
    {
        let pc = candidate % 12;
        if self.is_in_scale(pc) {
            if pc == self.key_root {
                1000
            } else {
                700
            }
        } else {
            let above = (pc + 1) % 12;
            let below = (pc + 11) % 12;
            if self.is_in_scale(above) || self.is_in_scale(below) {
                300
            } else {
                0
            }
        }
    }

    /// Contour grade of a candidate after the last two notes, in
    /// thousandths; none with fewer than two notes.
    pub fn contour_grade(&self, candidate: u8) -> (r: Option<u16>)
        requires
            self.wf(),
        ensures
            r == match (spec_last(*self), spec_prev(*self)) {
                (Some(last), Some(prev)) => Some(spec_contour_grade(candidate, last, prev)),
                _ => None,
            },
    {
        let last = match self.last_note() {
            Some(n) => n,
            None => return None,
        };
        let prev = match self.prev_note() {
            Some(n) => n,
            None => return None,
        };
        let dir_prev = sign_i16(last as i16 - prev as i16);
        let dir_cand = sign_i16(candidate as i16 - last as i16);
        let iv = abs_i16(candidate as i16 - last as i16);
        let g: u16 = if dir_prev == 0 {
            if iv <= 2 {
                750
            } else {
                400
            }
        } else if dir_cand == dir_prev {
            if iv <= 2 {
                1000
            } else if iv <= 7 {
                500
            } else {
                0
            }
        } else if dir_cand == 0 {
            400
        } else if iv <= 2 {
            750
        } else {
            250
        };
        Some(g)
    }

    /// Leap-recovery grade of a candidate after the last two notes, in
    /// thousandths; none with fewer than two notes.
    pub fn leap_recovery_grade(&self, candidate: u8) -> (r: Option<u16>)
        requires
            self.wf(),
        ensures
            r == match (spec_last(*self), spec_prev(*self)) {
                (Some(last), Some(prev)) => Some(spec_leap_recovery_grade(candidate, last, prev)),
                _ => None,
            },
    {
        let last = match self.last_note() {
            Some(n) => n,
            None => return None,
        };
        let prev = match self.prev_note() {
            Some(n) => n,
            None => return None,
        };
        let i1 = last as i16 - prev as i16;
        let i2 = candidate as i16 - last as i16;
        let a1 = abs_i16(i1);
        let a2 = abs_i16(i2);
        if a1 <= 2 {
            return Some(500);
        }
        let reverses = (i1 > 0 && i2 < 0) || (i1 < 0 && i2 > 0);
        let g: u16 = if a1 >= 5 {
            if reverses {
                if a2 <= 2 {
                    1000
                } else if a2 <= 4 {
                    750
                } else {
                    500
                }
            } else {
                100
            }
        } else {
            500
        };
        Some(g)
    }

    /// Next-chord preparation factor of a candidate, in thousandths.
    pub fn next_chord_prep_grade(&self, candidate: u8) -> (r: Option<u16>)
        ensures
            r == spec_next_chord_prep_grade(candidate, *self),
    {
        if self.next_chord_root == 255 {
            return None;
        }
        let pc = candidate % 12;
        let is_next_ct = has_pitch_class(self.next_chord_pc_mask, pc);
        let is_curr_ct = has_pitch_class(self.chord_pc_mask, pc);
        if is_next_ct && is_curr_ct {
            Some(1000)
        } else if pc as u16 == (self.next_chord_root as u16 + 11) % 12 {
            Some(830)
        } else if is_next_ct {
            Some(500)
        } else {
            Some(0)
        }
    }

    /// Tendency-tone grade of a candidate after the last note, in
    /// thousandths.
    pub fn leading_tone_grade(&self, candidate: u8) -> (r: Option<u16>)
        requires
            self.wf(),
        ensures
            r == match spec_last(*self) {
                Some(last) => spec_leading_tone_grade(candidate, last, self.key_root),
                None => None,
            },
    {
        let last = match self.last_note() {
            Some(n) => n,
            None => return None,
        };
        let last_pc = last % 12;
        let cand_pc = candidate % 12;
        let kr = self.key_root as u16;
        let degree_7 = (kr + 11) % 12;
        let degree_4 = (kr + 5) % 12;
        let degree_3 = (kr + 4) % 12;
        if last_pc as u16 == degree_7 && cand_pc == self.key_root {
            Some(1000)
        } else if last_pc as u16 == degree_4 && cand_pc as u16 == degree_3 {
            Some(860)
        } else if last_pc as u16 == degree_7 || last_pc as u16 == degree_4 {
            Some(0)
        } else {
            None
        }
    }

    /// Registral-direction factor of a candidate after the last two notes,
    /// in thousandths; none with fewer than two notes.
    pub fn narmour_direction_grade(&self, candidate: u8) -> (r: Option<u16>)
        requires
            self.wf(),
        ensures
            r == match (spec_last(*self), spec_prev(*self)) {
                (Some(last), Some(prev)) => Some(spec_narmour_direction_grade(candidate, last, prev)),
                _ => None,
            },
    {
        let last = match self.last_note() {
            Some(n) => n,
            None => return None,
        };
        let prev = match self.prev_note() {
            Some(n) => n,
            None => return None,
        };
        let i1 = last as i16 - prev as i16;
        let i2 = candidate as i16 - last as i16;
        let a1 = abs_i16(i1);
        let same_dir = (i1 > 0 && i2 > 0) || (i1 < 0 && i2 < 0);
        let reverses = (i1 > 0 && i2 < 0) || (i1 < 0 && i2 > 0);
        let g: u16 = if a1 >= 7 {
            if reverses {
                1000
            } else if same_dir {
                250
            } else {
                500
            }
        } else if a1 <= 5 {
            if same_dir {
                750
            } else {
                500
            }
        } else {
            500
        };
        Some(g)
    }

    /// Consonance of a candidate with the current chord root, in
    /// thousandths.
    pub fn dissonance_grade(&self, candidate: u8) -> (r: Option<u16>)
        ensures
            r == spec_dissonance_grade(candidate, self.current_chord_root),
    {
        if self.current_chord_root == 255 {
            return None;
        }
        let pc = candidate % 12;
        let root = self.current_chord_root % 12;
        let ic = (pc + 12 - root) % 12;
        if ic == 0 || ic == 7 {
            Some(1000)
        } else if ic == 3 || ic == 4 || ic == 8 || ic == 9 {
            Some(800)
        } else if ic == 2 || ic == 5 || ic == 10 {
            Some(500)
        } else {
            Some(125)
        }
    }
}

} // verus!
