//! Musical scales: scale membership, diatonic and chromatic transposition,
//! and harmonization of in-key and out-of-key notes.
//!
//! Notes are MIDI note numbers (`u8` in `0..=127`).

use vstd::prelude::*;

use crate::harmony::config::{intervals_well_formed, lemma_intervals_well_formed, ScaleMode};

verus! {

/// Highest MIDI note number.
pub const MIDI_MAX: u8 = 127;

/// Consonant chromatic intervals above, in order of preference (M3, m3, M6, m6, P5, P4).
pub open spec fn consonant_above() -> Seq<int> {
    seq![4, 3, 9, 8, 7, 5]
}

/// Consonant chromatic intervals below, in order of preference (m3, M3, m6, M6, P4, P5).
pub open spec fn consonant_below() -> Seq<int> {
    seq![-3, -4, -8, -9, -5, -7]
}

/// Parallel modes searched for modal interchange at each borrowing range (1-5).
pub open spec fn spec_borrowing_sources(range: u8) -> Seq<ScaleMode> {
    if range == 1 {
        seq![ScaleMode::Aeolian, ScaleMode::HarmonicMinor]
    } else if range == 2 {
        seq![ScaleMode::Aeolian, ScaleMode::Dorian, ScaleMode::HarmonicMinor, ScaleMode::MelodicMinor]
    } else if range == 3 {
        seq![
            ScaleMode::Aeolian,
            ScaleMode::Dorian,
            ScaleMode::Mixolydian,
            ScaleMode::Phrygian,
            ScaleMode::HarmonicMinor,
            ScaleMode::MelodicMinor,
        ]
    } else if range == 4 {
        seq![
            ScaleMode::Aeolian,
            ScaleMode::Dorian,
            ScaleMode::Mixolydian,
            ScaleMode::Phrygian,
            ScaleMode::Lydian,
            ScaleMode::HarmonicMinor,
            ScaleMode::MelodicMinor,
            ScaleMode::PhrygianDominant,
        ]
    } else {
        seq![
            ScaleMode::Aeolian,
            ScaleMode::Dorian,
            ScaleMode::Mixolydian,
            ScaleMode::Phrygian,
            ScaleMode::Lydian,
            ScaleMode::Locrian,
            ScaleMode::Ionian,
            ScaleMode::HarmonicMinor,
            ScaleMode::MelodicMinor,
            ScaleMode::PhrygianDominant,
            ScaleMode::LydianDominant,
        ]
    }
}

/// Borrowing sources by range level (1-5); each level extends the previous one.
pub fn borrowing_sources(range: u8) -> (r: &'static [ScaleMode])
    ensures
        r@ == spec_borrowing_sources(range),
{
    let r: &'static [ScaleMode] = if range == 1 {
        &[ScaleMode::Aeolian, ScaleMode::HarmonicMinor]
    } else if range == 2 {
        &[ScaleMode::Aeolian, ScaleMode::Dorian, ScaleMode::HarmonicMinor, ScaleMode::MelodicMinor]
    } else if range == 3 {
        &[
            ScaleMode::Aeolian,
            ScaleMode::Dorian,
            ScaleMode::Mixolydian,
            ScaleMode::Phrygian,
            ScaleMode::HarmonicMinor,
            ScaleMode::MelodicMinor,
        ]
    } else if range == 4 {
        &[
            ScaleMode::Aeolian,
            ScaleMode::Dorian,
            ScaleMode::Mixolydian,
            ScaleMode::Phrygian,
            ScaleMode::Lydian,
            ScaleMode::HarmonicMinor,
            ScaleMode::MelodicMinor,
            ScaleMode::PhrygianDominant,
        ]
    } else {
        &[
            ScaleMode::Aeolian,
            ScaleMode::Dorian,
            ScaleMode::Mixolydian,
            ScaleMode::Phrygian,
            ScaleMode::Lydian,
            ScaleMode::Locrian,
            ScaleMode::Ionian,
            ScaleMode::HarmonicMinor,
            ScaleMode::MelodicMinor,
            ScaleMode::PhrygianDominant,
            ScaleMode::LydianDominant,
        ]
    };
    assert(r@ =~= spec_borrowing_sources(range));
    r
}

/// Position of a note's pitch class relative to the tonic (0-11).
pub open spec fn relative_pc(tonic: u8, note: u8) -> int {
    ((note % 12) + 12 - tonic) % 12
}

/// Whether a note belongs to the scale built on `tonic` in `mode`.
#[verifier::opaque]
pub open spec fn in_scale(tonic: u8, mode: ScaleMode, note: u8) -> bool {
    exists|i: int|
        0 <= i < mode.spec_intervals().len() && mode.spec_intervals()[i] == relative_pc(tonic, note)
}

/// The scale degree of a note (meaningful when the note is in the scale).
pub open spec fn degree_index(tonic: u8, mode: ScaleMode, note: u8) -> int {
    choose|i: int|
        0 <= i < mode.spec_intervals().len() && mode.spec_intervals()[i] == relative_pc(tonic, note)
}

/// The scale degree of a note, or `None` for a chromatic note.
pub open spec fn spec_degree_of(tonic: u8, mode: ScaleMode, note: u8) -> Option<int> {
    if in_scale(tonic, mode, note) {
        Some(degree_index(tonic, mode, note))
    } else {
        None
    }
}

/// Diatonic transposition by `degrees` scale steps (octave-aware); `None` when
/// the note is chromatic or the result leaves the MIDI range.
pub open spec fn spec_transpose_diatonic(tonic: u8, mode: ScaleMode, note: u8, degrees: int) -> Option<u8> {
    if !in_scale(tonic, mode, note) {
        None
    } else {
        let iv = mode.spec_intervals();
        let len = iv.len() as int;
        let cur = degree_index(tonic, mode, note);
        let total = cur + degrees;
        let octave = total / len;
        let new_degree = total % len;
        let new_midi = note + (iv[new_degree] - iv[cur]) + 12 * octave;
        if 0 <= new_midi <= 127 {
            Some(new_midi as u8)
        } else {
            None
        }
    }
}

/// Chromatic transposition; `None` outside the MIDI range.
pub open spec fn spec_transpose_chromatic(note: u8, semitones: int) -> Option<u8> {
    if 0 <= note + semitones <= 127 {
        Some((note + semitones) as u8)
    } else {
        None
    }
}

/// First interval of `ivs` (from index `k`) whose transposition lands in range
/// and on a scale tone.
pub open spec fn first_on_scale(tonic: u8, mode: ScaleMode, note: u8, ivs: Seq<int>, k: int) -> Option<u8>
    decreases ivs.len() - k,
{
    if k < 0 || k >= ivs.len() {
        None
    } else {
        match spec_transpose_chromatic(note, ivs[k]) {
            Some(h) => if in_scale(tonic, mode, h) {
                Some(h)
            } else {
                first_on_scale(tonic, mode, note, ivs, k + 1)
            },
            None => first_on_scale(tonic, mode, note, ivs, k + 1),
        }
    }
}

/// First interval of `ivs` (from index `k`) whose transposition stays in range.
pub open spec fn first_in_range(note: u8, ivs: Seq<int>, k: int) -> Option<u8>
    decreases ivs.len() - k,
{
    if k < 0 || k >= ivs.len() {
        None
    } else {
        match spec_transpose_chromatic(note, ivs[k]) {
            Some(h) => Some(h),
            None => first_in_range(note, ivs, k + 1),
        }
    }
}

/// Consonant chromatic harmony: the first consonant interval that lands on a
/// scale tone, otherwise the first consonant interval in range.
pub open spec fn spec_harmonize_chromatic(tonic: u8, mode: ScaleMode, note: u8, prefer_above: bool) -> Option<u8> {
    let ivs = if prefer_above { consonant_above() } else { consonant_below() };
    match first_on_scale(tonic, mode, note, ivs, 0) {
        Some(h) => Some(h),
        None => first_in_range(note, ivs, 0),
    }
}

/// Modal interchange search over `sources` from index `k`: the first parallel
/// mode (other than `mode`) containing the note whose diatonic third (above or
/// below) is in range, with that third.
pub open spec fn interchange_search(
    tonic: u8,
    mode: ScaleMode,
    sources: Seq<ScaleMode>,
    note: u8,
    prefer_above: bool,
    k: int,
) -> Option<(u8, ScaleMode)>
    decreases sources.len() - k,
{
    if k < 0 || k >= sources.len() {
        None
    } else {
        let m = sources[k];
        let degrees: int = if prefer_above { 2 } else { -2 };
        if m != mode && in_scale(tonic, m, note) && spec_transpose_diatonic(tonic, m, note, degrees) is Some {
            Some((spec_transpose_diatonic(tonic, m, note, degrees)->0, m))
        } else {
            interchange_search(tonic, mode, sources, note, prefer_above, k + 1)
        }
    }
}

/// Nearest scale tone search at distance `k`, `k + 1`, ... up to 6 (lower first).
pub open spec fn snap_search(tonic: u8, mode: ScaleMode, note: u8, k: int) -> Option<u8>
    decreases 7 - k,
{
    if k < 1 || k > 6 {
        None
    } else if note >= k && in_scale(tonic, mode, (note - k) as u8) {
        Some((note - k) as u8)
    } else if note + k <= 127 && in_scale(tonic, mode, (note + k) as u8) {
        Some((note + k) as u8)
    } else {
        snap_search(tonic, mode, note, k + 1)
    }
}

/// A degree whose offset matches the note is the note's degree.
proof fn lemma_degree_found(tonic: u8, mode: ScaleMode, note: u8, i: int)
    requires
        0 <= i < mode.spec_intervals().len(),
        mode.spec_intervals()[i] == relative_pc(tonic, note),
    ensures
        spec_degree_of(tonic, mode, note) == Some(i),
{
    reveal(in_scale);
    lemma_intervals_well_formed(mode);
    let iv = mode.spec_intervals();
    let d = degree_index(tonic, mode, note);
    assert(iv[d] == relative_pc(tonic, note));
    if d < i {
        assert(iv[d] < iv[i]);
    } else if d > i {
        assert(iv[i] < iv[d]);
    }
}

/// A note matching no degree offset is chromatic.
proof fn lemma_degree_absent(tonic: u8, mode: ScaleMode, note: u8)
    requires
        forall|j: int| 0 <= j < mode.spec_intervals().len() ==> mode.spec_intervals()[j] != relative_pc(tonic, note),
    ensures
        spec_degree_of(tonic, mode, note) is None,
{
    reveal(in_scale);
}

/// The abstract state of a scale.
pub struct ScaleView {
    /// Tonic pitch class (0-11).
    pub tonic: u8,
    /// The scale mode.
    pub mode: ScaleMode,
    /// Whether modal interchange is used for out-of-key notes.
    pub interchange_enabled: bool,
    /// Borrowing range (1-5).
    pub borrowing_range: u8,
    /// The parallel mode the last interchange harmony was borrowed from.
    pub last_borrowed_from: Option<ScaleMode>,
}

impl ScaleView {
    /// Harmony for an out-of-key note: interchange (when enabled) with
    /// chromatic fallback, or plain chromatic harmony.
    pub open spec fn out_of_key_harmony(self, note: u8, prefer_above: bool) -> (Option<u8>, Option<ScaleMode>) {
        if self.interchange_enabled {
            match interchange_search(
                self.tonic,
                self.mode,
                spec_borrowing_sources(self.borrowing_range),
                note,
                prefer_above,
                0,
            ) {
                Some((h, m)) => (Some(h), Some(m)),
                None => (spec_harmonize_chromatic(self.tonic, self.mode, note, prefer_above), None),
            }
        } else {
            (spec_harmonize_chromatic(self.tonic, self.mode, note, prefer_above), self.last_borrowed_from)
        }
    }

    /// Smart harmonization: diatonic for in-key notes, out-of-key handling
    /// otherwise. Returns the harmony and the new borrowed-mode indicator.
    pub open spec fn smart_harmony(self, note: u8, degrees: int, prefer_above: bool) -> (Option<u8>, Option<ScaleMode>) {
        if in_scale(self.tonic, self.mode, note) {
            (spec_transpose_diatonic(self.tonic, self.mode, note, degrees), None)
        } else {
            self.out_of_key_harmony(note, prefer_above)
        }
    }

    /// The same scale with a new borrowed-mode indicator.
    pub open spec fn with_borrowed(self, b: Option<ScaleMode>) -> ScaleView {
        ScaleView { last_borrowed_from: b, ..self }
    }
}

/// An interchange result comes from a listed source mode other than the
/// current one that holds the note, and is that mode's diatonic harmony.
proof fn lemma_interchange_found(
    tonic: u8,
    mode: ScaleMode,
    sources: Seq<ScaleMode>,
    note: u8,
    prefer_above: bool,
    k: int,
)
    ensures
        interchange_search(tonic, mode, sources, note, prefer_above, k) matches Some((h, m)) ==> sources.contains(m)
            && m != mode && in_scale(tonic, m, note) && spec_transpose_diatonic(
            tonic,
            m,
            note,
            if prefer_above { 2 } else { -2 },
        ) == Some(h),
    decreases sources.len() - k,
{
    if 0 <= k < sources.len() {
        lemma_interchange_found(tonic, mode, sources, note, prefer_above, k + 1);
        if let Some((h, m)) = interchange_search(tonic, mode, sources, note, prefer_above, k) {
            if m == sources[k] && m != mode && in_scale(tonic, m, note) {
                assert(sources.contains(m));
            }
        }
    }
}

/// The borrowed-mode indicator after a smart harmonization: cleared by an
/// in-key note; kept when interchange is off and the note is out of key;
/// with interchange on, set to the source mode the harmony was borrowed
/// from (a listed mode other than the scale's own that holds the note), or
/// cleared when no source gives one.
pub proof fn lemma_borrowed_indicator(s: ScaleView, note: u8, degrees: int, prefer_above: bool)
    ensures
        in_scale(s.tonic, s.mode, note) ==> s.smart_harmony(note, degrees, prefer_above).1 == None::<ScaleMode>,
        !in_scale(s.tonic, s.mode, note) && !s.interchange_enabled ==> s.smart_harmony(
            note,
            degrees,
            prefer_above,
        ).1 == s.last_borrowed_from,
        !in_scale(s.tonic, s.mode, note) && s.interchange_enabled ==> match s.smart_harmony(
            note,
            degrees,
            prefer_above,
        ).1 {
            Some(m) => {
                &&& spec_borrowing_sources(s.borrowing_range).contains(m)
                &&& m != s.mode
                &&& in_scale(s.tonic, m, note)
                &&& s.smart_harmony(note, degrees, prefer_above).0 == spec_transpose_diatonic(
                    s.tonic,
                    m,
                    note,
                    if prefer_above { 2 } else { -2 },
                )
            },
            None => interchange_search(
                s.tonic,
                s.mode,
                spec_borrowing_sources(s.borrowing_range),
                note,
                prefer_above,
                0,
            ) is None,
        },
{
    lemma_interchange_found(s.tonic, s.mode, spec_borrowing_sources(s.borrowing_range), note, prefer_above, 0);
}

/// A musical scale defined by a tonic and a mode.
#[derive(Debug)]
pub struct Scale {
    tonic: u8,
    mode: ScaleMode,
    offsets: Vec<u8>,
    interchange_enabled: bool,
    borrowing_range: u8,
    last_borrowed_from: Option<ScaleMode>,
}

impl View for Scale {
    type V = ScaleView;

    closed spec fn view(&self) -> ScaleView {
        ScaleView {
            tonic: self.tonic,
            mode: self.mode,
            interchange_enabled: self.interchange_enabled,
            borrowing_range: self.borrowing_range,
            last_borrowed_from: self.last_borrowed_from,
        }
    }
}

/// Distance between two MIDI values.
pub open spec fn abs_diff(a: int, b: int) -> int {
    if a >= b {
        a - b
    } else {
        b - a
    }
}

/// The nearest realization is the nearest MIDI note of its pitch class:
/// for a pitch class and a reference note there always is one, no MIDI note
/// of that pitch class is closer to the reference, and on a tie the one in
/// the reference's own octave is chosen.
pub proof fn lemma_degree_to_midi_near_nearest(pc: int, reference: u8)
    requires
        0 <= pc < 12,
        reference <= 127,
    ensures
        spec_degree_to_midi_near(pc, reference) is Some,
        spec_degree_to_midi_near(pc, reference) matches Some(m) && m <= 127 && m % 12 == pc && forall|k: int|
            0 <= k <= 127 && #[trigger] (k % 12) == pc ==> abs_diff(m as int, reference as int) <= abs_diff(
                k,
                reference as int,
            ),
        spec_degree_to_midi_near(pc, reference) matches Some(m) && (0 <= (reference / 12) * 12 + pc <= 127
            && abs_diff((reference / 12) * 12 + pc, reference as int) == abs_diff(m as int, reference as int)
            ==> m == (reference / 12) * 12 + pc),
{
    let rf = reference as int;
    let oct = rf / 12;
    assert(0 <= rf - oct * 12 < 12) by (nonlinear_arith)
        requires
            oct == rf / 12,
            0 <= rf,
    ;
    let c0 = oct * 12 + pc;
    let c1 = (oct + 1) * 12 + pc;
    let c2 = (oct - 1) * 12 + pc;
    assert(c0 <= 127 || c2 >= 0);
    let m = spec_degree_to_midi_near(pc, reference)->0 as int;
    assert(m == c0 || m == c1 || m == c2);
    assert(m % 12 == pc) by {
        vstd::arithmetic::div_mod::lemma_fundamental_div_mod_converse_mod(m, 12, (m - pc) / 12, pc);
        if m == c0 {
            vstd::arithmetic::div_mod::lemma_fundamental_div_mod_converse_mod(m, 12, oct, pc);
        } else if m == c1 {
            vstd::arithmetic::div_mod::lemma_fundamental_div_mod_converse_mod(m, 12, oct + 1, pc);
        } else {
            vstd::arithmetic::div_mod::lemma_fundamental_div_mod_converse_mod(m, 12, oct - 1, pc);
        }
    }
    assert forall|k: int| 0 <= k <= 127 && #[trigger] (k % 12) == pc implies abs_diff(m, rf) <= abs_diff(k, rf) by {
        let q = k / 12;
        vstd::arithmetic::div_mod::lemma_fundamental_div_mod(k, 12);
        assert(k == q * 12 + pc);
        if q < oct {
            assert(q * 12 <= (oct - 1) * 12) by (nonlinear_arith)
                requires
                    q < oct,
            ;
        } else if q > oct {
            assert(q * 12 >= (oct + 1) * 12) by (nonlinear_arith)
                requires
                    q > oct,
            ;
        } else {
            assert(k == c0);
        }
    }
}

/// Closest realization of a pitch class among the same octave as `reference`,
/// one above and one below (first of equally close ones in that order).
pub open spec fn spec_degree_to_midi_near(pc: int, reference: u8) -> Option<u8> {
    let oct = reference / 12;
    let c0 = oct * 12 + pc;
    let c1 = (oct + 1) * 12 + pc;
    let c2 = (oct - 1) * 12 + pc;
    let v0 = 0 <= c0 <= 127;
    let v1 = 0 <= c1 <= 127;
    let v2 = 0 <= c2 <= 127;
    let best01: Option<int> = if v0 && v1 {
        if abs_diff(c1, reference as int) < abs_diff(c0, reference as int) { Some(c1) } else { Some(c0) }
    } else if v0 {
        Some(c0)
    } else if v1 {
        Some(c1)
    } else {
        None
    };
    let best: Option<int> = match best01 {
        Some(b) => if v2 && abs_diff(c2, reference as int) < abs_diff(b, reference as int) {
            Some(c2)
        } else {
            Some(b)
        },
        None => if v2 { Some(c2) } else { None },
    };
    match best {
        Some(b) => Some(b as u8),
        None => None,
    }
}

impl Clone for Scale {
    fn clone(&self) -> (r: Self)
        ensures
            r@ == self@,
    {
        proof {
            use_type_invariant(self);
        }
        let mut r = Scale::new(self.tonic, self.mode);
        r.set_interchange_enabled(self.interchange_enabled);
        r.set_borrowing_range(self.borrowing_range);
        proof {
            use_type_invariant(&r);
        }
        r.last_borrowed_from = self.last_borrowed_from;
        r
    }
}

impl Scale {
    #[verifier::type_invariant]
    spec fn inv(self) -> bool {
        &&& self.tonic < 12
        &&& self.offsets@ == self.mode.spec_intervals()
        &&& 1 <= self.borrowing_range <= 5
    }

    /// Creates a new scale with the given tonic (reduced mod 12) and mode.
    pub fn new(tonic: u8, mode: ScaleMode) -> (s: Self)
        ensures
            s@ == (ScaleView {
                tonic: tonic % 12,
                mode,
                interchange_enabled: false,
                borrowing_range: 3,
                last_borrowed_from: None,
            }),
    {
        let iv = mode.intervals();
        let mut offsets: Vec<u8> = Vec::new();
        let mut i: usize = 0;
        while i < iv.len()
            invariant
                i <= iv@.len(),
                offsets@ == iv@.take(i as int),
            decreases iv@.len() - i,
        {
            offsets.push(iv[i]);
            i = i + 1;
            assert(offsets@ =~= iv@.take(i as int));
        }
        assert(iv@.take(iv@.len() as int) =~= iv@);
        Scale {
            tonic: tonic % 12,
            mode,
            offsets,
            interchange_enabled: false,
            borrowing_range: 3,
            last_borrowed_from: None,
        }
    }

    /// Creates a major (Ionian) scale with the given tonic.
    pub fn major(tonic: u8) -> (s: Self)
        ensures
            s@ == (ScaleView {
                tonic: tonic % 12,
                mode: ScaleMode::Ionian,
                interchange_enabled: false,
                borrowing_range: 3,
                last_borrowed_from: None,
            }),
    {
        Self::new(tonic, ScaleMode::Ionian)
    }

    /// Number of degrees in the scale (5 to 8).
    pub fn scale_len(&self) -> (r: usize)
        ensures
            r == self@.mode.spec_intervals().len(),
            5 <= r <= 8,
    {
        proof {
            use_type_invariant(self);
            lemma_intervals_well_formed(self.mode);
        }
        self.offsets.len()
    }

    /// Tonic pitch class (0-11).
    pub fn tonic(&self) -> (r: u8)
        ensures
            r == self@.tonic,
            r < 12,
    {
        proof {
            use_type_invariant(self);
        }
        self.tonic
    }

    /// Semitone offsets of the scale degrees.
    pub fn offsets(&self) -> (r: &[u8])
        ensures
            r@ == self@.mode.spec_intervals(),
    {
        proof {
            use_type_invariant(self);
        }
        self.offsets.as_slice()
    }

    /// The scale mode.
    pub fn mode(&self) -> (r: ScaleMode)
        ensures
            r == self@.mode,
    {
        self.mode
    }

    /// The mode the last interchange harmony was borrowed from.
    pub fn last_borrowed_from(&self) -> (r: Option<ScaleMode>)
        ensures
            r == self@.last_borrowed_from,
    {
        self.last_borrowed_from
    }

    /// Whether modal interchange is enabled.
    pub fn interchange_enabled(&self) -> (r: bool)
        ensures
            r == self@.interchange_enabled,
    {
        self.interchange_enabled
    }

    /// The borrowing range (1-5).
    pub fn borrowing_range(&self) -> (r: u8)
        ensures
            r == self@.borrowing_range,
            1 <= r <= 5,
    {
        proof {
            use_type_invariant(self);
        }
        self.borrowing_range
    }

    /// Enables or disables modal interchange.
    pub fn set_interchange_enabled(&mut self, enabled: bool)
        ensures
            final(self)@ == (ScaleView { interchange_enabled: enabled, ..old(self)@ }),
    {
        proof {
            use_type_invariant(&*self);
        }
        self.interchange_enabled = enabled;
    }

    /// Sets the borrowing range, clamped to 1-5.
    pub fn set_borrowing_range(&mut self, range: u8)
        ensures
            final(self)@ == (ScaleView {
                borrowing_range: if range < 1 { 1 } else if range > 5 { 5 } else { range },
                ..old(self)@
            }),
    {
        let r = if range < 1 {
            1
        } else if range > 5 {
            5
        } else {
            range
        };
        proof {
            use_type_invariant(&*self);
        }
        self.borrowing_range = r;
    }

    /// Scale degree of a note, or `None` if the note is chromatic.
    pub fn degree_of(&self, note: u8) -> (r: Option<usize>)
        ensures
            match r {
                Some(d) => spec_degree_of(self@.tonic, self@.mode, note) == Some(d as int)
                    && d < self@.mode.spec_intervals().len(),
                None => spec_degree_of(self@.tonic, self@.mode, note) is None,
            },
    {
        proof {
            use_type_invariant(self);
        }
        let rel: u8 = (note % 12 + 12 - self.tonic) % 12;
        let mut i: usize = 0;
        while i < self.offsets.len()
            invariant
                i <= self.offsets@.len(),
                self.offsets@ == self.mode.spec_intervals(),
                rel == relative_pc(self.tonic, note),
                forall|j: int| 0 <= j < i ==> self.offsets@[j] != rel,
            decreases self.offsets@.len() - i,
        {
            if self.offsets[i] == rel {
                proof {
                    lemma_degree_found(self.tonic, self.mode, note, i as int);
                }
                return Some(i);
            }
            i = i + 1;
        }
        proof {
            lemma_degree_absent(self.tonic, self.mode, note);
        }
        None
    }

    /// Whether a note is in the scale.
    pub fn is_in_scale(&self, note: u8) -> (r: bool)
        ensures
            r == in_scale(self@.tonic, self@.mode, note),
    {
        self.degree_of(note).is_some()
    }

    /// Transposes a note by `degrees` scale degrees (diatonic transposition).
    ///
    /// Returns `None` if the note is not in the scale or the result would
    /// leave the MIDI range.
    pub fn transpose_diatonic(&self, note: u8, degrees: i8) -> (r: Option<u8>)
        requires
            note <= MIDI_MAX,
        ensures
            r == spec_transpose_diatonic(self@.tonic, self@.mode, note, degrees as int),
            r matches Some(h) ==> h <= MIDI_MAX,
    {
        proof {
            use_type_invariant(self);
            lemma_intervals_well_formed(self.mode);
        }
        let cur = match self.degree_of(note) {
            Some(d) => d,
            None => return None,
        };
        let len = self.offsets.len();
        let total: i32 = cur as i32 + degrees as i32;
        let ghost len_i = len as int;
        let mut octave: i32 = 0;
        let mut new_degree: usize = 0;
        if total >= 0 {
            let tu = total as u32;
            octave = (tu / (len as u32)) as i32;
            new_degree = (tu % (len as u32)) as usize;
            assert(octave == (total as int) / len_i && new_degree == (total as int) % len_i);
        } else {
            let t = (-total) as u32;
            let q0 = (t + len as u32 - 1) / (len as u32);
            proof {
                let x = t + len - 1;
                vstd::arithmetic::div_mod::lemma_fundamental_div_mod(x as int, len_i);
                assert(x == len_i * (x / len_i) + x % len_i);
                assert(q0 == x / len_i);
                assert(q0 * len_i <= x) by (nonlinear_arith)
                    requires
                        x == len_i * q0 + x % len_i,
                        0 <= x % len_i,
                ;
                assert(q0 * len_i >= t) by (nonlinear_arith)
                    requires
                        x == len_i * q0 + x % len_i,
                        x % len_i < len_i,
                        x == t + len_i - 1,
                ;
                assert(q0 * len_i <= t + len_i - 1);
                assert(q0 <= 200) by (nonlinear_arith)
                    requires
                        q0 * len_i <= t + len_i - 1,
                        t <= 128,
                        5 <= len_i,
                ;
            }
            octave = -(q0 as i32);
            new_degree = (q0 * (len as u32) - t) as usize;
            proof {
                assert((-(q0 as int)) * len_i == -(q0 * len_i)) by (nonlinear_arith);
                assert(total as int == (octave as int) * len_i + new_degree as int);
                vstd::arithmetic::div_mod::lemma_fundamental_div_mod_converse(
                    total as int,
                    len_i,
                    octave as int,
                    new_degree as int,
                );
            }
        }
        let cur_off = self.offsets[cur] as i32;
        let new_off = self.offsets[new_degree] as i32;
        assert(-30 <= octave <= 30) by (nonlinear_arith)
            requires
                octave == (total as int) / len_i,
                -128 <= total <= 135,
                5 <= len_i <= 8,
        ;
        let new_midi: i32 = note as i32 + (new_off - cur_off) + 12 * octave;
        if new_midi < 0 || new_midi > 127 {
            None
        } else {
            Some(new_midi as u8)
        }
    }

    /// Nearest scale note to a MIDI note (lower wins a tie); in-scale notes
    /// are returned unchanged.
    pub fn snap_to_scale(&self, note: u8) -> (r: u8)
        requires
            note <= MIDI_MAX,
        ensures
            r == if in_scale(self@.tonic, self@.mode, note) {
                note
            } else {
                match snap_search(self@.tonic, self@.mode, note, 1) {
                    Some(n) => n,
                    None => note,
                }
            },
    {
        if self.is_in_scale(note) {
            return note;
        }
        let mut offset: u8 = 1;
        while offset <= 6
            invariant
                1 <= offset <= 7,
                note <= 127,
                !in_scale(self@.tonic, self@.mode, note),
                snap_search(self@.tonic, self@.mode, note, 1) == snap_search(
                    self@.tonic,
                    self@.mode,
                    note,
                    offset as int,
                ),
            decreases 7 - offset,
        {
            if note >= offset {
                let lower = note - offset;
                if self.is_in_scale(lower) {
                    assert(snap_search(self@.tonic, self@.mode, note, offset as int) == Some(lower));
                    return lower;
                }
            }
            if note + offset <= 127 {
                let higher = note + offset;
                if self.is_in_scale(higher) {
                    assert(snap_search(self@.tonic, self@.mode, note, offset as int) == Some(higher));
                    return higher;
                }
            }
            offset = offset + 1;
        }
        note
    }

    /// Transposes a note chromatically; `None` outside the MIDI range.
    pub fn transpose_chromatic(&self, note: u8, semitones: i8) -> (r: Option<u8>)
        ensures
            r == spec_transpose_chromatic(note, semitones as int),
            r matches Some(h) ==> h <= MIDI_MAX,
    {
        let midi: i16 = note as i16 + semitones as i16;
        if 0 <= midi && midi <= 127 {
            Some(midi as u8)
        } else {
            None
        }
    }

    /// Harmonizes a note: diatonic transposition for in-key notes, modal
    /// interchange (when enabled) or a consonant chromatic interval otherwise.
    /// In-key notes clear the borrowed-mode indicator.
    pub fn harmonize_smart(&mut self, note: u8, diatonic_degrees: i8, prefer_above: bool) -> (r: Option<u8>)
        requires
            note <= MIDI_MAX,
        ensures
            r == old(self)@.smart_harmony(note, diatonic_degrees as int, prefer_above).0,
            final(self)@ == old(self)@.with_borrowed(
                old(self)@.smart_harmony(note, diatonic_degrees as int, prefer_above).1,
            ),
            r matches Some(h) ==> h <= MIDI_MAX,
    {
        proof {
            use_type_invariant(&*self);
        }
        if self.is_in_scale(note) {
            self.last_borrowed_from = None;
            self.transpose_diatonic(note, diatonic_degrees)
        } else if self.interchange_enabled {
            self.harmonize_with_interchange(note, prefer_above)
        } else {
            let r = self.harmonize_chromatic(note, prefer_above);
            proof {
                assert(self@ == old(self)@.with_borrowed(old(self)@.last_borrowed_from));
            }
            r
        }
    }

    /// Finds a harmony for an out-of-key note by borrowing from parallel modes
    /// on the same tonic, falling back to chromatic harmony.
    pub fn harmonize_with_interchange(&mut self, note: u8, prefer_above: bool) -> (r: Option<u8>)
        requires
            note <= MIDI_MAX,
        ensures
            match interchange_search(
                old(self)@.tonic,
                old(self)@.mode,
                spec_borrowing_sources(old(self)@.borrowing_range),
                note,
                prefer_above,
                0,
            ) {
                Some((h, m)) => r == Some(h) && final(self)@ == old(self)@.with_borrowed(Some(m)),
                None => r == spec_harmonize_chromatic(old(self)@.tonic, old(self)@.mode, note, prefer_above)
                    && final(self)@ == old(self)@.with_borrowed(None),
            },
            r matches Some(h) ==> h <= MIDI_MAX,
    {
        let sources = borrowing_sources(self.borrowing_range);
        let ghost tonic = self@.tonic;
        let ghost mode = self@.mode;
        let mut i: usize = 0;
        while i < sources.len()
            invariant
                i <= sources@.len(),
                self@ == old(self)@,
                tonic == self@.tonic,
                mode == self@.mode,
                note <= 127,
                sources@ == spec_borrowing_sources(self@.borrowing_range),
                interchange_search(tonic, mode, sources@, note, prefer_above, 0) == interchange_search(
                    tonic,
                    mode,
                    sources@,
                    note,
                    prefer_above,
                    i as int,
                ),
            decreases sources@.len() - i,
        {
            let borrowed_mode = sources[i];
            if borrowed_mode != self.mode {
                let borrowed_scale = Scale::new(self.tonic, borrowed_mode);
                proof {
                    use_type_invariant(&*self);
                    assert(self.tonic % 12 == self.tonic);
                }
                if borrowed_scale.is_in_scale(note) {
                    let degrees: i8 = if prefer_above {
                        2
                    } else {
                        -2
                    };
                    let t = borrowed_scale.transpose_diatonic(note, degrees);
                    if let Some(harmony) = t {
                        proof {
                            use_type_invariant(&*self);
                        }
                        self.last_borrowed_from = Some(borrowed_mode);
                        return Some(harmony);
                    }
                }
            }
            i = i + 1;
        }
        proof {
            use_type_invariant(&*self);
        }
        self.last_borrowed_from = None;
        self.harmonize_chromatic(note, prefer_above)
    }

    /// Consonant chromatic harmony for an out-of-key note, preferring
    /// intervals that land on scale tones.
    fn harmonize_chromatic(&self, note: u8, prefer_above: bool) -> (r: Option<u8>)
        ensures
            r == spec_harmonize_chromatic(self@.tonic, self@.mode, note, prefer_above),
            r matches Some(h) ==> h <= MIDI_MAX,
    {
        let intervals: [i8; 6] = if prefer_above {
            [4, 3, 9, 8, 7, 5]
        } else {
            [-3, -4, -8, -9, -5, -7]
        };
        let ghost ivs = if prefer_above {
            consonant_above()
        } else {
            consonant_below()
        };
        assert(ivs.len() == 6);
        assert(forall|k: int| 0 <= k < 6 ==> intervals@[k] as int == #[trigger] ivs[k]);
        let mut k: usize = 0;
        while k < 6
            invariant
                k <= 6,
                ivs == (if prefer_above { consonant_above() } else { consonant_below() }),
                ivs.len() == 6,
                forall|j: int| 0 <= j < 6 ==> intervals@[j] as int == #[trigger] ivs[j],
                first_on_scale(self@.tonic, self@.mode, note, ivs, 0) == first_on_scale(
                    self@.tonic,
                    self@.mode,
                    note,
                    ivs,
                    k as int,
                ),
            decreases 6 - k,
        {
            let t = self.transpose_chromatic(note, intervals[k]);
            assert(t == spec_transpose_chromatic(note, ivs[k as int]));
            if let Some(h) = t {
                if self.is_in_scale(h) {
                    assert(first_on_scale(self@.tonic, self@.mode, note, ivs, k as int) == Some(h));
                    return Some(h);
                }
            }
            k = k + 1;
        }
        let mut k: usize = 0;
        while k < 6
            invariant
                k <= 6,
                ivs == (if prefer_above { consonant_above() } else { consonant_below() }),
                ivs.len() == 6,
                forall|j: int| 0 <= j < 6 ==> intervals@[j] as int == #[trigger] ivs[j],
                first_on_scale(self@.tonic, self@.mode, note, ivs, 0) is None,
                first_in_range(note, ivs, 0) == first_in_range(note, ivs, k as int),
            decreases 6 - k,
        {
            let t = self.transpose_chromatic(note, intervals[k]);
            assert(t == spec_transpose_chromatic(note, ivs[k as int]));
            if let Some(h) = t {
                assert(first_in_range(note, ivs, k as int) == Some(h));
                return Some(h);
            }
            k = k + 1;
        }
        None
    }

    /// The MIDI realization of a scale degree (wrapped by the scale length)
    /// closest to `reference_midi`, among its own octave and the ones above
    /// and below; `None` if none of these is a MIDI note.
    pub fn degree_to_midi_near(&self, degree: usize, reference_midi: u8) -> (r: Option<u8>)
        ensures
            r == spec_degree_to_midi_near(
                ((self@.tonic + self@.mode.spec_intervals()[(degree as int) % (self@.mode.spec_intervals().len() as int)]) % 12) as int,
                reference_midi,
            ),
    {
        proof {
            use_type_invariant(self);
            lemma_intervals_well_formed(self.mode);
        }
        let degree = degree % self.offsets.len();
        let offset = self.offsets[degree];
        let target_pc: i16 = ((self.tonic + offset) % 12) as i16;
        let ref_octave: i16 = (reference_midi / 12) as i16;
        let reference: i16 = reference_midi as i16;
        let c0: i16 = ref_octave * 12 + target_pc;
        let c1: i16 = (ref_octave + 1) * 12 + target_pc;
        let c2: i16 = (ref_octave - 1) * 12 + target_pc;
        let v0 = 0 <= c0 && c0 <= 127;
        let v1 = 0 <= c1 && c1 <= 127;
        let v2 = 0 <= c2 && c2 <= 127;
        let d0: i16 = if c0 >= reference { c0 - reference } else { reference - c0 };
        let d1: i16 = if c1 >= reference { c1 - reference } else { reference - c1 };
        let d2: i16 = if c2 >= reference { c2 - reference } else { reference - c2 };
        let mut best: Option<i16> = None;
        let mut best_d: i16 = 0;
        if v0 {
            best = Some(c0);
            best_d = d0;
        }
        if v1 {
            if best.is_none() || d1 < best_d {
                best = Some(c1);
                best_d = d1;
            }
        }
        if v2 {
            if best.is_none() || d2 < best_d {
                best = Some(c2);
            }
        }
        match best {
            Some(b) => Some(b as u8),
            None => None,
        }
    }
}

} // verus!
