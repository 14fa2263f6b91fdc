//! Stateless harmony modes: each takes an input note and a scale and returns
//! the input note followed by its harmony note, if one is in range.

use vstd::prelude::*;

use rand::Rng;

use crate::harmony::scale::{Scale, ScaleView, MIDI_MAX};

verus! {

/// The notes a stateless mode produces: the melody, then the harmony if any.
pub open spec fn spec_pair(note: u8, harmony: Option<u8>) -> Seq<u8> {
    match harmony {
        Some(h) => seq![note, h],
        None => seq![note],
    }
}

/// Result of harmonizing `note` by `degrees` on scale state `s`: the notes
/// produced and the scale state afterwards.
pub open spec fn spec_harmony_step(s: ScaleView, note: u8, degrees: int, prefer_above: bool) -> (Seq<u8>, ScaleView) {
    let (h, b) = s.smart_harmony(note, degrees, prefer_above);
    (spec_pair(note, h), s.with_borrowed(b))
}

/// A mode's output for `note`: the note itself, then at most one harmony
/// note, all within the MIDI range.
pub open spec fn is_voice_pair(r: Seq<u8>, note: u8) -> bool {
    &&& 1 <= r.len() <= 2
    &&& r[0] == note
    &&& forall|i: int| 0 <= i < r.len() ==> #[trigger] r[i] <= MIDI_MAX
}

/// Diatonic steps used by the random-below mode (2nd through 7th below).
pub open spec fn random_below_degrees() -> Seq<int> {
    seq![-1, -2, -3, -4, -5, -6]
}

/// Diatonic steps used by the consonant random-below mode (3rd through 7th below).
pub open spec fn random_below_no_seconds_degrees() -> Seq<int> {
    seq![-2, -3, -4, -5, -6]
}

/// A uniformly drawn index below `n` from the thread-local generator of the
/// `rand` crate (`thread_rng().gen_range(0..n)`). The contract states only the
/// range: the value itself depends on the generator's state.
#[verifier::external_body]
pub(crate) fn random_index(n: usize) -> (r: usize)
    requires
        n > 0,
    ensures
        r < n,
{
    rand::thread_rng().gen_range(0..n)
}

/// Harmonizes `note` by `degrees` scale steps (or a consonant chromatic
/// interval for out-of-key notes) and returns the melody followed by the
/// harmony, or just the melody if the harmony is out of range.
pub fn harmony_pair(note: u8, scale: &mut Scale, degrees: i8, prefer_above: bool) -> (r: Vec<u8>)
    requires
        note <= MIDI_MAX,
    ensures
        is_voice_pair(r@, note),
        (r@, final(scale)@) == spec_harmony_step(old(scale)@, note, degrees as int, prefer_above),
{
    match scale.harmonize_smart(note, degrees, prefer_above) {
        Some(h) => {
            let v = vec![note, h];
            assert(v@ =~= seq![note, h]);
            v
        },
        None => {
            let v = vec![note];
            assert(v@ =~= seq![note]);
            v
        },
    }
}

/// Mode 1: pass-through; the input note alone.
pub fn pass_through(note: u8, scale: &Scale) -> (r: Vec<u8>)
    requires
        note <= MIDI_MAX,
    ensures
        r@ == seq![note],
        is_voice_pair(r@, note),
{
    let v = vec![note];
    assert(v@ =~= seq![note]);
    v
}

/// Mode 2: the input note plus a diatonic third (2 degrees) above.
pub fn diatonic_thirds(note: u8, scale: &mut Scale) -> (r: Vec<u8>)
    requires
        note <= MIDI_MAX,
    ensures
        is_voice_pair(r@, note),
        (r@, final(scale)@) == spec_harmony_step(old(scale)@, note, 2, true),
{
    harmony_pair(note, scale, 2, true)
}

/// Mode 3: the input note plus a diatonic fourth (3 degrees) above.
pub fn diatonic_fourths(note: u8, scale: &mut Scale) -> (r: Vec<u8>)
    requires
        note <= MIDI_MAX,
    ensures
        is_voice_pair(r@, note),
        (r@, final(scale)@) == spec_harmony_step(old(scale)@, note, 3, true),
{
    harmony_pair(note, scale, 3, true)
}

/// Mode 4: the input note plus a random diatonic interval below
/// (2nd through 7th below).
pub fn random_below(note: u8, scale: &mut Scale) -> (r: Vec<u8>)
    requires
        note <= MIDI_MAX,
    ensures
        is_voice_pair(r@, note),
        exists|k: int|
            0 <= k < 6 && (r@, final(scale)@) == spec_harmony_step(
                old(scale)@,
                note,
                #[trigger] random_below_degrees()[k],
                false,
            ),
{
    let intervals: [i8; 6] = [-1, -2, -3, -4, -5, -6];
    let k = random_index(6);
    let r = harmony_pair(note, scale, intervals[k], false);
    assert(intervals[k as int] as int == random_below_degrees()[k as int]);
    r
}

/// Mode 5: like mode 4 but without seconds (3rd through 7th below).
pub fn random_below_no_seconds(note: u8, scale: &mut Scale) -> (r: Vec<u8>)
    requires
        note <= MIDI_MAX,
    ensures
        is_voice_pair(r@, note),
        exists|k: int|
            0 <= k < 5 && (r@, final(scale)@) == spec_harmony_step(
                old(scale)@,
                note,
                #[trigger] random_below_no_seconds_degrees()[k],
                false,
            ),
{
    let intervals: [i8; 5] = [-2, -3, -4, -5, -6];
    let k = random_index(5);
    let r = harmony_pair(note, scale, intervals[k], false);
    assert(intervals[k as int] as int == random_below_no_seconds_degrees()[k as int]);
    r
}

/// Mode 2 in a chosen direction: a third above, or a third below.
pub fn diatonic_thirds_directed(note: u8, scale: &mut Scale, above: bool) -> (r: Vec<u8>)
    requires
        note <= MIDI_MAX,
    ensures
        is_voice_pair(r@, note),
        (r@, final(scale)@) == spec_harmony_step(old(scale)@, note, if above { 2 } else { -2 }, above),
{
    harmony_pair(note, scale, if above { 2 } else { -2 }, above)
}

/// Mode 3 in a chosen direction: a fourth above, or a fourth below.
pub fn diatonic_fourths_directed(note: u8, scale: &mut Scale, above: bool) -> (r: Vec<u8>)
    requires
        note <= MIDI_MAX,
    ensures
        is_voice_pair(r@, note),
        (r@, final(scale)@) == spec_harmony_step(old(scale)@, note, if above { 3 } else { -3 }, above),
{
    harmony_pair(note, scale, if above { 3 } else { -3 }, above)
}

/// Mode 4 in a chosen direction: a random 2nd-7th above or below.
pub fn random_directed(note: u8, scale: &mut Scale, above: bool) -> (r: Vec<u8>)
    requires
        note <= MIDI_MAX,
    ensures
        is_voice_pair(r@, note),
        exists|k: int|
            0 <= k < 6 && (r@, final(scale)@) == spec_harmony_step(
                old(scale)@,
                note,
                if above { -(#[trigger] random_below_degrees()[k]) } else { random_below_degrees()[k] },
                above,
            ),
{
    let intervals: [i8; 6] = [-1, -2, -3, -4, -5, -6];
    let k = random_index(6);
    let d: i8 = if above {
        -intervals[k]
    } else {
        intervals[k]
    };
    let r = harmony_pair(note, scale, d, above);
    assert(intervals[k as int] as int == random_below_degrees()[k as int]);
    r
}

/// Mode 5 in a chosen direction: a random 3rd-7th above or below.
pub fn random_no_seconds_directed(note: u8, scale: &mut Scale, above: bool) -> (r: Vec<u8>)
    requires
        note <= MIDI_MAX,
    ensures
        is_voice_pair(r@, note),
        exists|k: int|
            0 <= k < 5 && (r@, final(scale)@) == spec_harmony_step(
                old(scale)@,
                note,
                if above {
                    -(#[trigger] random_below_no_seconds_degrees()[k])
                } else {
                    random_below_no_seconds_degrees()[k]
                },
                above,
            ),
{
    let intervals: [i8; 5] = [-2, -3, -4, -5, -6];
    let k = random_index(5);
    let d: i8 = if above {
        -intervals[k]
    } else {
        intervals[k]
    };
    let r = harmony_pair(note, scale, d, above);
    assert(intervals[k as int] as int == random_below_no_seconds_degrees()[k as int]);
    r
}

} // verus!
