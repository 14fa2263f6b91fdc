//! Diatonic seventh chords of a scale, built by stacking thirds.

use vstd::prelude::*;

use crate::harmony::config::{intervals_well_formed, ScaleMode};

verus! {

/// Pitch class of chord tone `k` (0 = root, 1 = third, 2 = fifth,
/// 3 = seventh) of the chord on degree `d`: the scale degree `d + 2k`
/// (wrapping around the scale) above the tonic.
pub open spec fn spec_chord_pc(tonic: u8, iv: Seq<u8>, d: int, k: int) -> u8 {
    ((tonic + iv[(d + 2 * k) % (iv.len() as int)]) % 12) as u8
}

/// The seven diatonic seventh chords of a key and the leading tone.
pub struct ChordTable {
    /// Pitch classes `[root, third, fifth, seventh]` of the chord on each degree.
    pub chord_pcs: [[u8; 4]; 7],
    /// Pitch class of the leading tone (a semitone below the tonic).
    pub leading_tone_pc: u8,
}

/// Pitch class of tone `k` of the chord on degree `d`.
fn chord_pc(tonic: u8, iv: &[u8], d: usize, k: usize) -> (r: u8)
    requires
        intervals_well_formed(iv@),
        d < 7,
        k < 4,
    ensures
        r == spec_chord_pc(tonic, iv@, d as int, k as int),
        r < 12,
{
    let idx = (d + 2 * k) % iv.len();
    ((tonic as u16 + iv[idx] as u16) % 12) as u8
}

/// The chord on degree `d`.
fn chord_row(tonic: u8, iv: &[u8], d: usize) -> (r: [u8; 4])
    requires
        intervals_well_formed(iv@),
        d < 7,
    ensures
        forall|k: int| 0 <= k < 4 ==> #[trigger] r@[k] == spec_chord_pc(tonic, iv@, d as int, k),
{
    let r = [chord_pc(tonic, iv, d, 0), chord_pc(tonic, iv, d, 1), chord_pc(tonic, iv, d, 2), chord_pc(tonic, iv, d, 3)];
    assert forall|k: int| 0 <= k < 4 implies #[trigger] r@[k] == spec_chord_pc(tonic, iv@, d as int, k) by {
        if k == 0 {
        } else if k == 1 {
        } else if k == 2 {
        } else {
        }
    }
    r
}

impl ChordTable {
    /// Builds the chord table of the scale `mode` on `tonic`.
    pub fn build(tonic: u8, mode: ScaleMode) -> (r: ChordTable)
        ensures
            forall|d: int, k: int|
                0 <= d < 7 && 0 <= k < 4 ==> #[trigger] r.chord_pcs@[d]@[k] == spec_chord_pc(
                    tonic,
                    mode.spec_intervals(),
                    d,
                    k,
                ),
            r.leading_tone_pc == (tonic + 11) % 12,
    {
        let iv = mode.intervals();
        let rows = [
            chord_row(tonic, iv, 0),
            chord_row(tonic, iv, 1),
            chord_row(tonic, iv, 2),
            chord_row(tonic, iv, 3),
            chord_row(tonic, iv, 4),
            chord_row(tonic, iv, 5),
            chord_row(tonic, iv, 6),
        ];
        let lt = ((tonic as u16 + 11) % 12) as u8;
        let r = ChordTable { chord_pcs: rows, leading_tone_pc: lt };
        assert forall|d: int, k: int| 0 <= d < 7 && 0 <= k < 4 implies #[trigger] r.chord_pcs@[d]@[k]
            == spec_chord_pc(tonic, mode.spec_intervals(), d, k) by {
            if d == 0 {
            } else if d == 1 {
            } else if d == 2 {
            } else if d == 3 {
            } else if d == 4 {
            } else if d == 5 {
            } else {
            }
        }
        r
    }
}

} // verus!
