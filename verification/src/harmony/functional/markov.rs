//! Indexing of the chorale transition tables (the tables themselves hold
//! probabilities and live with the application).

use vstd::prelude::*;

use crate::harmony::config::ScaleMode;

verus! {

/// Number of chord degrees.
pub const DEGREE_COUNT: usize = 7;

/// Number of beat positions.
pub const BEAT_COUNT: usize = 4;

/// Number of cadence states.
pub const CADENCE_COUNT: usize = 2;

/// Number of states: previous degree x current degree x beat x cadence.
pub const STATE_COUNT: usize = 392;

/// Flat index of a state.
pub open spec fn spec_markov_index(prev: u8, curr: u8, beat: u8, cadential: bool) -> int {
    prev * 56 + curr * 8 + (beat % 4) * 2 + if cadential { 1int } else { 0int }
}

/// Flat index of the state (previous degree, current degree, beat, cadence)
/// into a transition table.
pub fn markov_index(prev: u8, curr: u8, beat: u8, cadential: bool) -> (r: usize)
    ensures
        r == spec_markov_index(prev, curr, beat, cadential),
{
    // Strides: DEGREE_COUNT * BEAT_COUNT * CADENCE_COUNT = 56 for the previous
    // degree, BEAT_COUNT * CADENCE_COUNT = 8 for the current one.
    let cad: usize = if cadential {
        1
    } else {
        0
    };
    (prev as usize) * 56 + (curr as usize) * 8 + (beat as usize % BEAT_COUNT) * CADENCE_COUNT + cad
}

/// Index used for a lookup: each argument clamped to its range first
/// (degrees to 6, beat to 3); always within the table.
pub fn lookup_index(prev: u8, curr: u8, beat: u8, cadential: bool) -> (r: usize)
    ensures
        r == spec_markov_index(
            if prev < 6 { prev } else { 6 },
            if curr < 6 { curr } else { 6 },
            if beat < 3 { beat } else { 3 },
            cadential,
        ),
        r < STATE_COUNT,
{
    let p = if prev < 6 { prev } else { 6 };
    let c = if curr < 6 { curr } else { 6 };
    let b = if beat < 3 { beat } else { 3 };
    markov_index(p, c, b, cadential)
}

/// The degree of the next chord, clamped to the seven degrees.
pub fn next_degree_index(next: u8) -> (r: usize)
    ensures
        r == if next < 6 { next } else { 6 },
{
    if next < 6 {
        next as usize
    } else {
        6
    }
}

/// Whether a scale mode uses the minor-key transition table.
pub open spec fn spec_uses_minor_table(mode: ScaleMode) -> bool {
    match mode {
        ScaleMode::Aeolian | ScaleMode::HarmonicMinor | ScaleMode::MelodicMinor | ScaleMode::Dorian
        | ScaleMode::Phrygian | ScaleMode::Locrian | ScaleMode::LocrianNat6 | ScaleMode::DorianSharp4
        | ScaleMode::PhrygianDominant | ScaleMode::LydianSharp2 | ScaleMode::SuperLocrianDim
        | ScaleMode::DorianFlat2 | ScaleMode::MixolydianFlat6 | ScaleMode::LocrianNat2
        | ScaleMode::SuperLocrian | ScaleMode::NeapolitanMinor | ScaleMode::HungarianMinor => true,
        _ => false,
    }
}

/// Whether a scale mode uses the minor-key transition table (otherwise the
/// major-key one).
pub fn uses_minor_table(mode: ScaleMode) -> (r: bool)
    ensures
        r == spec_uses_minor_table(mode),
{
    match mode {
        ScaleMode::Aeolian | ScaleMode::HarmonicMinor | ScaleMode::MelodicMinor | ScaleMode::Dorian
        | ScaleMode::Phrygian | ScaleMode::Locrian | ScaleMode::LocrianNat6 | ScaleMode::DorianSharp4
        | ScaleMode::PhrygianDominant | ScaleMode::LydianSharp2 | ScaleMode::SuperLocrianDim
        | ScaleMode::DorianFlat2 | ScaleMode::MixolydianFlat6 | ScaleMode::LocrianNat2
        | ScaleMode::SuperLocrian | ScaleMode::NeapolitanMinor | ScaleMode::HungarianMinor => true,
        _ => false,
    }
}

} // verus!
