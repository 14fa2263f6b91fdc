//! Keys named by their tonic's pitch class, as the key detector reports
//! them. (The detector's correlation scoring itself works on
//! floating-point profiles and stays with the application.)

use vstd::prelude::*;

use super::config::Key;

verus! {

/// The key whose tonic has pitch class `s % 12`.
pub fn key_from_semitones(s: u8) -> (r: Key)
    ensures
        r.spec_semitones() == s % 12,
{
    let pc = s % 12;
    if pc == 0 {
        Key::C
    } else if pc == 1 {
        Key::Db
    } else if pc == 2 {
        Key::D
    } else if pc == 3 {
        Key::Eb
    } else if pc == 4 {
        Key::E
    } else if pc == 5 {
        Key::F
    } else if pc == 6 {
        Key::Gb
    } else if pc == 7 {
        Key::G
    } else if pc == 8 {
        Key::Ab
    } else if pc == 9 {
        Key::A
    } else if pc == 10 {
        Key::Bb
    } else {
        Key::B
    }
}

/// A key is determined by its tonic's pitch class (0-11), so naming the
/// key of a key's own pitch class gives that key back.
pub proof fn lemma_key_semitones_inverse(k: Key)
    ensures
        k.spec_semitones() < 12,
        forall|r: Key| r.spec_semitones() == k.spec_semitones() ==> r == k,
{
}

} // verus!
