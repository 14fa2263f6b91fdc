use contrapunk::harmony::config::{HarmonyMode, Key, OctaveMode, ScaleFamily, ScaleMode};
use std::collections::HashSet;

/// All 57 scales have intervals that start at 0, are ascending, stay within
/// [0,11], contain no duplicates, and have 5-8 notes.
#[test]
fn scale_invariants() {
    for &mode in ScaleMode::all() {
        let iv = mode.intervals();
        let name = format!("{:?}", mode);
        assert!((5..=8).contains(&iv.len()), "{}: expected 5-8 notes, got {}", name, iv.len());
        assert_eq!(iv[0], 0, "{}: first interval must be 0", name);
        for i in 1..iv.len() {
            assert!(iv[i] > iv[i - 1], "{}: intervals not ascending at index {}", name, i);
            assert!(iv[i] <= 11, "{}: interval {} out of range at index {}", name, iv[i], i);
        }
        let unique: HashSet<u8> = iv.iter().copied().collect();
        assert_eq!(unique.len(), iv.len(), "{}: duplicate intervals found", name);
    }
}

/// No two ScaleMode variants share identical interval sets.
#[test]
fn no_duplicate_intervals() {
    let all = ScaleMode::all();
    for i in 0..all.len() {
        for j in (i + 1)..all.len() {
            assert_ne!(all[i].intervals(), all[j].intervals(), "{:?} and {:?} have identical intervals", all[i], all[j]);
        }
    }
}

/// family() does not panic for any variant, and every family has >= 1 scale.
#[test]
fn every_scale_has_family_and_every_family_has_scales() {
    for &mode in ScaleMode::all() {
        let _ = mode.family();
    }
    for &family in ScaleFamily::all() {
        let scales = ScaleMode::all_in_family(family);
        assert!(!scales.is_empty(), "Family {:?} has no scales", family);
    }
}

/// Every scale in a family reports that family.
#[test]
fn family_round_trip() {
    for &family in ScaleFamily::all() {
        for &mode in &ScaleMode::all_in_family(family) {
            assert_eq!(
                mode.family(),
                family,
                "{:?} is in all_in_family({:?}) but reports family {:?}",
                mode,
                family,
                mode.family()
            );
        }
    }
}

/// Verify known reference values for select scales.
#[test]
fn known_value_spot_checks() {
    assert_eq!(ScaleMode::Ionian.intervals(), &[0, 2, 4, 5, 7, 9, 11]);
    assert_eq!(ScaleMode::Dorian.intervals(), &[0, 2, 3, 5, 7, 9, 10]);
    assert_eq!(ScaleMode::MinorPentatonic.intervals(), &[0, 3, 5, 7, 10]);
    assert_eq!(ScaleMode::MajorPentatonic.intervals(), &[0, 2, 4, 7, 9]);
    assert_eq!(ScaleMode::WholeTone.intervals(), &[0, 2, 4, 6, 8, 10]);
    assert_eq!(ScaleMode::DiminishedHalfWhole.intervals(), &[0, 1, 3, 4, 6, 7, 9, 10]);
    assert_eq!(ScaleMode::MinorBlues.intervals(), &[0, 3, 5, 6, 7, 10]);
    assert_eq!(ScaleMode::HarmonicMajor.intervals(), &[0, 2, 4, 5, 7, 8, 11]);
    assert_eq!(ScaleMode::DoubleHarmonic.intervals(), &[0, 1, 4, 5, 7, 8, 11]);
    assert_eq!(ScaleMode::Persian.intervals(), &[0, 1, 4, 5, 6, 8, 11]);
    assert_eq!(ScaleMode::BebopDominant.intervals(), &[0, 2, 4, 5, 7, 9, 10, 11]);
}

fn compute_mode(parent: &[u8], mode_idx: usize) -> Vec<u8> {
    let root_pc = parent[mode_idx];
    let mut result: Vec<u8> = parent.iter().map(|&p| (p + 12 - root_pc) % 12).collect();
    result.sort();
    result
}

/// MinorPentatonic is mode 5 of MajorPentatonic, DiminishedHalfWhole is mode
/// 2 of DiminishedWholeHalf.
#[test]
fn modal_relations() {
    let major = ScaleMode::MajorPentatonic.intervals();
    assert_eq!(compute_mode(major, 4), ScaleMode::MinorPentatonic.intervals().to_vec());
    assert_eq!(compute_mode(major, 3), ScaleMode::Yo.intervals().to_vec());

    let wh = ScaleMode::DiminishedWholeHalf.intervals();
    assert_eq!(compute_mode(wh, 1), ScaleMode::DiminishedHalfWhole.intervals().to_vec());

    let dh = ScaleMode::DoubleHarmonic.intervals();
    assert_eq!(compute_mode(dh, 3), ScaleMode::HungarianMinor.intervals().to_vec());
}

/// all() contains exactly 57 variants.
#[test]
fn all_variants_count() {
    assert_eq!(ScaleMode::all().len(), 57);
}

/// ScaleFamily::all() contains exactly 10 families.
#[test]
fn all_families_count() {
    assert_eq!(ScaleFamily::all().len(), 10);
}

/// The total number of scales across all families equals 57.
#[test]
fn family_totals_match() {
    let total: usize = ScaleFamily::all().iter().map(|&f| ScaleMode::all_in_family(f).len()).sum();
    assert_eq!(total, 57);
}

/// Display names exist for every variant.
#[test]
fn display_all_variants() {
    for &mode in ScaleMode::all() {
        let s = mode.display_name();
        assert!(!s.is_empty(), "{:?} has empty display", mode);
    }
    for &family in ScaleFamily::all() {
        let s = family.display_name();
        assert!(!s.is_empty(), "{:?} has empty display", family);
    }
}

#[test]
fn keys_are_numbered_from_c() {
    let keys = Key::all();
    assert_eq!(keys.len(), 12);
    for (i, k) in keys.iter().enumerate() {
        assert_eq!(k.semitones_from_c() as usize, i);
    }
    assert_eq!(Key::G.semitones_from_c(), 7);
}

#[test]
fn harmony_modes_are_numbered_in_menu_order() {
    for (i, m) in HarmonyMode::all().iter().enumerate() {
        assert_eq!(m.number() as usize, i + 1);
    }
    assert_eq!(HarmonyMode::default(), HarmonyMode::PassThrough);
    assert_eq!(HarmonyMode::DiatonicThirds.description(), "Parallel Thirds");
}

#[test]
fn octave_modes_in_menu_order() {
    let all = OctaveMode::all();
    assert_eq!(all, &[OctaveMode::NoShift, OctaveMode::Spread, OctaveMode::BassTrebleSplit, OctaveMode::Mirror]);
    assert_eq!(OctaveMode::default(), OctaveMode::NoShift);
    assert_eq!(OctaveMode::Spread.description(), "Spread (+1 octave per voice)");
}
