use contrapunk::harmony::voice_leading::rules::{
    check_motion_independence, check_parallel_fifths, check_parallel_octaves, check_spacing, check_voice_crossing,
};
use contrapunk::harmony::voice_leading::styles::{StyleRules, VoiceLeadingStyle};
use contrapunk::harmony::voice_leading::voicer::{cartesian_product, revoice_chord, VoiceAnchor, VoiceRegister};

fn default_registers_3() -> Vec<VoiceRegister> {
    vec![VoiceRegister::Soprano, VoiceRegister::Soprano, VoiceRegister::Alto, VoiceRegister::Tenor]
}

fn default_registers_2() -> Vec<VoiceRegister> {
    vec![VoiceRegister::Soprano, VoiceRegister::Soprano, VoiceRegister::Alto]
}

fn default_registers_1() -> Vec<VoiceRegister> {
    vec![VoiceRegister::Soprano, VoiceRegister::Alto]
}

#[test]
fn test_all_styles() {
    let styles = VoiceLeadingStyle::all();
    assert_eq!(styles.len(), 4);
}

#[test]
fn test_default_is_free() {
    assert_eq!(VoiceLeadingStyle::default(), VoiceLeadingStyle::Free);
}

#[test]
fn test_palestrina_hard_rejects() {
    let rules = StyleRules::for_style(VoiceLeadingStyle::Palestrina);
    assert!(rules.hard_reject_parallel_fifths);
    assert!(rules.hard_reject_parallel_octaves);
    assert_eq!(rules.max_leap_semitones, 7);
}

#[test]
fn test_jazz_no_hard_rejects() {
    let rules = StyleRules::for_style(VoiceLeadingStyle::Jazz);
    assert!(!rules.hard_reject_parallel_fifths);
    assert!(!rules.hard_reject_parallel_octaves);
    assert_eq!(rules.max_leap_semitones, 127);
}

#[test]
fn test_display() {
    let style = VoiceLeadingStyle::BachChorale;
    assert_eq!(style.description(), "Bach Chorale (Baroque four-part)");
}

#[test]
fn test_all_styles_construct_rules() {
    for style in VoiceLeadingStyle::all() {
        let _rules = StyleRules::for_style(*style);
    }
}

#[test]
fn test_valid_placements() {
    let placements = VoiceRegister::Soprano.valid_placements(0);
    assert_eq!(placements, vec![60, 72]);
}

#[test]
fn test_valid_placements_alto() {
    let placements = VoiceRegister::Alto.valid_placements(4);
    assert_eq!(placements, vec![64, 76]);
}

#[test]
fn test_determinism_100_times() {
    let pcs = vec![4, 7];
    let prev = vec![72u8, 64, 67];
    let registers = default_registers_2();
    let rules = StyleRules::for_style(VoiceLeadingStyle::BachChorale);
    let first = revoice_chord(&pcs, Some(&prev), &registers, &rules, None);
    for _ in 0..100 {
        let result = revoice_chord(&pcs, Some(&prev), &registers, &rules, None);
        assert_eq!(result, first, "Determinism violated!");
    }
}

#[test]
fn test_common_tone_retention() {
    let pcs = vec![4, 9];
    let prev = vec![72u8, 64, 67];
    let registers = default_registers_2();
    let rules = StyleRules::for_style(VoiceLeadingStyle::BachChorale);
    let result = revoice_chord(&pcs, Some(&prev), &registers, &rules, None);
    assert_eq!(result[0], 64, "E should be retained as common tone");
}

#[test]
fn test_parallel_fifth_rejection_palestrina() {
    let rules = StyleRules::for_style(VoiceLeadingStyle::Palestrina);
    let registers = default_registers_2();
    let prev = vec![72u8, 60, 53];
    let pcs = vec![2, 7];
    let result = revoice_chord(&pcs, Some(&prev), &registers, &rules, None);
    let mut full = vec![72u8];
    full.extend_from_slice(&result);
    let _fifths = check_parallel_fifths(&prev, &full);
    assert_eq!(result.len(), 2);
}

#[test]
fn test_first_chord_voicing() {
    let pcs = vec![4, 7, 0];
    let registers = default_registers_3();
    let rules = StyleRules::for_style(VoiceLeadingStyle::Free);
    let result = revoice_chord(&pcs, None, &registers, &rules, None);
    assert_eq!(result.len(), 3);
    let (slo, shi) = VoiceRegister::Soprano.range();
    assert!(result[0] >= slo && result[0] <= shi);
    let (alo, ahi) = VoiceRegister::Alto.range();
    assert!(result[1] >= alo && result[1] <= ahi);
    let (tlo, thi) = VoiceRegister::Tenor.range();
    assert!(result[2] >= tlo && result[2] <= thi);
}

#[test]
fn test_single_voice() {
    let pcs = vec![0];
    let registers = default_registers_1();
    let rules = StyleRules::for_style(VoiceLeadingStyle::Free);
    let result = revoice_chord(&pcs, None, &registers, &rules, None);
    assert_eq!(result.len(), 1);
    assert_eq!(result[0] % 12, 0);
}

#[test]
fn test_empty_input() {
    let pcs: Vec<u8> = vec![];
    let registers = vec![VoiceRegister::Soprano];
    let rules = StyleRules::for_style(VoiceLeadingStyle::Free);
    let result = revoice_chord(&pcs, None, &registers, &rules, None);
    assert!(result.is_empty());
}

#[test]
fn test_fallback_when_all_rejected() {
    let pcs = vec![2, 7];
    let prev = vec![72u8, 60, 53];
    let registers = default_registers_2();
    let mut rules = StyleRules::for_style(VoiceLeadingStyle::Palestrina);
    rules.max_leap_semitones = 1;
    let result = revoice_chord(&pcs, Some(&prev), &registers, &rules, None);
    assert_eq!(result.len(), 2);
}

#[test]
fn test_cartesian_product() {
    let sets = vec![vec![1u8, 2], vec![3, 4]];
    let result = cartesian_product(&sets);
    assert_eq!(result.len(), 4);
    assert!(result.contains(&vec![1, 3]));
    assert!(result.contains(&vec![1, 4]));
    assert!(result.contains(&vec![2, 3]));
    assert!(result.contains(&vec![2, 4]));
}

#[test]
fn test_voice_register_order() {
    assert!(VoiceRegister::Soprano.order() < VoiceRegister::Alto.order());
    assert!(VoiceRegister::Alto.order() < VoiceRegister::Tenor.order());
    assert!(VoiceRegister::Tenor.order() < VoiceRegister::Bass.order());
}

#[test]
fn register_centers() {
    assert_eq!(VoiceRegister::Soprano.center(), 70);
    assert_eq!(VoiceRegister::Bass.center(), 52);
}

#[test]
fn anchor_keeps_voices_on_their_side() {
    // The user sings the alto part (position 1) at E4; harmony voice 0 is the
    // soprano (above), voice 1 the tenor (below).
    let anchor = VoiceAnchor { midi: 64, arrangement_pos: 1, harmony_arrangement_positions: vec![0, 2] };
    let registers = vec![VoiceRegister::Alto, VoiceRegister::Soprano, VoiceRegister::Tenor];
    let rules = StyleRules::for_style(VoiceLeadingStyle::Free);
    let result = revoice_chord(&[7, 0], None, &registers, &rules, Some(&anchor));
    assert_eq!(result.len(), 2);
    assert!(result[0] >= 64, "{:?}", result);
    assert!(result[1] <= 64, "{:?}", result);
    assert_eq!(result[0] % 12, 7);
    assert_eq!(result[1] % 12, 0);
}

#[test]
fn rule_checks_count_violations() {
    // Soprano and bass move C5/F4 -> D5/G4: a parallel fifth.
    assert_eq!(check_parallel_fifths(&[72, 65], &[74, 67]), 1);
    assert_eq!(check_parallel_fifths(&[72, 65], &[72, 67]), 0);
    // Octaves C5/C4 -> D5/D4.
    assert_eq!(check_parallel_octaves(&[72, 60], &[74, 62]), 1);
    // Alto (register order 1) above the soprano (order 0).
    assert_eq!(check_voice_crossing(&[60, 67], &[VoiceRegister::Soprano, VoiceRegister::Alto]), 1);
    assert_eq!(check_voice_crossing(&[67, 60], &[VoiceRegister::Soprano, VoiceRegister::Alto]), 0);
    // Upper voices more than an octave apart (the lowest pair is exempt).
    assert_eq!(check_spacing(&[80, 60, 40]), 1);
    assert_eq!(check_spacing(&[72, 67, 40]), 0);
    // All harmony voices up together.
    assert!(check_motion_independence(&[72, 60, 55], &[72, 62, 57]));
    assert!(!check_motion_independence(&[72, 60, 55], &[72, 62, 53]));
}
