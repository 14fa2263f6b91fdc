use contrapunk::preset::PresetManager;

fn manager() -> PresetManager<&'static str> {
    let mut m = PresetManager::new(vec!["Bach", "Jazz"]);
    m.add_custom("Mine");
    m.add_custom("Yours");
    m
}

#[test]
fn presets_list_builtins_first() {
    let m = manager();
    let all: Vec<&str> = m.all_presets().into_iter().copied().collect();
    assert_eq!(all, vec!["Bach", "Jazz", "Mine", "Yours"]);
    assert_eq!(m.custom_presets(), &["Mine", "Yours"]);
    assert!(m.active().is_none());
}

#[test]
fn set_active_selects_within_range_only() {
    let mut m = manager();
    m.set_active(2);
    assert_eq!(m.active(), Some(&"Mine"));
    m.set_active(4);
    assert_eq!(m.active(), Some(&"Mine"));
}

#[test]
fn removing_an_earlier_custom_clears_a_later_selection() {
    let mut m = manager();
    m.set_active(3);
    m.remove_custom(0);
    assert!(m.active().is_none());
    assert_eq!(m.custom_presets(), &["Yours"]);
}

#[test]
fn removing_a_later_custom_keeps_the_selection() {
    let mut m = manager();
    m.set_active(2);
    m.remove_custom(1);
    assert_eq!(m.active(), Some(&"Mine"));
    m.set_active(1);
    m.remove_custom(5);
    assert_eq!(m.active(), Some(&"Jazz"));
}

#[test]
fn replacing_custom_presets() {
    let mut m = manager();
    m.set_active(3);
    m.set_custom_presets(vec!["Only"]);
    assert!(m.active().is_none());
    m.set_active(2);
    assert_eq!(m.active(), Some(&"Only"));
}
