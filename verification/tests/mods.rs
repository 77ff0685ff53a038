use qmk_state_daemon::mods::{
    mods_to_letters, resolve_state, ModState, MOD_LALT, MOD_LCTL, MOD_LGUI, MOD_LSFT, MOD_RALT,
    MOD_RCTL, MOD_RGUI, MOD_RSFT,
};

#[test]
fn letters_empty() {
    assert_eq!(mods_to_letters(0), "");
}

#[test]
fn letters_single() {
    assert_eq!(mods_to_letters(MOD_LCTL), "C");
    assert_eq!(mods_to_letters(MOD_RSFT), "S");
    assert_eq!(mods_to_letters(MOD_LALT), "A");
    assert_eq!(mods_to_letters(MOD_RGUI), "G");
}

#[test]
fn letters_combined_csag_order() {
    // Ctrl + Shift + Gui in any bit order should render "CSG".
    assert_eq!(mods_to_letters(MOD_LCTL | MOD_LSFT | MOD_LGUI), "CSG");
    assert_eq!(mods_to_letters(MOD_LGUI | MOD_LSFT | MOD_LCTL), "CSG");
}

#[test]
fn letters_all_four() {
    assert_eq!(mods_to_letters(MOD_LCTL | MOD_LSFT | MOD_LALT | MOD_LGUI), "CSAG");
}

#[test]
fn letters_left_and_right_collapse() {
    assert_eq!(mods_to_letters(MOD_LCTL | MOD_RCTL), "C");
    assert_eq!(mods_to_letters(MOD_RCTL | MOD_RSFT | MOD_RALT | MOD_RGUI), "CSAG");
    assert_eq!(mods_to_letters(0xFF), "CSAG");
    assert_eq!(mods_to_letters(MOD_RALT | MOD_LSFT), "SA");
}

#[test]
fn state_precedence() {
    assert_eq!(resolve_state(0, 0, 0, 0), ModState::NoMods);
    assert_eq!(resolve_state(0, MOD_LSFT, 0, 0), ModState::Weak);
    assert_eq!(resolve_state(0, MOD_LSFT, MOD_LCTL, 0), ModState::Osm);
    assert_eq!(resolve_state(MOD_LSFT, 0, MOD_LCTL, 0), ModState::Held);
    assert_eq!(resolve_state(MOD_LSFT, 0, 0, MOD_LCTL), ModState::Locked);
}

#[test]
fn state_names() {
    assert_eq!(ModState::NoMods.as_str(), "none");
    assert_eq!(ModState::Weak.as_str(), "weak");
    assert_eq!(ModState::Osm.as_str(), "osm");
    assert_eq!(ModState::Held.as_str(), "held");
    assert_eq!(ModState::Locked.as_str(), "locked");
}
