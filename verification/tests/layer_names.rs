use qmk_state_daemon::layer_names::layer_name;

#[test]
fn maps_known_layers() {
    assert_eq!(layer_name(0), "BASE");
    assert_eq!(layer_name(2), "FN");
    assert_eq!(layer_name(4), "NAS");
    assert_eq!(layer_name(15), "MBO");
}

#[test]
fn falls_back_for_unknown() {
    assert_eq!(layer_name(9), "L9");
    assert_eq!(layer_name(12), "L12");
}

#[test]
fn names_every_keymap_layer() {
    assert_eq!(layer_name(1), "BASE-H");
    assert_eq!(layer_name(3), "FN-H");
    assert_eq!(layer_name(5), "NAS-H");
    assert_eq!(layer_name(6), "NUM");
    assert_eq!(layer_name(7), "L7");
    assert_eq!(layer_name(100), "L100");
    assert_eq!(layer_name(255), "L255");
}
