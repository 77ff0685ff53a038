use qmk_state_daemon::handlers::state::{
    reason_flags, StateHandler, REASON_CAPS_WORD, REASON_DEFAULT_LAYER, REASON_INITIAL,
    REASON_LAYER, REASON_MODS, REASON_OSM, STATE_MSG_ID, STATE_PACKET_LEN, STATE_VERSION,
};
use qmk_state_daemon::mods::{MOD_LCTL, MOD_LSFT};
use qmk_state_daemon::packet::{DecodeError, PacketHandler};

fn fixture_packet() -> [u8; STATE_PACKET_LEN] {
    let mut buf = [0u8; STATE_PACKET_LEN];
    buf[0] = STATE_MSG_ID;
    buf[1] = STATE_VERSION;
    buf[2] = REASON_LAYER | REASON_MODS;
    buf[3] = 4; // NAS
    buf[4] = 0; // BASE
    // layer_state = (1<<0) | (1<<4) = 0x11
    buf[5..9].copy_from_slice(&0x0000_0011u32.to_le_bytes());
    buf[9] = MOD_LCTL | MOD_LSFT; // held CS
    buf[10] = 0;
    buf[11] = 0;
    buf[12] = 0;
    buf
}

#[test]
fn decodes_state_from_fixture() {
    let buf = fixture_packet();
    let v = StateHandler::new().decode(&buf).unwrap();
    assert_eq!(v.kind, "state");
    assert_eq!(v.version, 1);
    assert_eq!(v.top_layer, 4);
    assert_eq!(v.top_layer_name, "NAS");
    assert_eq!(v.default_layer_name, "BASE");
    assert_eq!(v.layer_state, 0x11);
    assert_eq!(v.mods_letters, "CS");
    assert_eq!(v.mods_state, "held");
    assert_eq!(v.caps_word_active, false);
    assert_eq!(v.caps_word_state, "inactive");
    assert_eq!(v.reason_flags, vec!["layer", "mods"]);
}

#[test]
fn decodes_caps_word_fields() {
    let mut buf = fixture_packet();
    buf[2] = REASON_CAPS_WORD;
    buf[13] = 1;
    let v = StateHandler::new().decode(&buf).unwrap();
    assert_eq!(v.caps_word_active, true);
    assert_eq!(v.caps_word_state, "active");
    assert_eq!(v.reason_flags, vec!["caps_word"]);
}

#[test]
fn rejects_short_buffer() {
    let buf = [0xAB, 0x01, 0, 0];
    assert!(StateHandler::new().decode(&buf).is_err());
    assert_eq!(
        StateHandler::new().decode(&buf).unwrap_err(),
        DecodeError::TooShort { len: 4, need: 32 }
    );
}

#[test]
fn rejects_wrong_msg_id() {
    let mut buf = fixture_packet();
    buf[0] = 0xCC;
    assert!(StateHandler::new().decode(&buf).is_err());
    assert_eq!(StateHandler::new().decode(&buf).unwrap_err(), DecodeError::WrongMsgId(0xCC));
}

#[test]
fn rejects_unsupported_version() {
    let mut buf = fixture_packet();
    buf[1] = 99;
    assert!(StateHandler::new().decode(&buf).is_err());
    assert_eq!(StateHandler::new().decode(&buf).unwrap_err(), DecodeError::UnsupportedVersion(99));
}

#[test]
fn no_mods_yields_empty_letters_and_none_state() {
    let mut buf = fixture_packet();
    buf[9] = 0;
    buf[10] = 0;
    let v = StateHandler::new().decode(&buf).unwrap();
    assert_eq!(v.mods_letters, "");
    assert_eq!(v.mods_state, "none");
}

#[test]
fn locked_beats_held() {
    let mut buf = fixture_packet();
    buf[9] = MOD_LSFT; // held
    buf[12] = MOD_LCTL; // locked
    let v = StateHandler::new().decode(&buf).unwrap();
    assert_eq!(v.mods_state, "locked");
    assert_eq!(v.mods_letters, "CS");
}

#[test]
fn decodes_layer_state_little_endian_and_unknown_layers() {
    let mut buf = fixture_packet();
    buf[3] = 9;
    buf[4] = 15;
    buf[5..9].copy_from_slice(&0x8040_2010u32.to_le_bytes());
    buf[10] = MOD_LSFT;
    buf[9] = 0;
    let v = StateHandler::new().decode(&buf).unwrap();
    assert_eq!(v.top_layer_name, "L9");
    assert_eq!(v.default_layer_name, "MBO");
    assert_eq!(v.layer_state, 0x8040_2010);
    assert_eq!(v.mods_state, "weak");
    assert_eq!(v.mods_letters, "S");
}

#[test]
fn reason_flags_in_bit_order() {
    assert!(reason_flags(0).is_empty());
    assert_eq!(
        reason_flags(0xFF),
        vec!["layer", "default_layer", "mods", "oneshot", "initial", "caps_word"]
    );
    assert_eq!(reason_flags(REASON_INITIAL | REASON_DEFAULT_LAYER), vec!["default_layer", "initial"]);
    assert_eq!(reason_flags(REASON_OSM), vec!["oneshot"]);
}

#[test]
fn handler_msg_id() {
    assert_eq!(StateHandler::new().msg_id(), 0xAB);
}
