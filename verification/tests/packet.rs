use qmk_state_daemon::handlers::state::StateHandler;
use qmk_state_daemon::packet::{DecodeError, HandleError, PacketHandler, Registry};
use serde_json::Value;

struct FakeHandler {
    id: u8,
    payload: Value,
}

impl PacketHandler for FakeHandler {
    type Output = Value;

    fn spec_msg_id(&self) -> u8 {
        self.id
    }

    fn spec_decodes(&self, _buf: &[u8], _result: Result<Value, DecodeError>) -> bool {
        true
    }

    fn msg_id(&self) -> u8 {
        self.id
    }

    fn decode(&self, _buf: &[u8]) -> Result<Value, DecodeError> {
        Ok(self.payload.clone())
    }
}

fn obj(key: &str, value: &str) -> Value {
    let mut m = serde_json::Map::new();
    m.insert(key.to_string(), Value::String(value.to_string()));
    Value::Object(m)
}

#[test]
fn dispatches_by_msg_id() {
    let reg = Registry::builder()
        .handler(FakeHandler { id: 0xAB, payload: obj("h", "ab") })
        .handler(FakeHandler { id: 0xAC, payload: obj("h", "ac") })
        .build();

    assert_eq!(reg.handle(&[0xAB]).unwrap(), Some(obj("h", "ab")));
    assert_eq!(reg.handle(&[0xAC]).unwrap(), Some(obj("h", "ac")));
}

#[test]
fn empty_buffer_is_none() {
    let reg = Registry::<FakeHandler>::builder().build();
    assert!(reg.handle(&[]).unwrap().is_none());
}

#[test]
fn unknown_id_is_err() {
    let reg = Registry::builder()
        .handler(FakeHandler { id: 0xAB, payload: Value::Object(serde_json::Map::new()) })
        .build();
    assert!(reg.handle(&[0x99]).is_err());
    assert_eq!(reg.handle(&[0x99]), Err(HandleError::NoHandler(0x99)));
}

#[test]
fn known_ids_sorted() {
    let reg = Registry::builder()
        .handler(FakeHandler { id: 0xAC, payload: Value::Object(serde_json::Map::new()) })
        .handler(FakeHandler { id: 0xAB, payload: Value::Object(serde_json::Map::new()) })
        .build();
    assert_eq!(reg.known_ids(), vec![0xAB, 0xAC]);
}

#[test]
fn later_handler_replaces_earlier_one() {
    let reg = Registry::builder()
        .handler(FakeHandler { id: 0xAB, payload: obj("h", "first") })
        .handler(FakeHandler { id: 0xAB, payload: obj("h", "second") })
        .build();
    assert_eq!(reg.known_ids(), vec![0xAB]);
    assert_eq!(reg.handle(&[0xAB]).unwrap(), Some(obj("h", "second")));
}

#[test]
fn state_registry_reports_decode_errors() {
    let reg = Registry::builder().handler(StateHandler::new()).build();
    assert_eq!(reg.known_ids(), vec![0xAB]);
    assert_eq!(
        reg.handle(&[0xAB, 1]),
        Err(HandleError::Decode(DecodeError::TooShort { len: 2, need: 32 }))
    );
    let mut buf = vec![0u8; 32];
    buf[0] = 0xAB;
    buf[1] = 1;
    let v = reg.handle(&buf).unwrap().unwrap();
    assert_eq!(v.top_layer_name, "BASE");
    assert_eq!(v.mods_state, "none");
}

#[test]
fn handle_error_messages() {
    assert_eq!(HandleError::NoHandler(0x0A).message(), "no handler for msg id 0x0A");
    assert_eq!(HandleError::NoHandler(0xfe).message(), "no handler for msg id 0xFE");
    assert_eq!(
        HandleError::Decode(DecodeError::TooShort { len: 3, need: 14 }).message(),
        "state packet too short: 3 < 14"
    );
    assert_eq!(DecodeError::WrongMsgId(0x05).message(), "wrong msg_id 0x05");
    assert_eq!(
        DecodeError::UnsupportedVersion(2).message(),
        "unsupported state packet version 2"
    );
}
