use std::collections::VecDeque;

use qmk_state_daemon::handlers::state::{
    StateHandler, StatePayload, REASON_INITIAL, REASON_LAYER, REASON_MODS, STATE_MSG_ID,
    STATE_VERSION,
};
use qmk_state_daemon::mods::{MOD_LCTL, MOD_LSFT};
use qmk_state_daemon::packet::{PacketHandler, Registry};
use qmk_state_daemon::sketchybar::EventArg;
use qmk_state_daemon::transport::{HidTransport, IoLog, TransportError};
use qmk_state_daemon::{dedup_key, event_args_from, is_state_packet, RunLoop, RunOptions, PACKET_LEN};

struct MockTransport {
    reads: VecDeque<Result<Vec<u8>, TransportError>>,
    writes: Vec<Vec<u8>>,
}

impl MockTransport {
    fn new(reads: Vec<Result<Vec<u8>, TransportError>>) -> Self {
        MockTransport { reads: reads.into(), writes: Vec::new() }
    }
}

impl HidTransport for MockTransport {
    // The call log is a specification model with no run-time value.
    fn io_log(&self) -> IoLog {
        unreachable!()
    }

    fn read(&mut self, buf: &mut [u8]) -> Result<usize, TransportError> {
        match self.reads.pop_front() {
            Some(Ok(data)) => {
                let n = data.len().min(buf.len());
                buf[..n].copy_from_slice(&data[..n]);
                Ok(n)
            }
            Some(Err(e)) => Err(e),
            None => Err(TransportError { message: "mock transport exhausted".to_string() }),
        }
    }

    fn read_timeout(&mut self, buf: &mut [u8], _timeout_ms: i32) -> Result<usize, TransportError> {
        if self.reads.is_empty() {
            return Ok(0);
        }
        self.read(buf)
    }

    fn write(&mut self, buf: &[u8]) -> Result<usize, TransportError> {
        self.writes.push(buf.to_vec());
        Ok(buf.len())
    }
}

#[derive(Default)]
struct Recorded {
    values: Vec<StatePayload>,
    calls: Vec<(String, Vec<EventArg>)>,
}

impl Recorded {
    fn events(&self) -> Vec<String> {
        self.calls.iter().map(|c| c.0.clone()).collect()
    }
}

/// Drives `RunLoop` the way the daemon's read loop does, recording what is
/// written and notified instead of doing I/O.
fn run(
    transport: &mut MockTransport,
    registry: &Registry<StateHandler>,
    out: &mut Recorded,
    opts: &RunOptions,
) -> Result<(), String> {
    let mut lp = RunLoop::new(opts);
    let mut buf = [0u8; PACKET_LEN];
    loop {
        match transport.read(&mut buf) {
            Ok(0) | Err(_) => {
                let _pause = lp.on_idle();
            }
            Ok(n) => {
                let decoded = registry.handle(&buf[..n]).map_err(|e| format!("{e:?}"))?;
                if lp.on_packet(decoded.as_ref()) {
                    let v = decoded.unwrap();
                    out.values.push(v.clone());
                    out.calls.push((opts.sketchybar_event.clone(), event_args_from(&v)));
                }
                if lp.complete_read() {
                    return Ok(());
                }
            }
        }
    }
}

fn state_packet() -> Vec<u8> {
    let mut buf = vec![0u8; PACKET_LEN];
    buf[0] = STATE_MSG_ID;
    buf[1] = STATE_VERSION;
    buf[2] = REASON_INITIAL;
    buf[3] = 2; // FN
    buf[9] = MOD_LSFT;
    buf
}

fn heartbeat_packet_matching(seed: &[u8]) -> Vec<u8> {
    let mut buf = seed.to_vec();
    buf[2] = REASON_INITIAL;
    buf
}

fn changed_packet(seed: &[u8]) -> Vec<u8> {
    let mut buf = seed.to_vec();
    buf[3] = 4; // top_layer flips from FN to NAS
    buf
}

fn opts(event: &str, once: bool, max_reads: Option<usize>) -> RunOptions {
    RunOptions {
        sketchybar_event: event.to_string(),
        once,
        backoff_ms: Some(0),
        max_backoff_ms: Some(0),
        max_reads,
    }
}

fn registry() -> Registry<StateHandler> {
    Registry::builder().handler(StateHandler::new()).build()
}

#[test]
fn e2e_once_with_mock_transport() {
    let mut transport = MockTransport::new(vec![Ok(state_packet())]);
    let mut out = Recorded::default();
    run(&mut transport, &registry(), &mut out, &opts("qmk_state_changed", true, None)).unwrap();

    // Push-only design: no writes expected.
    assert!(transport.writes.is_empty());
    assert_eq!(out.values.len(), 1);
    assert_eq!(out.values[0].top_layer_name, "FN");
    assert_eq!(out.values[0].mods_letters, "S");
    assert_eq!(out.events(), vec!["qmk_state_changed"]);
}

#[test]
fn recovers_from_transient_read_error() {
    let err = |m: &str| Err(TransportError { message: m.to_string() });
    let mut transport = MockTransport::new(vec![err("transient"), err("transient again"), Ok(state_packet())]);
    let mut out = Recorded::default();
    run(&mut transport, &registry(), &mut out, &opts("e", true, None)).unwrap();
    assert_eq!(out.events(), vec!["e"]);
}

#[test]
fn dedups_notifier_when_payload_unchanged() {
    let seed = state_packet();
    let reads = vec![Ok(seed.clone()), Ok(heartbeat_packet_matching(&seed)), Ok(changed_packet(&seed))];
    let mut transport = MockTransport::new(reads);
    let mut out = Recorded::default();
    run(&mut transport, &registry(), &mut out, &opts("qmk_state_changed", false, Some(3))).unwrap();
    assert_eq!(
        out.events(),
        vec!["qmk_state_changed", "qmk_state_changed"],
        "heartbeat with identical observable state should not fire notifier"
    );
}

#[test]
fn dedups_writer_when_payload_unchanged() {
    let seed = state_packet();
    let reads = vec![Ok(seed.clone()), Ok(heartbeat_packet_matching(&seed)), Ok(changed_packet(&seed))];
    let mut transport = MockTransport::new(reads);
    let mut out = Recorded::default();
    run(&mut transport, &registry(), &mut out, &opts("qmk_state_changed", false, Some(3))).unwrap();
    assert_eq!(out.values.len(), 2);
}

#[test]
fn dedup_key_strips_reason_and_flags() {
    let mut buf = state_packet();
    buf[2] = REASON_INITIAL;
    let v1 = StateHandler::new().decode(&buf).unwrap();
    buf[2] = REASON_LAYER | REASON_MODS;
    let v2 = StateHandler::new().decode(&buf).unwrap();

    assert_ne!(v1, v2, "raw payloads should differ (reason bytes)");
    assert!(
        dedup_key(&v1).same(&dedup_key(&v2)),
        "dedup keys should be equal after stripping reason/reason_flags"
    );
    let mut other = buf.clone();
    other[12] = MOD_LCTL;
    let v3 = StateHandler::new().decode(&other).unwrap();
    assert!(!dedup_key(&v1).same(&dedup_key(&v3)));
}

#[test]
fn dedups_multiple_consecutive_heartbeats() {
    let seed = state_packet();
    let reads = vec![
        Ok(seed.clone()),
        Ok(heartbeat_packet_matching(&seed)),
        Ok(heartbeat_packet_matching(&seed)),
        Ok(heartbeat_packet_matching(&seed)),
    ];
    let mut transport = MockTransport::new(reads);
    let mut out = Recorded::default();
    run(&mut transport, &registry(), &mut out, &opts("e", false, Some(4))).unwrap();
    assert_eq!(out.events(), vec!["e"]);
    assert_eq!(out.values.len(), 1);
}

#[test]
fn resumes_firing_after_change_between_dupes() {
    let a = state_packet();
    let b = changed_packet(&a);
    let reads = vec![
        Ok(a.clone()),
        Ok(heartbeat_packet_matching(&a)),
        Ok(b.clone()),
        Ok(heartbeat_packet_matching(&b)),
        Ok(a.clone()),
    ];
    let mut transport = MockTransport::new(reads);
    let mut out = Recorded::default();
    run(&mut transport, &registry(), &mut out, &opts("e", false, Some(5))).unwrap();
    assert_eq!(out.events().len(), 3);
    assert_eq!(out.values.len(), 3);
}

#[test]
fn detects_change_in_mods_only() {
    let a = state_packet(); // has MOD_LSFT
    let mut b = a.clone();
    b[9] = MOD_LCTL; // swap Shift for Ctrl
    let mut transport = MockTransport::new(vec![Ok(a), Ok(b)]);
    let mut out = Recorded::default();
    run(&mut transport, &registry(), &mut out, &opts("e", false, Some(2))).unwrap();
    assert_eq!(out.values.len(), 2);
    assert_eq!(out.values[0].mods_letters, "S");
    assert_eq!(out.values[1].mods_letters, "C");
}

#[test]
fn forwards_sketchybar_event_args_from_payload() {
    let mut transport = MockTransport::new(vec![Ok(state_packet())]);
    let mut out = Recorded::default();
    run(&mut transport, &registry(), &mut out, &opts("qmk_state_changed", true, None)).unwrap();
    assert_eq!(out.calls.len(), 1);
    assert_eq!(out.calls[0].0, "qmk_state_changed");
    let args: std::collections::HashMap<_, _> =
        out.calls[0].1.iter().map(|a| (a.key.as_str(), a.value.as_str())).collect();
    assert_eq!(args.get("top_layer_name").copied(), Some("FN"));
    assert_eq!(args.get("default_layer_name").copied(), Some("BASE"));
    assert_eq!(args.get("mods_letters").copied(), Some("S"));
    assert_eq!(args.get("mods_state").copied(), Some("held"));
}

#[test]
fn backoff_doubles_up_to_cap_and_resets() {
    let o = RunOptions {
        sketchybar_event: "e".to_string(),
        once: false,
        backoff_ms: Some(100),
        max_backoff_ms: Some(1000),
        max_reads: None,
    };
    let mut lp = RunLoop::new(&o);
    let pauses: Vec<u64> = (0..6).map(|_| lp.on_idle()).collect();
    assert_eq!(pauses, vec![100, 200, 400, 800, 1000, 1000]);
    assert!(!lp.on_packet(None));
    assert_eq!(lp.on_idle(), 100);
    let d = RunOptions::default();
    assert_eq!(d.sketchybar_event, "qmk_state_changed");
    let mut dl = RunLoop::new(&d);
    assert_eq!(dl.on_idle(), 100);
    assert_eq!(dl.on_idle(), 200);
}

#[test]
fn stops_after_max_reads() {
    let mut lp = RunLoop::new(&opts("e", false, Some(2)));
    assert!(!lp.complete_read());
    assert!(lp.complete_read());
    let mut forever = RunLoop::new(&opts("e", false, None));
    for _ in 0..100 {
        assert!(!forever.complete_read());
    }
}

#[test]
fn state_packet_kind() {
    assert!(is_state_packet(&[0xAB]));
    assert!(!is_state_packet(&[0x00, 0xAB]));
    assert!(!is_state_packet(&[]));
}
