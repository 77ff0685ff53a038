use std::collections::VecDeque;
use std::sync::mpsc;

use qmk_state_daemon::rpc::{
    dispatch, perform_qsid_request, qsid_get_via_broker, qsid_reply_of,
    qsid_set_via_broker, poll_action, PollAction, BrokerClient, BrokerError, RecvFailure, BrokerRequest, QsidListing, RpcError, RpcReply, RpcRequest,
};
use qmk_state_daemon::transport::{HidTransport, IoLog, TransportError};
use qmk_state_daemon::vial_qsid::{build_get_packet, parse_query_response, QsidError, PACKET_LEN};

/// Test transport with two queues: unsolicited reads (pushed state
/// packets) and responses that each become readable after one write.
struct MockTransport {
    unsolicited: VecDeque<Vec<u8>>,
    responses: VecDeque<Vec<u8>>,
    writes: Vec<Vec<u8>>,
    pending_responses: usize,
}

impl MockTransport {
    fn with_responses(responses: Vec<Vec<u8>>) -> Self {
        MockTransport {
            unsolicited: VecDeque::new(),
            responses: responses.into(),
            writes: Vec::new(),
            pending_responses: 0,
        }
    }
}

impl HidTransport for MockTransport {
    // The call log is a specification model with no run-time value.
    fn io_log(&self) -> IoLog {
        unreachable!()
    }

    fn read(&mut self, buf: &mut [u8]) -> Result<usize, TransportError> {
        let item = if self.pending_responses > 0 && !self.responses.is_empty() {
            self.pending_responses -= 1;
            self.responses.pop_front()
        } else {
            self.unsolicited.pop_front()
        };
        match item {
            Some(data) => {
                let n = data.len().min(buf.len());
                buf[..n].copy_from_slice(&data[..n]);
                Ok(n)
            }
            None => Err(TransportError { message: "mock transport exhausted".to_string() }),
        }
    }

    fn read_timeout(&mut self, buf: &mut [u8], _timeout_ms: i32) -> Result<usize, TransportError> {
        if self.pending_responses == 0 && self.unsolicited.is_empty() {
            return Ok(0);
        }
        self.read(buf)
    }

    fn write(&mut self, buf: &[u8]) -> Result<usize, TransportError> {
        self.writes.push(buf.to_vec());
        if !self.responses.is_empty() {
            self.pending_responses += 1;
        }
        Ok(buf.len())
    }
}


fn query_page(qsids: &[u16], end: bool) -> Vec<u8> {
    let mut r = vec![0u8; PACKET_LEN];
    let mut i = 0;
    for q in qsids {
        r[i..i + 2].copy_from_slice(&q.to_le_bytes());
        i += 2;
    }
    if end {
        r[i] = 0xFF;
        r[i + 1] = 0xFF;
    }
    r
}




#[test]
fn qsid_set_rejects_before_sending() {
    let (tx, rx) = mpsc::channel::<BrokerRequest>();
    let mut client = BrokerClient::new(tx);
    assert_eq!(
        qsid_set_via_broker(&mut client, 29, 300, 1),
        Err(RpcError::Qsid(QsidError::ValueOutOfRange { value: 300, width: 1 }))
    );
    assert_eq!(qsid_set_via_broker(&mut client, 29, 1, 3), Err(RpcError::Qsid(QsidError::InvalidWidth)));
    assert!(rx.try_recv().is_err());
}

#[test]
fn closed_broker_is_reported() {
    let (tx, rx) = mpsc::channel::<BrokerRequest>();
    drop(rx);
    let mut client = BrokerClient::new(tx);
    assert_eq!(qsid_get_via_broker(&mut client, 28, 2), Err(RpcError::Broker(BrokerError::ChannelClosed)));
}




#[test]
fn listing_merges_pages_until_no_progress() {
    let mut listing = QsidListing::new();
    assert_eq!(listing.cursor(), 0);
    listing.absorb(&vec![29, 1, 28], false);
    assert!(!listing.is_done());
    assert_eq!(listing.cursor(), 29);
    listing.absorb(&vec![28, 40, 31], false);
    assert_eq!(listing.cursor(), 40);
    listing.absorb(&vec![31, 40], false);
    assert!(listing.is_done());
    assert_eq!(listing.cursor(), 40);
    assert_eq!(listing.finish(), vec![1, 28, 29, 31, 40]);
    let (page, end) = parse_query_response(&query_page(&[1, 2, 28, 29], true));
    let mut one = QsidListing::new();
    one.absorb(&page, end);
    assert!(one.is_done());
    assert_eq!(one.finish(), vec![1, 2, 28, 29]);
}

#[test]
fn dispatch_answers_requests() {
    let (tx, rx) = mpsc::channel::<BrokerRequest>();
    let mut client = BrokerClient::new(tx);
    assert_eq!(dispatch(&mut client, RpcRequest::Ping), RpcReply::Pong);
    assert_eq!(dispatch(&mut client, RpcRequest::ReloadConfig), RpcReply::ReloadRequested);
    assert_eq!(
        dispatch(&mut client, RpcRequest::QsidGet { qsid: 999, width: None }),
        RpcReply::Failed(RpcError::Qsid(QsidError::UnknownQsid(999)))
    );
    assert_eq!(
        dispatch(&mut client, RpcRequest::QsidSet { qsid: 999, value: 1, width: Some(3) }),
        RpcReply::Failed(RpcError::Qsid(QsidError::InvalidWidth))
    );
    assert!(rx.try_recv().is_err());
}

#[test]
fn get_hands_its_packet_to_the_broker() {
    let (tx, rx) = mpsc::channel::<BrokerRequest>();
    let mut client = BrokerClient::new(tx);
    assert_eq!(
        dispatch(&mut client, RpcRequest::QsidGet { qsid: 28, width: None }),
        RpcReply::Failed(RpcError::Broker(BrokerError::NoResponse(RecvFailure::Timeout)))
    );
    let req = rx.try_recv().unwrap();
    assert_eq!(req.packet, build_get_packet(28));
    assert!(rx.try_recv().is_err());
}

#[test]
fn qsid_request_skips_state_packets_and_timeouts() {
    let mut state = vec![0u8; PACKET_LEN];
    state[0] = 0xAB;
    let mut t = MockTransport::with_responses(vec![vec![0, 7]]);
    t.unsolicited.push_back(state);
    let mut buf = [0u8; PACKET_LEN];
    let packet = [0u8; PACKET_LEN];
    // The write unlocks the response, which comes before the state packet.
    assert_eq!(perform_qsid_request(&mut t, &packet, &mut buf), Ok(vec![0, 7]));
    let mut only_state = MockTransport::with_responses(vec![]);
    let mut s = vec![0u8; PACKET_LEN];
    s[0] = 0xAB;
    only_state.unsolicited.push_back(s);
    assert_eq!(
        perform_qsid_request(&mut only_state, &packet, &mut buf),
        Err(BrokerError::NoQsidResponse)
    );
}

#[test]
fn rpc_error_messages() {
    let t = TransportError { message: "gone".to_string() };
    assert_eq!(RpcError::Broker(BrokerError::Write(t.clone())).message(), "qsid write");
    assert_eq!(RpcError::Broker(BrokerError::Read(t)).message(), "qsid read");
    assert_eq!(BrokerError::ChannelClosed.message(), "broker channel closed");
    assert_eq!(
        BrokerError::NoResponse(RecvFailure::Timeout).message(),
        "no response from broker: timed out waiting on channel"
    );
    assert_eq!(
        BrokerError::NoQsidResponse.message(),
        "no qsid response after 32 packet reads"
    );
    assert_eq!(RpcError::Qsid(QsidError::EmptyResponse).message(), "empty response");
}

#[test]
fn reply_of_a_read() {
    let mut buf = [0u8; PACKET_LEN];
    assert_eq!(qsid_reply_of(0, &buf), None);
    buf[0] = 0xAB;
    buf[1] = 7;
    assert_eq!(qsid_reply_of(2, &buf), None);
    buf[0] = 0x00;
    assert_eq!(qsid_reply_of(3, &buf), Some(vec![0, 7, 0]));
}

#[test]
fn broker_poll_choices() {
    let mut buf = [0u8; PACKET_LEN];
    assert_eq!(poll_action(&Ok(0), &buf), PollAction::Retry);
    assert_eq!(poll_action(&Ok(5), &buf), PollAction::Drop);
    buf[0] = 0xAB;
    assert_eq!(poll_action(&Ok(5), &buf), PollAction::StatePacket);
    let err: Result<usize, TransportError> = Err(TransportError { message: "x".to_string() });
    assert_eq!(poll_action(&err, &buf), PollAction::Pause(100));
}
