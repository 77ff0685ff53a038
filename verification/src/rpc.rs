//! Local control plane: the requests that socket clients send, the QSID
//! round trips through the HID broker, and the broker's request/response
//! exchange with the device.
//!
//! Only one QSID request is in flight at a time, so responses need no
//! correlation id: after a write, the first packet that is not a pushed
//! state snapshot is the answer.

use std::sync::mpsc::Sender;

use vstd::prelude::*;

pub use crate::broker::{BrokerClient, BrokerEvent};
use crate::broker::reply_channel;
use crate::text::{push_str, to_string};
use crate::{is_state_packet, spec_is_state_packet};
use crate::transport::{HidTransport, IoEvent, TransportError};
use crate::vial_qsid::{
    build_get_packet, build_query_packet, build_set_packet, known_qsids, parse_get_response,
    parse_query_response, parse_set_response, resolve_width,
    spec_command_packet, spec_get_response, spec_known_qsid, spec_query_from, spec_resolve_width,
    spec_set_packet, spec_set_response, CMD_QSID_GET, CMD_QSID_QUERY, PACKET_LEN, QsidError,
};

verus! {

pub const DEFAULT_SOCKET_PATH: &'static str = "/tmp/qmk-state-daemon.sock";

/// How long a client waits for the broker to answer, in milliseconds.
pub const BROKER_TIMEOUT_MS: u64 = 2000;

/// Reads the broker makes while waiting for a QSID response.
pub const QSID_RESPONSE_READS: usize = 32;

/// Timeout of each of those reads, in milliseconds.
pub const QSID_READ_TIMEOUT_MS: i32 = 500;

/// Why waiting for the broker's reply ended without one.
#[derive(Debug, Clone, Copy, PartialEq, Eq)]
pub enum RecvFailure {
    Timeout,
    Disconnected,
}

/// Why a round trip through the broker failed.
#[derive(Debug, Clone, PartialEq, Eq)]
pub enum BrokerError {
    /// The broker no longer takes requests.
    ChannelClosed,
    /// No reply came back from the broker.
    NoResponse(RecvFailure),
    /// Writing the request to the device failed.
    Write(TransportError),
    /// Reading from the device failed.
    Read(TransportError),
    /// Only state packets (or nothing) came back within the read budget.
    NoQsidResponse,
}

impl RecvFailure {
    /// The standard library's description of the failed wait.
    pub open spec fn spec_message(self) -> Seq<char> {
        match self {
            RecvFailure::Timeout => "timed out waiting on channel"@,
            RecvFailure::Disconnected => "channel is empty and sending half is closed"@,
        }
    }

    pub fn message(&self) -> (m: String)
        ensures
            m@ == self.spec_message(),
    {
        match self {
            RecvFailure::Timeout => to_string("timed out waiting on channel"),
            RecvFailure::Disconnected => to_string("channel is empty and sending half is closed"),
        }
    }
}

impl BrokerError {
    /// The text shown to a user: the step that failed; a device error
    /// itself is not repeated.
    pub open spec fn spec_message(self) -> Seq<char> {
        match self {
            BrokerError::ChannelClosed => "broker channel closed"@,
            BrokerError::NoResponse(why) => "no response from broker: "@ + why.spec_message(),
            BrokerError::Write(_) => "qsid write"@,
            BrokerError::Read(_) => "qsid read"@,
            BrokerError::NoQsidResponse => "no qsid response after 32 packet reads"@,
        }
    }

    pub fn message(&self) -> (m: String)
        ensures
            m@ == self.spec_message(),
    {
        match self {
            BrokerError::ChannelClosed => to_string("broker channel closed"),
            BrokerError::NoResponse(why) => {
                let mut m = to_string("no response from broker: ");
                push_str(&mut m, why.message().as_str());
                m
            },
            BrokerError::Write(_) => to_string("qsid write"),
            BrokerError::Read(_) => to_string("qsid read"),
            BrokerError::NoQsidResponse => to_string("no qsid response after 32 packet reads"),
        }
    }
}

/// The device's raw response to one request, or why there is none.
pub type BrokerReply = Result<Vec<u8>, BrokerError>;

/// A request coming in from a socket client, plus a channel to reply on.
/// The broker runs it against the HID transport and sends the response.
pub struct BrokerRequest {
    pub packet: [u8; PACKET_LEN],
    pub reply: Sender<BrokerReply>,
}

pub type BrokerSender = Sender<BrokerRequest>;

/// One request/response round trip through the broker: `packet` is handed
/// over, and the result is the broker's reply, `ChannelClosed` when the
/// broker no longer takes requests, or `NoResponse` when no reply came
/// within `BROKER_TIMEOUT_MS`. The client's log records both steps.
fn send_via_broker(broker: &mut BrokerClient, packet: [u8; PACKET_LEN]) -> (r: BrokerReply)
    ensures
        final(broker).spec_log() == old(broker).spec_log().push(
            BrokerEvent::Submitted(packet@),
        ).push(BrokerEvent::Answered(r)),
{
    let channel = reply_channel();
    match broker.submit(packet, channel) {
        Some(pending) => broker.await_reply(pending, BROKER_TIMEOUT_MS),
        None => Err(BrokerError::ChannelClosed),
    }
}

/// Why a QSID RPC failed.
#[derive(Debug, Clone, PartialEq, Eq)]
pub enum RpcError {
    Broker(BrokerError),
    Qsid(QsidError),
}

impl RpcError {
    pub open spec fn spec_message(self) -> Seq<char> {
        match self {
            RpcError::Broker(b) => b.spec_message(),
            RpcError::Qsid(q) => q.spec_message(),
        }
    }

    pub fn message(&self) -> (m: String)
        ensures
            m@ == self.spec_message(),
    {
        match self {
            RpcError::Broker(b) => b.message(),
            RpcError::Qsid(q) => q.message(),
        }
    }
}

/// An error that a device response can give: none at all, a non-zero
/// status, or too few bytes.
pub open spec fn is_response_error(e: QsidError) -> bool {
    e is EmptyResponse || e is DeviceStatus || e is ShortResponse
}

/// An error of the exchange with the device, as opposed to one of
/// building the request: the broker's, or one of the response.
pub open spec fn is_exchange_error(e: RpcError) -> bool {
    match e {
        RpcError::Broker(_) => true,
        RpcError::Qsid(q) => is_response_error(q),
    }
}

/// What a get request of `width` bytes makes of the broker's reply: its
/// error, or what the response parses to.
pub open spec fn spec_get_result(reply: BrokerReply, width: usize) -> Result<u32, RpcError> {
    match reply {
        Err(e) => Err(RpcError::Broker(e)),
        Ok(resp) => match spec_get_response(resp@, width) {
            Ok(v) => Ok(v),
            Err(q) => Err(RpcError::Qsid(q)),
        },
    }
}

/// The outcome of reading `qsid` as `width` bytes, given the traffic it had
/// with the broker: one get request for `qsid`, whose reply gives the
/// result. `None` for any other traffic.
pub open spec fn spec_get_outcome(qsid: u16, width: usize, ev: Seq<BrokerEvent>) -> Option<
    Result<u32, RpcError>,
> {
    if ev.len() == 2 && ev[0] == BrokerEvent::Submitted(spec_command_packet(CMD_QSID_GET, qsid)) {
        match ev[1] {
            BrokerEvent::Answered(reply) => Some(spec_get_result(reply, width)),
            _ => None,
        }
    } else {
        None
    }
}

/// The outcome of setting `qsid` to `value` in `width` bytes, given the
/// traffic it had with the broker. A request that cannot be built sends
/// nothing. Otherwise the set request goes first; its failure, or a
/// response that refuses it, ends there. Once it is acknowledged, a get
/// of `qsid` reads the value back, and that is the result.
pub open spec fn spec_set_outcome(qsid: u16, value: u32, width: usize, ev: Seq<BrokerEvent>) -> Option<
    Result<u32, RpcError>,
> {
    match spec_set_packet(qsid, value, width) {
        Err(e) => if ev.len() == 0 {
            Some(Err(RpcError::Qsid(e)))
        } else {
            None
        },
        Ok(p) => if ev.len() >= 2 && ev[0] == BrokerEvent::Submitted(p) {
            match ev[1] {
                BrokerEvent::Answered(Err(e)) => if ev.len() == 2 {
                    Some(Err(RpcError::Broker(e)))
                } else {
                    None
                },
                BrokerEvent::Answered(Ok(resp)) => match spec_set_response(resp@) {
                    Err(q) => if ev.len() == 2 {
                        Some(Err(RpcError::Qsid(q)))
                    } else {
                        None
                    },
                    Ok(_) => spec_get_outcome(qsid, width, ev.skip(2)),
                },
                _ => None,
            }
        } else {
            None
        },
    }
}

/// A refused set is reported, not read back: when the device answers the
/// set request with an empty response or a non-zero status byte, the
/// result is that error and no further request follows. A successful set
/// is read back: its result is the value of the answer to a get of the
/// same QSID that follows an acknowledged set.
pub proof fn lemma_set_reads_back_only_after_ack(
    qsid: u16,
    value: u32,
    width: usize,
    ev: Seq<BrokerEvent>,
    r: Result<u32, RpcError>,
)
    requires
        spec_set_outcome(qsid, value, width, ev) == Some(r),
    ensures
        ev.len() >= 2 ==> match ev[1] {
            BrokerEvent::Answered(Ok(resp)) => (resp@.len() == 0 ==> ev.len() == 2 && r == Err::<
                u32,
                RpcError,
            >(RpcError::Qsid(QsidError::EmptyResponse))) && (resp@.len() > 0 && resp@[0] != 0
                ==> ev.len() == 2 && r == Err::<u32, RpcError>(
                RpcError::Qsid(QsidError::DeviceStatus(resp@[0])),
            )),
            _ => true,
        },
        r matches Ok(v) ==> ev.len() == 4 && (ev[1] matches BrokerEvent::Answered(Ok(ack))
            && ack@.len() > 0 && ack@[0] == 0) && ev[2] == BrokerEvent::Submitted(
            spec_command_packet(CMD_QSID_GET, qsid),
        ) && (ev[3] matches BrokerEvent::Answered(Ok(resp)) && spec_get_response(resp@, width)
            == Ok::<u32, QsidError>(v)),
{
}

/// The traffic a client had with the broker since `before`.
pub open spec fn traffic_since(before: Seq<BrokerEvent>, after: Seq<BrokerEvent>) -> Seq<BrokerEvent> {
    after.skip(before.len() as int)
}

/// Whether `after` is `before` with more traffic after it.
pub open spec fn extends(before: Seq<BrokerEvent>, after: Seq<BrokerEvent>) -> bool {
    before.len() <= after.len() && after.take(before.len() as int) == before
}

/// Read a QSID of `width` bytes: one get request for `qsid`, and the
/// result is what its reply gives.
pub fn qsid_get_via_broker(broker: &mut BrokerClient, qsid: u16, width: usize) -> (r: Result<
    u32,
    RpcError,
>)
    requires
        width <= 4,
    ensures
        extends(old(broker).spec_log(), final(broker).spec_log()),
        spec_get_outcome(
            qsid,
            width,
            traffic_since(old(broker).spec_log(), final(broker).spec_log()),
        ) == Some(r),
{
    let ghost before = broker.spec_log();
    let pkt = build_get_packet(qsid);
    let reply = send_via_broker(broker, pkt);
    let ghost ev = traffic_since(before, broker.spec_log());
    assert(ev =~= seq![BrokerEvent::Submitted(pkt@), BrokerEvent::Answered(reply)]);
    assert(broker.spec_log().take(before.len() as int) =~= before);
    match reply {
        Ok(resp) => match parse_get_response(resp.as_slice(), width) {
            Ok(v) => Ok(v),
            Err(e) => Err(RpcError::Qsid(e)),
        },
        Err(e) => Err(RpcError::Broker(e)),
    }
}

/// Write a QSID, then read it back; returns the read-back value.
pub fn qsid_set_via_broker(broker: &mut BrokerClient, qsid: u16, value: u32, width: usize) -> (r:
    Result<u32, RpcError>)
    ensures
        extends(old(broker).spec_log(), final(broker).spec_log()),
        spec_set_outcome(
            qsid,
            value,
            width,
            traffic_since(old(broker).spec_log(), final(broker).spec_log()),
        ) == Some(r),
{
    let ghost before = broker.spec_log();
    let pkt = match build_set_packet(qsid, value, width) {
        Ok(p) => p,
        Err(e) => {
            assert(traffic_since(before, broker.spec_log()) =~= Seq::<BrokerEvent>::empty());
            assert(broker.spec_log().take(before.len() as int) =~= before);
            return Err(RpcError::Qsid(e));
        },
    };
    let reply = send_via_broker(broker, pkt);
    let ghost mid = broker.spec_log();
    assert(traffic_since(before, mid) =~= seq![BrokerEvent::Submitted(pkt@), BrokerEvent::Answered(reply)]);
    assert(mid.take(before.len() as int) =~= before);
    let resp = match reply {
        Ok(resp) => resp,
        Err(e) => return Err(RpcError::Broker(e)),
    };
    if let Err(e) = parse_set_response(resp.as_slice()) {
        return Err(RpcError::Qsid(e));
    }
    let r = qsid_get_via_broker(broker, qsid, width);
    proof {
        let all = traffic_since(before, broker.spec_log());
        assert(all.skip(2) =~= traffic_since(mid, broker.spec_log()));
        assert(all[0] == BrokerEvent::Submitted(pkt@));
        assert(all[1] == BrokerEvent::Answered(Ok::<Vec<u8>, BrokerError>(resp)));
        assert(broker.spec_log().take(before.len() as int) =~= before) by {
            assert forall|k: int| 0 <= k < before.len() implies broker.spec_log()[k] == before[k] by {
                assert(broker.spec_log().take(mid.len() as int)[k] == broker.spec_log()[k]);
                assert(mid.take(before.len() as int)[k] == mid[k]);
            }
        }
    }
    r
}

/// Strictly increasing: sorted, with no QSID twice.
pub open spec fn ascending(s: Seq<u16>) -> bool {
    forall|i: int, j: int| 0 <= i < j < s.len() ==> s[i] < s[j]
}

/// The largest of `cursor` and the QSIDs of `page`.
pub open spec fn page_max(cursor: u16, page: Seq<u16>) -> u16
    decreases page.len(),
{
    if page.len() == 0 {
        cursor
    } else {
        let m = page_max(cursor, page.drop_last());
        if page.last() > m {
            page.last()
        } else {
            m
        }
    }
}

/// Puts `q` into an ascending list unless it is there already.
fn insert_sorted(all: &mut Vec<u16>, q: u16)
    requires
        ascending(old(all)@),
    ensures
        ascending(final(all)@),
        final(all)@.to_set() == old(all)@.to_set().insert(q),
{
    let ghost before = all@;
    let n = all.len();
    let mut pos: usize = 0;
    while pos < n && all[pos] < q
        invariant
            n == all@.len(),
            all@ == before,
            pos <= n,
            forall|j: int| 0 <= j < pos ==> all@[j] < q,
        decreases n - pos,
    {
        pos = pos + 1;
    }
    if pos < n && all[pos] == q {
        assert(before.to_set().contains(q)) by {
            assert(before[pos as int] == q);
        }
        assert(before.to_set().insert(q) =~= before.to_set());
        return;
    }
    all.insert(pos, q);
    assert(ascending(all@)) by {
        assert forall|i: int, j: int| 0 <= i < j < all@.len() implies all@[i] < all@[j] by {
            if j < pos {
            } else if i > pos {
                assert(before[i - 1] < before[j - 1]);
            } else if i == pos {
                if j - 1 > pos {
                    assert(before[pos as int] < before[j - 1]);
                }
            } else if j == pos {
            } else {
                if j - 1 > pos {
                    assert(before[pos as int] < before[j - 1]);
                }
            }
        }
    }
    assert(all@.to_set() =~= before.to_set().insert(q)) by {
        assert forall|x: u16| all@.to_set().contains(x) implies before.to_set().insert(q).contains(x) by {
            let k = choose|k: int| 0 <= k < all@.len() && all@[k] == x;
            if k < pos {
                assert(before[k] == x);
            } else if k > pos {
                assert(before[k - 1] == x);
            }
        }
        assert forall|x: u16| before.to_set().insert(q).contains(x) implies all@.to_set().contains(x) by {
            if x == q {
                assert(all@[pos as int] == q);
            } else {
                let k = choose|k: int| 0 <= k < before.len() && before[k] == x;
                if k < pos {
                    assert(all@[k] == x);
                } else {
                    assert(all@[k + 1] == x);
                }
            }
        }
    }
}

/// Progress of a paged QSID listing: what was seen, where the next query
/// starts, and whether the listing is complete.
pub struct QsidListing {
    all: Vec<u16>,
    cursor: u16,
    done: bool,
}

impl QsidListing {
    #[verifier::type_invariant]
    spec fn ascending_inv(self) -> bool {
        ascending(self.all@)
    }

    /// The QSIDs seen so far.
    pub closed spec fn spec_seen(self) -> Set<u16> {
        self.all@.to_set()
    }

    /// Where the next query starts.
    pub closed spec fn spec_cursor(self) -> u16 {
        self.cursor
    }

    /// Whether no further query is needed.
    pub closed spec fn spec_done(self) -> bool {
        self.done
    }

    pub fn new() -> (l: Self)
        ensures
            l.spec_seen() == Set::<u16>::empty(),
            l.spec_cursor() == 0,
            !l.spec_done(),
    {
        let l = QsidListing { all: Vec::new(), cursor: 0, done: false };
        assert(l.all@.to_set() =~= Set::<u16>::empty());
        l
    }

    pub fn cursor(&self) -> (c: u16)
        ensures
            c == self.spec_cursor(),
    {
        self.cursor
    }

    pub fn is_done(&self) -> (d: bool)
        ensures
            d == self.spec_done(),
    {
        self.done
    }

    /// Takes in one response page: its QSIDs join the seen set; the listing
    /// is complete when the page carried the terminator or raised no QSID
    /// above the cursor, and otherwise continues from the largest QSID seen.
    pub fn absorb(&mut self, page: &Vec<u16>, end: bool)
        ensures
            final(self).spec_seen() == old(self).spec_seen().union(page@.to_set()),
            final(self).spec_done() == (end || page_max(old(self).spec_cursor(), page@) == old(
                self,
            ).spec_cursor()),
            final(self).spec_cursor() == (if final(self).spec_done() {
                old(self).spec_cursor()
            } else {
                page_max(old(self).spec_cursor(), page@)
            }),
    {
        proof {
            use_type_invariant(&*self);
        }
        let ghost seen0 = self.all@.to_set();
        let cursor = self.cursor;
        let mut all: Vec<u16> = Vec::new();
        std::mem::swap(&mut all, &mut self.all);
        let mut new_max = cursor;
        let n = page.len();
        let mut i: usize = 0;
        assert(page@.subrange(0, 0) =~= Seq::<u16>::empty());
        assert(seen0.union(Set::<u16>::empty()) =~= seen0);
        while i < n
            invariant
                n == page@.len(),
                i <= n,
                ascending(all@),
                all@.to_set() == seen0.union(page@.subrange(0, i as int).to_set()),
                new_max == page_max(cursor, page@.subrange(0, i as int)),
            decreases n - i,
        {
            let q = page[i];
            insert_sorted(&mut all, q);
            if q > new_max {
                new_max = q;
            }
            let ghost pre = page@.subrange(0, i as int);
            i = i + 1;
            assert(page@.subrange(0, i as int).drop_last() =~= pre);
            assert(page@.subrange(0, i as int) =~= pre.push(q));
            assert(pre.push(q).to_set() =~= pre.to_set().insert(q)) by {
                pre.lemma_push_to_set_commute(q);
            }
            assert(seen0.union(pre.to_set()).insert(q) =~= seen0.union(pre.push(q).to_set()));
        }
        assert(page@.subrange(0, n as int) =~= page@);
        self.all = all;
        let done = end || new_max == cursor;
        self.done = done;
        if !done {
            self.cursor = new_max;
        }
    }

    /// The QSIDs seen, ascending.
    pub fn finish(self) -> (qsids: Vec<u16>)
        ensures
            ascending(qsids@),
            qsids@.to_set() == self.spec_seen(),
    {
        proof {
            use_type_invariant(&self);
        }
        self.all
    }
}

/// Where a listing stands: the cursor the next query starts at, the QSIDs
/// seen, whether it is complete, and the broker's error if it failed.
pub struct ListState {
    pub cursor: u16,
    pub seen: Set<u16>,
    pub done: bool,
    pub failed: Option<BrokerError>,
}

/// Where a listing stands after the traffic `ev` with the broker. It starts
/// at cursor 0 with nothing seen; each step is a query from the cursor and
/// its reply. A failed reply ends the listing with its error; a page adds
/// its QSIDs, and ends the listing when it carries the terminator or raises
/// nothing above the cursor, which otherwise moves to the largest QSID
/// seen. `None` when `ev` is not such a sequence of steps, or goes on after
/// the end.
pub open spec fn spec_list_state(ev: Seq<BrokerEvent>) -> Option<ListState>
    decreases ev.len(),
{
    if ev.len() == 0 {
        Some(ListState { cursor: 0, seen: Set::empty(), done: false, failed: None })
    } else if ev.len() < 2 {
        None
    } else {
        match spec_list_state(ev.take(ev.len() - 2)) {
            Some(st) => if !st.done && st.failed is None && ev[ev.len() - 2]
                == BrokerEvent::Submitted(spec_command_packet(CMD_QSID_QUERY, st.cursor)) {
                match ev[ev.len() - 1] {
                    BrokerEvent::Answered(Err(e)) => Some(
                        ListState { cursor: st.cursor, seen: st.seen, done: st.done, failed: Some(e) },
                    ),
                    BrokerEvent::Answered(Ok(resp)) => {
                        let page = spec_query_from(resp@, 0).0;
                        let end = spec_query_from(resp@, 0).1;
                        let next = page_max(st.cursor, page);
                        let done = end || next == st.cursor;
                        Some(
                            ListState {
                                cursor: if done {
                                    st.cursor
                                } else {
                                    next
                                },
                                seen: st.seen.union(page.to_set()),
                                done,
                                failed: None,
                            },
                        )
                    },
                    _ => None,
                }
            } else {
                None
            },
            None => None,
        }
    }
}

/// The QSIDs of the pages that came back in the broker traffic `ev`.
pub open spec fn answered_qsids(ev: Seq<BrokerEvent>) -> Set<u16>
    decreases ev.len(),
{
    if ev.len() == 0 {
        Set::empty()
    } else {
        let before = answered_qsids(ev.drop_last());
        match ev.last() {
            BrokerEvent::Answered(Ok(resp)) => before.union(spec_query_from(resp@, 0).0.to_set()),
            _ => before,
        }
    }
}

/// `c` is the largest of 0 and the QSIDs in `seen`.
pub open spec fn is_top(c: u16, seen: Set<u16>) -> bool {
    (c == 0 || seen.contains(c)) && forall|q: u16| seen.contains(q) ==> q <= c
}

/// The running maximum is the cursor or a QSID of the page, and no QSID of
/// the page exceeds it.
proof fn lemma_page_max_is_top(c: u16, page: Seq<u16>)
    ensures
        page_max(c, page) == c || page.contains(page_max(c, page)),
        page_max(c, page) >= c,
        forall|i: int| 0 <= i < page.len() ==> page[i] <= page_max(c, page),
    decreases page.len(),
{
    if page.len() > 0 {
        let rest = page.drop_last();
        lemma_page_max_is_top(c, rest);
        let m = page_max(c, rest);
        if rest.contains(m) && m != c {
            let j = choose|j: int| 0 <= j < rest.len() && rest[j] == m;
            assert(page[j] == m);
        }
        assert(page[page.len() - 1] == page.last());
        assert forall|i: int| 0 <= i < page.len() implies page[i] <= page_max(c, page) by {
            if i < page.len() - 1 {
                assert(page[i] == rest[i]);
            }
        }
    }
}

/// What a listing's state keeps: the QSIDs seen are those of the pages that
/// came back, and while the listing goes on its cursor is the largest of 0
/// and those QSIDs.
proof fn lemma_list_state_tracks(ev: Seq<BrokerEvent>)
    requires
        spec_list_state(ev) is Some,
    ensures
        spec_list_state(ev)->Some_0.seen == answered_qsids(ev),
        !spec_list_state(ev)->Some_0.done ==> is_top(
            spec_list_state(ev)->Some_0.cursor,
            spec_list_state(ev)->Some_0.seen,
        ),
    decreases ev.len(),
{
    if ev.len() == 0 {
        assert(spec_list_state(ev)->Some_0.seen =~= Set::<u16>::empty());
    } else {
        let pre = ev.take(ev.len() - 2);
        lemma_list_state_tracks(pre);
        let st = spec_list_state(pre)->Some_0;
        assert(ev.drop_last().drop_last() =~= pre);
        assert(ev.drop_last().last() == ev[ev.len() - 2]);
        assert(answered_qsids(ev.drop_last()) == answered_qsids(pre));
        match ev[ev.len() - 1] {
            BrokerEvent::Answered(Ok(resp)) => {
                let page = spec_query_from(resp@, 0).0;
                let m = page_max(st.cursor, page);
                lemma_page_max_is_top(st.cursor, page);
                let seen2 = st.seen.union(page.to_set());
                assert(answered_qsids(ev) == seen2);
                let st2 = spec_list_state(ev)->Some_0;
                if !st2.done {
                    assert(st2.cursor == m);
                    if m != st.cursor {
                        assert(page.contains(m));
                        assert(page.to_set().contains(m));
                    }
                    assert forall|q: u16| seen2.contains(q) implies q <= m by {
                        if !st.seen.contains(q) {
                            assert(page.to_set().contains(q));
                            let j = choose|j: int| 0 <= j < page.len() && page[j] == q;
                        }
                    }
                }
            },
            _ => {},
        }
    }
}

/// The queries of a listing: the first starts at 0, and each later one at
/// the largest QSID that the pages before it brought (0 while none did).
/// Every other event is the answer to the query before it.
pub proof fn lemma_list_queries(ev: Seq<BrokerEvent>, i: int)
    requires
        spec_list_state(ev) is Some,
        0 <= i < ev.len(),
    ensures
        i % 2 == 0 ==> exists|c: u16|
            ev[i] == BrokerEvent::Submitted(spec_command_packet(CMD_QSID_QUERY, c)) && is_top(
                c,
                answered_qsids(ev.take(i)),
            ),
        i == 0 ==> ev[0] == BrokerEvent::Submitted(spec_command_packet(CMD_QSID_QUERY, 0)),
        i % 2 == 1 ==> ev[i] is Answered,
    decreases ev.len(),
{
    let pre = ev.take(ev.len() - 2);
    let st = spec_list_state(pre)->Some_0;
    if i < ev.len() - 2 {
        lemma_list_queries(pre, i);
        assert(pre[i] == ev[i]);
        assert(pre.take(i) =~= ev.take(i));
    } else {
        assert(pre.len() % 2 == 0) by {
            lemma_list_state_even(pre);
        }
        if i == ev.len() - 2 {
            lemma_list_state_tracks(pre);
            assert(ev.take(i) =~= pre);
            assert(is_top(st.cursor, answered_qsids(ev.take(i))));
            if i == 0 {
                assert(answered_qsids(ev.take(0)) =~= Set::<u16>::empty());
            }
        }
    }
}

/// A listing's traffic comes in query/answer pairs.
proof fn lemma_list_state_even(ev: Seq<BrokerEvent>)
    requires
        spec_list_state(ev) is Some,
    ensures
        ev.len() % 2 == 0,
    decreases ev.len(),
{
    if ev.len() > 0 {
        lemma_list_state_even(ev.take(ev.len() - 2));
    }
}

/// The state of a listing that is under way.
pub open spec fn listing_state(l: QsidListing) -> ListState {
    ListState { cursor: l.spec_cursor(), seen: l.spec_seen(), done: l.spec_done(), failed: None }
}

/// Every QSID that the keyboard lists, ascending. Queries page by page:
/// the first query starts at 0, each later one at the largest QSID seen,
/// until a page carries the `0xFFFF` terminator or brings nothing beyond
/// the cursor. The result holds exactly the QSIDs of the pages received;
/// a failed exchange is the error.
pub fn qsid_list_via_broker(broker: &mut BrokerClient) -> (r: Result<Vec<u16>, RpcError>)
    ensures
        extends(old(broker).spec_log(), final(broker).spec_log()),
        ({
            let st = spec_list_state(traffic_since(old(broker).spec_log(), final(broker).spec_log()));
            match r {
                Ok(qsids) => ascending(qsids@) && (st matches Some(s) && s.done && s.failed is None
                    && qsids@.to_set() == s.seen),
                Err(RpcError::Broker(e)) => st matches Some(s) && s.failed == Some(e),
                Err(RpcError::Qsid(_)) => false,
            }
        }),
{
    let ghost before = broker.spec_log();
    let mut listing = QsidListing::new();
    assert(traffic_since(before, broker.spec_log()) =~= Seq::<BrokerEvent>::empty());
    assert(broker.spec_log().take(before.len() as int) =~= before);
    while !listing.is_done()
        invariant
            before == old(broker).spec_log(),
            extends(before, broker.spec_log()),
            spec_list_state(traffic_since(before, broker.spec_log())) == Some(
                listing_state(listing),
            ),
        decreases 0x1_0001 - listing.spec_cursor() - (if listing.spec_done() {
            1int
        } else {
            0int
        }),
    {
        let ghost log0 = broker.spec_log();
        let ghost ev0 = traffic_since(before, log0);
        let pkt = build_query_packet(listing.cursor());
        let reply = send_via_broker(broker, pkt);
        let ghost log1 = broker.spec_log();
        let ghost ev1 = traffic_since(before, log1);
        proof {
            assert(ev1 =~= ev0.push(BrokerEvent::Submitted(pkt@)).push(BrokerEvent::Answered(reply)));
            assert(ev1.take(ev1.len() - 2) =~= ev0);
            assert(log1.take(before.len() as int) =~= before) by {
                assert forall|k: int| 0 <= k < before.len() implies log1[k] == before[k] by {
                    assert(log0.take(before.len() as int)[k] == log0[k]);
                }
            }
        }
        let resp = match reply {
            Ok(resp) => resp,
            Err(e) => return Err(RpcError::Broker(e)),
        };
        let (page, end) = parse_query_response(resp.as_slice());
        let ghost c0 = listing.spec_cursor();
        listing.absorb(&page, end);
        proof {
            lemma_page_max_ge(c0, page@);
        }
    }
    Ok(listing.finish())
}

/// The running maximum never drops below the cursor, so a listing that is
/// not done has moved its cursor strictly forward.
pub proof fn lemma_page_max_ge(cursor: u16, page: Seq<u16>)
    ensures
        page_max(cursor, page) >= cursor,
    decreases page.len(),
{
    if page.len() > 0 {
        lemma_page_max_ge(cursor, page.drop_last());
    }
}

/// A request from a socket client.
#[derive(Debug, Clone, PartialEq, Eq)]
pub enum RpcRequest {
    QsidList,
    QsidGet { qsid: u16, width: Option<usize> },
    QsidSet { qsid: u16, value: u32, width: Option<usize> },
    Ping,
    ReloadConfig,
}

/// One entry of a QSID listing, with the name and width when the QSID is
/// a known one.
#[derive(Debug, Clone, PartialEq, Eq)]
pub struct QsidEntry {
    pub qsid: u16,
    pub name: Option<&'static str>,
    pub width: Option<usize>,
}

/// What a request is answered with.
#[derive(Debug, Clone, PartialEq, Eq)]
pub enum RpcReply {
    Pong,
    QsidList(Vec<QsidEntry>),
    QsidValue { qsid: u16, value: u32 },
    /// Reloading the configuration is the daemon's own business; the
    /// request is passed on to it.
    ReloadRequested,
    Failed(RpcError),
}

/// The listing entry for `qsid`: its known name and width, if any.
pub open spec fn spec_entry_matches(e: QsidEntry) -> bool {
    match spec_known_qsid(e.qsid) {
        Some(k) => e.name matches Some(n) && n@ == k.0 && e.width == Some(k.1),
        None => e.name is None && e.width is None,
    }
}

fn describe_qsids(qsids: &Vec<u16>) -> (entries: Vec<QsidEntry>)
    ensures
        entries@.len() == qsids@.len(),
        forall|i: int|
            0 <= i < qsids@.len() ==> #[trigger] entries@[i].qsid == qsids@[i] && spec_entry_matches(
                entries@[i],
            ),
{
    broadcast use vstd::std_specs::btree::group_btree_axioms, vstd::laws_cmp::group_laws_cmp;

    let known = known_qsids();
    let mut entries: Vec<QsidEntry> = Vec::new();
    let n = qsids.len();
    let mut i: usize = 0;
    while i < n
        invariant
            n == qsids@.len(),
            i <= n,
            entries@.len() == i,
            forall|q: u16| #[trigger] known@.contains_key(q) <==> spec_known_qsid(q) is Some,
            forall|q: u16|
                #[trigger] known@.contains_key(q) ==> (known@[q].0@, known@[q].1)
                    == spec_known_qsid(q)->Some_0,
            forall|j: int|
                0 <= j < i ==> #[trigger] entries@[j].qsid == qsids@[j] && spec_entry_matches(
                    entries@[j],
                ),
        decreases n - i,
    {
        let q = qsids[i];
        let entry = match known.get(&q) {
            Some(k) => {
                assert(known@.contains_key(q));
                QsidEntry { qsid: q, name: Some(k.0), width: Some(k.1) }
            },
            None => QsidEntry { qsid: q, name: None, width: None },
        };
        entries.push(entry);
        i = i + 1;
    }
    entries
}

/// The reply to a get or set of `qsid` with outcome `r`.
pub open spec fn spec_value_reply(qsid: u16, r: Result<u32, RpcError>) -> RpcReply {
    match r {
        Ok(v) => RpcReply::QsidValue { qsid, value: v },
        Err(e) => RpcReply::Failed(e),
    }
}

/// The QSIDs of a listing's entries, in order.
pub open spec fn entry_qsids(entries: Seq<QsidEntry>) -> Seq<u16> {
    entries.map_values(|e: QsidEntry| e.qsid)
}

/// Answers one client request, using the broker for the QSID requests.
/// Pings, reloads and requests whose width does not resolve are answered
/// without any traffic with the broker.
pub fn dispatch(broker: &mut BrokerClient, req: RpcRequest) -> (reply: RpcReply)
    ensures
        extends(old(broker).spec_log(), final(broker).spec_log()),
        ({
            let ev = traffic_since(old(broker).spec_log(), final(broker).spec_log());
            match req {
                RpcRequest::Ping => reply is Pong && ev.len() == 0,
                RpcRequest::ReloadConfig => reply is ReloadRequested && ev.len() == 0,
                RpcRequest::QsidGet { qsid, width } => match spec_resolve_width(qsid, width) {
                    Err(e) => reply == RpcReply::Failed(RpcError::Qsid(e)) && ev.len() == 0,
                    Ok(w) => (spec_get_outcome(qsid, w, ev) matches Some(r) && reply
                        == spec_value_reply(qsid, r)),
                },
                RpcRequest::QsidSet { qsid, value, width } => match spec_resolve_width(qsid, width) {
                    Err(e) => reply == RpcReply::Failed(RpcError::Qsid(e)) && ev.len() == 0,
                    Ok(w) => (spec_set_outcome(qsid, value, w, ev) matches Some(r) && reply
                        == spec_value_reply(qsid, r)),
                },
                RpcRequest::QsidList => match reply {
                    RpcReply::QsidList(entries) => (spec_list_state(ev) matches Some(s) && s.done
                        && s.failed is None && ascending(entry_qsids(entries@)) && entry_qsids(
                        entries@,
                    ).to_set() == s.seen && forall|i: int|
                        0 <= i < entries@.len() ==> #[trigger] spec_entry_matches(entries@[i])),
                    RpcReply::Failed(RpcError::Broker(e)) => (spec_list_state(ev) matches Some(s)
                        && s.failed == Some(e)),
                    _ => false,
                },
            }
        }),
{
    let ghost before = broker.spec_log();
    proof {
        assert(traffic_since(before, before) =~= Seq::<BrokerEvent>::empty());
        assert(before.take(before.len() as int) =~= before);
    }
    match req {
        RpcRequest::Ping => RpcReply::Pong,
        RpcRequest::ReloadConfig => RpcReply::ReloadRequested,
        RpcRequest::QsidList => match qsid_list_via_broker(broker) {
            Ok(qsids) => {
                let entries = describe_qsids(&qsids);
                assert(entry_qsids(entries@) =~= qsids@);
                assert forall|i: int| 0 <= i < entries@.len() implies #[trigger] spec_entry_matches(
                    entries@[i],
                ) by {
                    assert(entries@[i].qsid == qsids@[i]);
                }
                RpcReply::QsidList(entries)
            },
            Err(e) => RpcReply::Failed(e),
        },
        RpcRequest::QsidGet { qsid, width } => match resolve_width(qsid, width) {
            Ok(w) => match qsid_get_via_broker(broker, qsid, w) {
                Ok(v) => RpcReply::QsidValue { qsid, value: v },
                Err(e) => RpcReply::Failed(e),
            },
            Err(e) => RpcReply::Failed(RpcError::Qsid(e)),
        },
        RpcRequest::QsidSet { qsid, value, width } => match resolve_width(qsid, width) {
            Ok(w) => match qsid_set_via_broker(broker, qsid, value, w) {
                Ok(v) => RpcReply::QsidValue { qsid, value: v },
                Err(e) => RpcReply::Failed(e),
            },
            Err(e) => RpcReply::Failed(RpcError::Qsid(e)),
        },
    }
}

/// The reply that a read carries: the bytes of a non-empty read that is
/// not a pushed state snapshot (those start with `0xAB`).
pub open spec fn spec_qsid_reply(data: Seq<u8>) -> Option<Seq<u8>> {
    if data.len() == 0 || data[0] == 0xAB {
        None
    } else {
        Some(data)
    }
}

/// A read of a QSID exchange, with `QSID_READ_TIMEOUT_MS`, that carries no
/// reply: a timeout or a state packet.
pub open spec fn skipped_read(e: IoEvent) -> bool {
    e matches IoEvent::ReadWithin(t, d) && t == QSID_READ_TIMEOUT_MS && spec_qsid_reply(d) is None
}

/// How a QSID request goes, given the calls it made on the transport:
/// `packet` is written; if that fails, nothing more happens. Otherwise
/// reads with a timeout of `QSID_READ_TIMEOUT_MS` follow until one carries
/// a reply (the result), one fails, or `QSID_RESPONSE_READS` reads carried
/// none.
pub open spec fn spec_qsid_exchange(packet: Seq<u8>, calls: Seq<IoEvent>, r: BrokerReply) -> bool {
    calls.len() >= 1 && match calls[0] {
        IoEvent::WriteFailed(p) => p == packet && calls.len() == 1 && r matches Err(
            BrokerError::Write(_),
        ),
        IoEvent::Wrote(p) => {
            let reads = calls.drop_first();
            &&& p == packet
            &&& 1 <= reads.len() <= QSID_RESPONSE_READS
            &&& forall|i: int| 0 <= i < reads.len() - 1 ==> #[trigger] skipped_read(reads[i])
            &&& match reads.last() {
                IoEvent::ReadWithinFailed(t) => t == QSID_READ_TIMEOUT_MS && r matches Err(
                    BrokerError::Read(_),
                ),
                IoEvent::ReadWithin(t, d) => t == QSID_READ_TIMEOUT_MS && match spec_qsid_reply(d) {
                    Some(reply) => r matches Ok(v) && v@ == reply,
                    None => reads.len() == QSID_RESPONSE_READS && r matches Err(
                        BrokerError::NoQsidResponse,
                    ),
                },
                _ => false,
            }
        },
        _ => false,
    }
}

/// The reply carried by a read of `n` bytes into `buf`, if any.
pub fn qsid_reply_of(n: usize, buf: &[u8; PACKET_LEN]) -> (r: Option<Vec<u8>>)
    requires
        n <= PACKET_LEN,
    ensures
        match spec_qsid_reply(buf@.take(n as int)) {
            Some(d) => r matches Some(v) && v@ == d,
            None => r is None,
        },
{
    if n == 0 || buf[0] == 0xAB {
        return None;
    }
    let mut resp: Vec<u8> = Vec::new();
    let mut i: usize = 0;
    while i < n
        invariant
            n <= PACKET_LEN,
            buf@.len() == PACKET_LEN,
            i <= n,
            resp@ == buf@.take(i as int),
        decreases n - i,
    {
        resp.push(buf[i]);
        i = i + 1;
        assert(resp@ =~= buf@.take(i as int));
    }
    Some(resp)
}

/// Writes a QSID request to the device and reads until a packet that is
/// not a pushed state snapshot arrives; that packet is the response.
/// State packets that arrive in between are dropped; empty reads
/// (timeouts) are skipped. Gives up after `QSID_RESPONSE_READS` reads.
pub fn perform_qsid_request<T: HidTransport>(
    transport: &mut T,
    packet: &[u8; PACKET_LEN],
    buf: &mut [u8; PACKET_LEN],
) -> (r: BrokerReply)
    ensures
        final(transport).io_log().len() > old(transport).io_log().len(),
        final(transport).io_log().take(old(transport).io_log().len() as int) == old(
            transport,
        ).io_log(),
        spec_qsid_exchange(
            packet@,
            final(transport).io_log().skip(old(transport).io_log().len() as int),
            r,
        ),
        r matches Ok(resp) ==> 0 < resp@.len() <= PACKET_LEN && resp@[0] != 0xAB
            && resp@ == final(buf)@.take(resp@.len() as int),
{
    let ghost before = transport.io_log();
    let ghost start = before.len() as int;
    if let Err(e) = transport.write(packet.as_slice()) {
        assert(transport.io_log().skip(start) =~= seq![IoEvent::WriteFailed(packet@)]);
        return Err(BrokerError::Write(e));
    }
    let ghost base = transport.io_log();
    assert(base.take(start) =~= before);
    let mut tries: usize = 0;
    while tries < QSID_RESPONSE_READS
        invariant
            buf@.len() == PACKET_LEN,
            start == before.len(),
            before == old(transport).io_log(),
            base == before.push(IoEvent::Wrote(packet@)),
            tries <= QSID_RESPONSE_READS,
            transport.io_log().len() == base.len() + tries,
            transport.io_log().take(base.len() as int) == base,
            forall|i: int|
                base.len() <= i < transport.io_log().len() ==> #[trigger] skipped_read(
                    transport.io_log()[i],
                ),
        decreases QSID_RESPONSE_READS - tries,
    {
        let ghost log0 = transport.io_log();
        tries = tries + 1;
        let res = transport.read_timeout(buf, QSID_READ_TIMEOUT_MS);
        let ghost log1 = transport.io_log();
        proof {
            let calls = log1.skip(start);
            let reads = calls.drop_first();
            assert(log1.take(log0.len() as int) =~= log0);
            assert(log1.take(base.len() as int) =~= base) by {
                assert forall|k: int| 0 <= k < base.len() implies log1[k] == base[k] by {
                    assert(log0.take(base.len() as int)[k] == log0[k]);
                }
            }
            assert(calls[0] == log1[start]);
            assert(log1[start] == base[start]);
            assert(reads.len() == tries);
            assert forall|i: int| 0 <= i < reads.len() - 1 implies #[trigger] skipped_read(
                reads[i],
            ) by {
                assert(reads[i] == log1[start + 1 + i]);
                assert(log1[start + 1 + i] == log0[start + 1 + i]);
            }
            assert(reads.last() == log1[log1.len() - 1]);
            assert(log1.len() > start);
        }
        let n = match res {
            Ok(n) => n,
            Err(e) => return Err(BrokerError::Read(e)),
        };
        match qsid_reply_of(n, buf) {
            Some(resp) => {
                return Ok(resp);
            },
            None => {},
        }
        proof {
            assert forall|i: int|
                base.len() <= i < transport.io_log().len() implies #[trigger] skipped_read(
                transport.io_log()[i],
            ) by {
                if i < log0.len() {
                    assert(log1[i] == log0[i]);
                }
            }
            assert(transport.io_log().take(base.len() as int) =~= base) by {
                assert forall|k: int| 0 <= k < base.len() implies log1[k] == base[k] by {
                    assert(log1[k] == log0[k]);
                    assert(log0.take(base.len() as int)[k] == log0[k]);
                }
            }
        }
    }
    proof {
        let log = transport.io_log();
        let calls = log.skip(start);
        let reads = calls.drop_first();
        assert(calls[0] == base[start]);
        assert(reads.len() == QSID_RESPONSE_READS);
        assert forall|i: int| 0 <= i < reads.len() implies #[trigger] skipped_read(reads[i]) by {
            assert(reads[i] == log[start + 1 + i]);
        }
        assert(skipped_read(reads[reads.len() - 1]));
        assert(log.take(start) =~= before) by {
            assert forall|k: int| 0 <= k < start implies log[k] == before[k] by {
                assert(log.take(base.len() as int)[k] == log[k]);
            }
        }
    }
    Err(BrokerError::NoQsidResponse)
}

/// How long the broker's reads wait for a state packet between requests,
/// in milliseconds.
pub const BROKER_POLL_MS: i32 = 100;

/// How long the broker pauses after a failed read, in milliseconds.
pub const BROKER_ERROR_PAUSE_MS: u64 = 100;

/// What the broker does after a read between requests.
#[derive(Debug, Clone, Copy, PartialEq, Eq)]
pub enum PollAction {
    /// Nothing arrived: check for requests again.
    Retry,
    /// A pushed state snapshot arrived: hand it on.
    StatePacket,
    /// Something else arrived unasked: drop it.
    Drop,
    /// The read failed: pause for this many milliseconds.
    Pause(u64),
}

/// The broker's choice after a read between requests: a failed read pauses,
/// an empty one retries, and a packet is handed on when it is a state
/// snapshot and dropped otherwise.
pub open spec fn spec_poll_action(read: Result<usize, TransportError>, buf: Seq<u8>) -> PollAction {
    match read {
        Err(_) => PollAction::Pause(BROKER_ERROR_PAUSE_MS),
        Ok(n) => if n == 0 {
            PollAction::Retry
        } else if spec_is_state_packet(buf) {
            PollAction::StatePacket
        } else {
            PollAction::Drop
        },
    }
}

pub fn poll_action(read: &Result<usize, TransportError>, buf: &[u8; PACKET_LEN]) -> (a: PollAction)
    ensures
        a == spec_poll_action(*read, buf@),
{
    match read {
        Err(_) => PollAction::Pause(BROKER_ERROR_PAUSE_MS),
        Ok(n) => if *n == 0 {
            PollAction::Retry
        } else if is_state_packet(buf.as_slice()) {
            PollAction::StatePacket
        } else {
            PollAction::Drop
        },
    }
}

} // verus!
