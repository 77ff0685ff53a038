//! The client side of the HID broker: the only code that hands requests to
//! the broker thread and waits for its replies, and the only code that
//! extends the record of that traffic.

use std::sync::mpsc::{Receiver, RecvTimeoutError, Sender};

use vstd::prelude::*;

use crate::rpc::{BrokerError, BrokerReply, BrokerRequest, BrokerSender, RecvFailure};
use crate::vial_qsid::PACKET_LEN;

verus! {

#[verifier::external_type_specification]
#[verifier::external_body]
#[verifier::reject_recursive_types(T)]
pub struct ExSender<T>(Sender<T>);

#[verifier::external_type_specification]
#[verifier::external_body]
#[verifier::reject_recursive_types(T)]
pub struct ExReceiver<T>(Receiver<T>);

/// One step of the traffic between a client and the broker.
pub enum BrokerEvent {
    /// A request carrying this packet was handed to the broker.
    Submitted(Seq<u8>),
    /// How the exchange for the request before it ended: the broker's
    /// reply, or why none came.
    Answered(BrokerReply),
}

/// A fresh one-shot channel for the broker's reply: the sending half goes
/// with a request, the receiving half is waited on.
pub struct ReplyChannel {
    tx: Sender<BrokerReply>,
    rx: Receiver<BrokerReply>,
}

/// The wait for the reply to a request that the broker took.
pub struct PendingReply {
    rx: Receiver<BrokerReply>,
}

/// The client side of the broker: hands it requests and waits for the
/// replies. Its log, a specification model with no value at run time,
/// holds the traffic so far, oldest first; only `submit` and
/// `await_reply` extend it.
pub struct BrokerClient {
    tx: BrokerSender,
    log: Ghost<Seq<BrokerEvent>>,
}

/// Creates the channel on which the broker answers one request.
///
/// Calls `std::sync::mpsc::channel`; nothing is claimed of the pair beyond
/// that its halves belong together, which the type keeps.
#[verifier::external_body]
pub(crate) fn reply_channel() -> ReplyChannel {
    let (tx, rx) = std::sync::mpsc::channel();
    ReplyChannel { tx, rx }
}

impl BrokerClient {
    /// The traffic with the broker so far.
    pub closed spec fn spec_log(&self) -> Seq<BrokerEvent> {
        self.log@
    }

    /// A client of the broker that receives on the other end of `tx`.
    pub fn new(tx: BrokerSender) -> (c: Self)
        ensures
            c.spec_log() == Seq::<BrokerEvent>::empty(),
    {
        BrokerClient { tx, log: Ghost(Seq::empty()) }
    }

    /// Hands a request carrying `packet`, with `reply` to answer on, to the
    /// broker thread.
    ///
    /// Calls `Sender::send`, which passes the request on unchanged and
    /// fails only when the broker's receiving end is gone. Nothing is
    /// claimed about which happens. The log records the request, and, when
    /// the send failed, that the exchange ended with `ChannelClosed`.
    #[verifier::external_body]
    pub(crate) fn submit(&mut self, packet: [u8; PACKET_LEN], reply: ReplyChannel) -> (r: Option<
        PendingReply,
    >)
        ensures
            r is Some ==> final(self).spec_log() == old(self).spec_log().push(
                BrokerEvent::Submitted(packet@),
            ),
            r is None ==> final(self).spec_log() == old(self).spec_log().push(
                BrokerEvent::Submitted(packet@),
            ).push(BrokerEvent::Answered(Err(BrokerError::ChannelClosed))),
    {
        let ReplyChannel { tx, rx } = reply;
        match self.tx.send(BrokerRequest { packet, reply: tx }) {
            Ok(()) => Some(PendingReply { rx }),
            Err(_) => None,
        }
    }

    /// Waits up to `timeout_ms` for the broker's reply to the request that
    /// `pending` belongs to.
    ///
    /// Calls `Receiver::recv_timeout`; what comes back depends on the
    /// broker thread and the clock, so nothing is claimed about it. The log
    /// records it: the reply, or `NoResponse` with why none came.
    #[verifier::external_body]
    pub(crate) fn await_reply(&mut self, pending: PendingReply, timeout_ms: u64) -> (r: BrokerReply)
        ensures
            final(self).spec_log() == old(self).spec_log().push(BrokerEvent::Answered(r)),
    {
        match pending.rx.recv_timeout(std::time::Duration::from_millis(timeout_ms)) {
            Ok(reply) => reply,
            Err(RecvTimeoutError::Timeout) => Err(BrokerError::NoResponse(RecvFailure::Timeout)),
            Err(RecvTimeoutError::Disconnected) => Err(
                BrokerError::NoResponse(RecvFailure::Disconnected),
            ),
        }
    }
}

} // verus!
