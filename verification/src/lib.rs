//! Decoding and bookkeeping for the keyboard state daemon: raw-HID state
//! packets, Vial QSID requests, configuration and event-sink plumbing.
//!
//! The daemon's read loop lives in the binary; the decisions it makes on
//! each read (back off, publish a changed state, stop) are `RunLoop`'s.


pub mod broker;
pub mod cli;
pub mod config;
pub mod handlers;
pub mod layer_names;
pub mod mods;
pub mod output;
pub mod packet;
pub mod rpc;
pub mod sink;
pub mod sinks;
pub mod sketchybar;
pub mod text;
pub mod transport;
pub mod vial_qsid;

use vstd::prelude::*;

use crate::handlers::state::{
    spec_state_payload, spec_u32_le, PayloadView, StatePayload, STATE_MSG_ID, STATE_PACKET_LEN,
};
use crate::vial_qsid::spec_is_qsid_response;
use crate::sketchybar::EventArg;
use crate::text::{str_eq, to_string};
use crate::config::DEFAULT_EVENT_NAME;

verus! {

pub const PACKET_LEN: usize = STATE_PACKET_LEN;

/// Default first pause after a failed or empty read, in milliseconds.
pub const DEFAULT_BACKOFF_MS: u64 = 100;

/// Default cap on that pause, in milliseconds.
pub const DEFAULT_MAX_BACKOFF_MS: u64 = 1000;

pub struct RunOptions {
    pub sketchybar_event: String,
    /// Stop after the first packet that was read.
    pub once: bool,
    /// Pause after a failed or empty read, doubling up to `max_backoff_ms`.
    /// `None` = 100 ms.
    pub backoff_ms: Option<u64>,
    /// `None` = 1 s.
    pub max_backoff_ms: Option<u64>,
    /// Stop after this many packets were read. `None` = run forever.
    pub max_reads: Option<usize>,
}

impl Default for RunOptions {
    fn default() -> (o: Self)
        ensures
            o.sketchybar_event@ == DEFAULT_EVENT_NAME@,
            !o.once,
            o.backoff_ms is None,
            o.max_backoff_ms is None,
            o.max_reads is None,
    {
        RunOptions {
            sketchybar_event: to_string(DEFAULT_EVENT_NAME),
            once: false,
            backoff_ms: None,
            max_backoff_ms: None,
            max_reads: None,
        }
    }
}

/// A packet whose first byte is the state msg id.
pub open spec fn spec_is_state_packet(buf: Seq<u8>) -> bool {
    buf.len() > 0 && buf[0] == STATE_MSG_ID
}

/// Does the msg id match the state handler?
pub fn is_state_packet(buf: &[u8]) -> (r: bool)
    ensures
        r == spec_is_state_packet(buf@),
{
    buf.len() > 0 && buf[0] == STATE_MSG_ID
}

/// The part of a payload that counts as observable state: everything but
/// `reason` and `reason_flags`, which a heartbeat changes without any
/// change of state.
pub struct DedupView {
    pub kind: Seq<char>,
    pub version: u8,
    pub top_layer: u8,
    pub top_layer_name: Seq<char>,
    pub default_layer: u8,
    pub default_layer_name: Seq<char>,
    pub layer_state: u32,
    pub real_mods: u8,
    pub weak_mods: u8,
    pub oneshot_mods: u8,
    pub locked_mods: u8,
    pub mods_letters: Seq<char>,
    pub mods_state: Seq<char>,
    pub caps_word_active: bool,
    pub caps_word_state: Seq<char>,
}

pub open spec fn spec_dedup_key(p: PayloadView) -> DedupView {
    DedupView {
        kind: p.kind,
        version: p.version,
        top_layer: p.top_layer,
        top_layer_name: p.top_layer_name,
        default_layer: p.default_layer,
        default_layer_name: p.default_layer_name,
        layer_state: p.layer_state,
        real_mods: p.real_mods,
        weak_mods: p.weak_mods,
        oneshot_mods: p.oneshot_mods,
        locked_mods: p.locked_mods,
        mods_letters: p.mods_letters,
        mods_state: p.mods_state,
        caps_word_active: p.caps_word_active,
        caps_word_state: p.caps_word_state,
    }
}

/// Every packet the device sends is either a pushed state snapshot or a
/// QSID response, never both; only an empty read is neither.
pub proof fn lemma_packet_kinds(buf: Seq<u8>)
    ensures
        buf.len() > 0 ==> (spec_is_state_packet(buf) != spec_is_qsid_response(buf)),
        buf.len() == 0 ==> !spec_is_state_packet(buf) && !spec_is_qsid_response(buf),
{
}

/// Heartbeats are not changes: two state packets that differ at most in
/// the reason byte decode to the same observable state.
pub proof fn lemma_reason_ignored(b1: Seq<u8>, b2: Seq<u8>)
    requires
        b1.len() >= STATE_PACKET_LEN,
        b2.len() >= STATE_PACKET_LEN,
        forall|i: int| 0 <= i < STATE_PACKET_LEN && i != 2 ==> b1[i] == b2[i],
    ensures
        spec_dedup_key(spec_state_payload(b1)) == spec_dedup_key(spec_state_payload(b2)),
{
    assert(b1[1] == b2[1] && b1[3] == b2[3] && b1[4] == b2[4] && b1[5] == b2[5] && b1[6] == b2[6]
        && b1[7] == b2[7] && b1[8] == b2[8] && b1[9] == b2[9] && b1[10] == b2[10] && b1[11]
        == b2[11] && b1[12] == b2[12] && b1[13] == b2[13]);
}

/// Everything but the reason drives the change signal: two state packets
/// have the same observable state exactly when they agree on version,
/// layers, layer bitmap, the four mod masks and whether caps word is on.
pub proof fn lemma_observable_fields(b1: Seq<u8>, b2: Seq<u8>)
    requires
        b1.len() >= STATE_PACKET_LEN,
        b2.len() >= STATE_PACKET_LEN,
    ensures
        (spec_dedup_key(spec_state_payload(b1)) == spec_dedup_key(spec_state_payload(b2))) <==> (
        b1[1] == b2[1] && b1[3] == b2[3] && b1[4] == b2[4] && spec_u32_le(b1, 5) == spec_u32_le(
            b2,
            5,
        ) && b1[9] == b2[9] && b1[10] == b2[10] && b1[11] == b2[11] && b1[12] == b2[12] && (b1[13]
            != 0) == (b2[13] != 0)),
{
}

/// A payload with `reason` and `reason_flags` left out.
pub struct DedupKey {
    kind: &'static str,
    version: u8,
    top_layer: u8,
    top_layer_name: String,
    default_layer: u8,
    default_layer_name: String,
    layer_state: u32,
    real_mods: u8,
    weak_mods: u8,
    oneshot_mods: u8,
    locked_mods: u8,
    mods_letters: String,
    mods_state: &'static str,
    caps_word_active: bool,
    caps_word_state: &'static str,
}

impl View for DedupKey {
    type V = DedupView;

    closed spec fn view(&self) -> DedupView {
        DedupView {
            kind: self.kind@,
            version: self.version,
            top_layer: self.top_layer,
            top_layer_name: self.top_layer_name@,
            default_layer: self.default_layer,
            default_layer_name: self.default_layer_name@,
            layer_state: self.layer_state,
            real_mods: self.real_mods,
            weak_mods: self.weak_mods,
            oneshot_mods: self.oneshot_mods,
            locked_mods: self.locked_mods,
            mods_letters: self.mods_letters@,
            mods_state: self.mods_state@,
            caps_word_active: self.caps_word_active,
            caps_word_state: self.caps_word_state@,
        }
    }
}

impl DedupKey {
    /// Do both keys describe the same observable state?
    pub fn same(&self, other: &DedupKey) -> (r: bool)
        ensures
            r == (self@ == other@),
    {
        str_eq(self.kind, other.kind) && self.version == other.version && self.top_layer
            == other.top_layer && self.top_layer_name == other.top_layer_name
            && self.default_layer == other.default_layer && self.default_layer_name
            == other.default_layer_name && self.layer_state == other.layer_state
            && self.real_mods == other.real_mods && self.weak_mods == other.weak_mods
            && self.oneshot_mods == other.oneshot_mods && self.locked_mods == other.locked_mods
            && self.mods_letters == other.mods_letters && str_eq(self.mods_state, other.mods_state)
            && self.caps_word_active == other.caps_word_active && str_eq(
            self.caps_word_state,
            other.caps_word_state,
        )
    }
}

pub fn dedup_key(p: &StatePayload) -> (k: DedupKey)
    ensures
        k@ == spec_dedup_key(p@),
{
    DedupKey {
        kind: p.kind,
        version: p.version,
        top_layer: p.top_layer,
        top_layer_name: p.top_layer_name.clone(),
        default_layer: p.default_layer,
        default_layer_name: p.default_layer_name.clone(),
        layer_state: p.layer_state,
        real_mods: p.real_mods,
        weak_mods: p.weak_mods,
        oneshot_mods: p.oneshot_mods,
        locked_mods: p.locked_mods,
        mods_letters: p.mods_letters.clone(),
        mods_state: p.mods_state,
        caps_word_active: p.caps_word_active,
        caps_word_state: p.caps_word_state,
    }
}

/// The event arguments forwarded to the notifier: the display fields only,
/// in this order. Internal bitmasks stay in the state file.
pub open spec fn spec_event_args(p: PayloadView) -> Seq<(Seq<char>, Seq<char>)> {
    seq![
        ("top_layer_name"@, p.top_layer_name),
        ("default_layer_name"@, p.default_layer_name),
        ("mods_letters"@, p.mods_letters),
        ("mods_state"@, p.mods_state),
    ]
}

pub fn event_args_from(p: &StatePayload) -> (args: Vec<EventArg>)
    ensures
        args@.map_values(|a: EventArg| (a.key@, a.value@)) == spec_event_args(p@),
{
    let mut out: Vec<EventArg> = Vec::new();
    out.push(EventArg::new("top_layer_name", p.top_layer_name.as_str()));
    out.push(EventArg::new("default_layer_name", p.default_layer_name.as_str()));
    out.push(EventArg::new("mods_letters", p.mods_letters.as_str()));
    out.push(EventArg::new("mods_state", p.mods_state));
    assert(out@.map_values(|a: EventArg| (a.key@, a.value@)) =~= spec_event_args(p@));
    out
}

/// The decisions of the daemon's read loop. Firmware pushes a state packet
/// on every layer/mod change plus a periodic heartbeat; a packet is
/// published (state file written, notifier fired) only when its observable
/// state differs from the last one published.
pub struct RunLoop {
    initial_backoff_ms: u64,
    max_backoff_ms: u64,
    backoff_ms: u64,
    published: Published,
    reads_done: usize,
    once: bool,
    max_reads: Option<usize>,
}

/// The observable state of a key, if any.
pub open spec fn key_view(k: Option<DedupKey>) -> Option<DedupView> {
    match k {
        Some(k) => Some(k@),
        None => None,
    }
}

/// The states a run decoded so far, as a specification model, and the
/// observable state it last published, which follows from them.
struct Published {
    last_key: Option<DedupKey>,
    decoded: Ghost<Seq<PayloadView>>,
}

impl Published {
    #[verifier::type_invariant]
    spec fn consistent(self) -> bool {
        key_view(self.last_key) == spec_last_after(None, self.decoded@)
    }
}

/// Whether a decoded state is published, given the observable state last
/// published: exactly when it differs from it.
pub open spec fn spec_should_publish(last: Option<DedupView>, p: PayloadView) -> bool {
    last != Some(spec_dedup_key(p))
}

/// A heartbeat that repeats the state last published is not published
/// again: once the state of `published` went out, a packet that differs from
/// it at most in the reason byte is dropped.
pub proof fn lemma_heartbeat_not_republished(published: Seq<u8>, heartbeat: Seq<u8>)
    requires
        published.len() >= STATE_PACKET_LEN,
        heartbeat.len() >= STATE_PACKET_LEN,
        forall|i: int| 0 <= i < STATE_PACKET_LEN && i != 2 ==> published[i] == heartbeat[i],
    ensures
        !spec_should_publish(
            Some(spec_dedup_key(spec_state_payload(published))),
            spec_state_payload(heartbeat),
        ),
{
    lemma_reason_ignored(published, heartbeat);
}

/// A state is published exactly when any part of its observable state
/// changed: with a state published before, the next one is published
/// exactly when its dedup key differs from that state's, whichever field
/// differs; the first one is always published.
pub proof fn lemma_publish_on_any_change(k: DedupView, p: PayloadView)
    ensures
        spec_should_publish(Some(k), p) == (k != spec_dedup_key(p)),
        spec_should_publish(None, p),
{
}

/// Over raw packets: after the state of `first` was published, `second` is
/// published exactly when it differs from `first` in the version, a layer,
/// the layer bitmap, one of the four mod masks, or whether caps word is
/// active; a difference in the reason byte alone is not published.
pub proof fn lemma_publish_on_packet_change(first: Seq<u8>, second: Seq<u8>)
    requires
        first.len() >= STATE_PACKET_LEN,
        second.len() >= STATE_PACKET_LEN,
    ensures
        spec_should_publish(
            Some(spec_dedup_key(spec_state_payload(first))),
            spec_state_payload(second),
        ) == (first[1] != second[1] || first[3] != second[3] || first[4] != second[4]
            || spec_u32_le(first, 5) != spec_u32_le(second, 5) || first[9] != second[9] || first[10]
            != second[10] || first[11] != second[11] || first[12] != second[12] || (first[13] != 0)
            != (second[13] != 0)),
{
    lemma_observable_fields(first, second);
}

/// What a run publishes of the decoded states `ps`, in read order, when
/// the state last published before them is `last`: each state that differs
/// from the one last published, which it then becomes.
pub open spec fn spec_publish_run(last: Option<DedupView>, ps: Seq<PayloadView>) -> Seq<
    PayloadView,
>
    decreases ps.len(),
{
    if ps.len() == 0 {
        Seq::empty()
    } else if spec_should_publish(last, ps[0]) {
        seq![ps[0]] + spec_publish_run(Some(spec_dedup_key(ps[0])), ps.drop_first())
    } else {
        spec_publish_run(last, ps.drop_first())
    }
}

/// The state last published once the run `ps` is over.
pub open spec fn spec_last_after(last: Option<DedupView>, ps: Seq<PayloadView>) -> Option<DedupView>
    decreases ps.len(),
{
    if ps.len() == 0 {
        last
    } else if spec_should_publish(last, ps[0]) {
        spec_last_after(Some(spec_dedup_key(ps[0])), ps.drop_first())
    } else {
        spec_last_after(last, ps.drop_first())
    }
}

/// A run grows one decision at a time: the next state is published exactly
/// when it differs from the state last published, and then becomes it.
/// This is the step `RunLoop::on_packet` takes.
pub proof fn lemma_publish_run_step(last: Option<DedupView>, ps: Seq<PayloadView>, p: PayloadView)
    ensures
        spec_publish_run(last, ps.push(p)) == spec_publish_run(last, ps) + (if spec_should_publish(
            spec_last_after(last, ps),
            p,
        ) {
            seq![p]
        } else {
            Seq::empty()
        }),
        spec_last_after(last, ps.push(p)) == (if spec_should_publish(spec_last_after(last, ps), p) {
            Some(spec_dedup_key(p))
        } else {
            spec_last_after(last, ps)
        }),
    decreases ps.len(),
{
    let q = ps.push(p);
    if ps.len() == 0 {
        assert(q.drop_first() =~= Seq::<PayloadView>::empty());
        assert(q[0] == p);
        assert(spec_publish_run(last, ps) == Seq::<PayloadView>::empty());
        assert(spec_last_after(last, ps) == last);
        let e = Seq::<PayloadView>::empty();
        assert(spec_publish_run(Some(spec_dedup_key(p)), e) == e);
        assert(spec_publish_run(last, e) == e);
        assert(spec_last_after(Some(spec_dedup_key(p)), e) == Some(spec_dedup_key(p)));
        assert(spec_last_after(last, e) == last);
        assert(seq![p] + e =~= seq![p]);
        assert(e + seq![p] =~= seq![p]);
        assert(e + e =~= e);
    } else {
        let rest = ps.drop_first();
        assert(q.drop_first() =~= rest.push(p));
        assert(q[0] == ps[0]);
        if spec_should_publish(last, ps[0]) {
            let k = Some(spec_dedup_key(ps[0]));
            lemma_publish_run_step(k, rest, p);
            let tail = spec_publish_run(k, rest);
            let extra = if spec_should_publish(spec_last_after(k, rest), p) {
                seq![p]
            } else {
                Seq::<PayloadView>::empty()
            };
            assert(spec_publish_run(last, q) == seq![ps[0]] + spec_publish_run(k, rest.push(p)));
            assert(spec_publish_run(last, ps) == seq![ps[0]] + tail);
            assert(spec_last_after(last, ps) == spec_last_after(k, rest));
            assert(spec_last_after(last, q) == spec_last_after(k, rest.push(p)));
            assert(seq![ps[0]] + (tail + extra) =~= (seq![ps[0]] + tail) + extra);
        } else {
            lemma_publish_run_step(last, rest, p);
            assert(spec_publish_run(last, q) == spec_publish_run(last, rest.push(p)));
            assert(spec_publish_run(last, ps) == spec_publish_run(last, rest));
            assert(spec_last_after(last, ps) == spec_last_after(last, rest));
            assert(spec_last_after(last, q) == spec_last_after(last, rest.push(p)));
        }
    }
}

/// Publishing only on change, over a whole run: no two states published
/// one after the other are the same observable state, the first of them
/// differs from the state published before the run, and every published
/// state is one of the run's.
pub proof fn lemma_publish_run_changes(last: Option<DedupView>, ps: Seq<PayloadView>)
    ensures
        ({
            let out = spec_publish_run(last, ps);
            &&& out.len() <= ps.len()
            &&& out.len() > 0 ==> last != Some(spec_dedup_key(out[0]))
            &&& forall|i: int|
                0 <= i < out.len() - 1 ==> spec_dedup_key(#[trigger] out[i]) != spec_dedup_key(
                    out[i + 1],
                )
            &&& forall|i: int| 0 <= i < out.len() ==> ps.contains(#[trigger] out[i])
        }),
    decreases ps.len(),
{
    if ps.len() > 0 {
        let rest = ps.drop_first();
        lemma_publish_run_changes(Some(spec_dedup_key(ps[0])), rest);
        lemma_publish_run_changes(last, rest);
        let out = spec_publish_run(last, ps);
        if spec_should_publish(last, ps[0]) {
            let tail = spec_publish_run(Some(spec_dedup_key(ps[0])), rest);
            assert(out == seq![ps[0]] + tail);
            assert forall|i: int| 0 <= i < out.len() - 1 implies spec_dedup_key(#[trigger] out[i])
                != spec_dedup_key(out[i + 1]) by {
                if i > 0 {
                    assert(out[i] == tail[i - 1]);
                    assert(out[i + 1] == tail[i]);
                }
            }
            assert forall|i: int| 0 <= i < out.len() implies ps.contains(#[trigger] out[i]) by {
                if i > 0 {
                    assert(out[i] == tail[i - 1]);
                    let j = choose|j: int| 0 <= j < rest.len() && rest[j] == tail[i - 1];
                    assert(ps[j + 1] == rest[j]);
                } else {
                    assert(ps[0] == out[0]);
                }
            }
        } else {
            assert forall|i: int| 0 <= i < out.len() implies ps.contains(#[trigger] out[i]) by {
                let j = choose|j: int| 0 <= j < rest.len() && rest[j] == out[i];
                assert(ps[j + 1] == rest[j]);
            }
        }
    }
}

/// A run of heartbeats publishes once: when every state of the run is the
/// same observable state, the first of them is published and no other.
pub proof fn lemma_heartbeat_run_publishes_once(ps: Seq<PayloadView>)
    requires
        ps.len() > 0,
        forall|i: int| 0 <= i < ps.len() ==> spec_dedup_key(#[trigger] ps[i]) == spec_dedup_key(ps[0]),
    ensures
        spec_publish_run(None, ps) == seq![ps[0]],
{
    lemma_repeats_publish_nothing(spec_dedup_key(ps[0]), ps.drop_first());
    assert(spec_publish_run(None, ps) == seq![ps[0]] + spec_publish_run(
        Some(spec_dedup_key(ps[0])),
        ps.drop_first(),
    ));
}

/// States that repeat the one last published publish nothing.
proof fn lemma_repeats_publish_nothing(k: DedupView, ps: Seq<PayloadView>)
    requires
        forall|i: int| 0 <= i < ps.len() ==> spec_dedup_key(#[trigger] ps[i]) == k,
    ensures
        spec_publish_run(Some(k), ps) == Seq::<PayloadView>::empty(),
    decreases ps.len(),
{
    if ps.len() > 0 {
        assert(spec_dedup_key(ps[0]) == k);
        let rest = ps.drop_first();
        assert forall|i: int| 0 <= i < rest.len() implies spec_dedup_key(#[trigger] rest[i]) == k by {
            assert(rest[i] == ps[i + 1]);
        }
        lemma_repeats_publish_nothing(k, rest);
    }
}

/// The pause after `backoff`: doubled, but never beyond `max`.
pub open spec fn spec_next_backoff(backoff: u64, max: u64) -> u64 {
    if 2 * backoff > max {
        max
    } else {
        (2 * backoff) as u64
    }
}

/// The pause grows from the first value towards the cap and never passes
/// it; it doubles while doubling stays within the cap.
pub proof fn lemma_backoff_bounded(backoff: u64, max: u64)
    requires
        backoff <= max,
    ensures
        backoff <= spec_next_backoff(backoff, max) <= max,
        2 * backoff <= max ==> spec_next_backoff(backoff, max) == 2 * backoff,
{
}

impl RunLoop {
    pub closed spec fn spec_backoff(&self) -> u64 {
        self.backoff_ms
    }

    pub closed spec fn spec_initial_backoff(&self) -> u64 {
        self.initial_backoff_ms
    }

    pub closed spec fn spec_max_backoff(&self) -> u64 {
        self.max_backoff_ms
    }

    /// The observable state last published, if any.
    pub closed spec fn spec_last(&self) -> Option<DedupView> {
        key_view(self.published.last_key)
    }

    /// The states decoded so far, in read order.
    pub closed spec fn spec_decoded(&self) -> Seq<PayloadView> {
        self.published.decoded@
    }

    /// The states published so far, in read order.
    pub open spec fn spec_published(&self) -> Seq<PayloadView> {
        spec_publish_run(None, self.spec_decoded())
    }

    pub closed spec fn spec_reads_done(&self) -> nat {
        self.reads_done as nat
    }

    pub closed spec fn spec_once(&self) -> bool {
        self.once
    }

    pub closed spec fn spec_max_reads(&self) -> Option<usize> {
        self.max_reads
    }

    /// Packets read so far.
    pub fn reads_done(&self) -> (n: usize)
        ensures
            n == self.spec_reads_done(),
    {
        self.reads_done
    }

    pub fn new(opts: &RunOptions) -> (l: Self)
        ensures
            l.spec_initial_backoff() == (match opts.backoff_ms {
                Some(b) => b,
                None => DEFAULT_BACKOFF_MS,
            }),
            l.spec_max_backoff() == (match opts.max_backoff_ms {
                Some(b) => b,
                None => DEFAULT_MAX_BACKOFF_MS,
            }),
            l.spec_backoff() == l.spec_initial_backoff(),
            l.spec_last() is None,
            l.spec_decoded() == Seq::<PayloadView>::empty(),
            l.spec_reads_done() == 0,
            l.spec_once() == opts.once,
            l.spec_max_reads() == opts.max_reads,
    {
        let initial = match opts.backoff_ms {
            Some(b) => b,
            None => DEFAULT_BACKOFF_MS,
        };
        let max = match opts.max_backoff_ms {
            Some(b) => b,
            None => DEFAULT_MAX_BACKOFF_MS,
        };
        RunLoop {
            initial_backoff_ms: initial,
            max_backoff_ms: max,
            backoff_ms: initial,
            published: Published { last_key: None, decoded: Ghost(Seq::empty()) },
            reads_done: 0,
            once: opts.once,
            max_reads: opts.max_reads,
        }
    }

    /// A read failed or brought no data: pause for the current backoff,
    /// which doubles (up to the cap) for the next time.
    pub fn on_idle(&mut self) -> (pause_ms: u64)
        ensures
            pause_ms == old(self).spec_backoff(),
            final(self).spec_backoff() == spec_next_backoff(
                old(self).spec_backoff(),
                old(self).spec_max_backoff(),
            ),
            final(self).spec_initial_backoff() == old(self).spec_initial_backoff(),
            final(self).spec_max_backoff() == old(self).spec_max_backoff(),
            final(self).spec_last() == old(self).spec_last(),
            final(self).spec_decoded() == old(self).spec_decoded(),
            final(self).spec_reads_done() == old(self).spec_reads_done(),
            final(self).spec_once() == old(self).spec_once(),
            final(self).spec_max_reads() == old(self).spec_max_reads(),
    {
        let pause = self.backoff_ms;
        self.backoff_ms = if pause > self.max_backoff_ms / 2 {
            self.max_backoff_ms
        } else {
            let doubled = pause * 2;
            if doubled > self.max_backoff_ms {
                self.max_backoff_ms
            } else {
                doubled
            }
        };
        pause
    }

    /// A packet was read: the backoff starts over. Returns whether `decoded`
    /// is a state to publish, i.e. differs from the last one published; if
    /// so, it becomes the last one published.
    pub fn on_packet(&mut self, decoded: Option<&StatePayload>) -> (publish: bool)
        ensures
            publish == (match decoded {
                Some(p) => spec_should_publish(old(self).spec_last(), p@),
                None => false,
            }),
            final(self).spec_decoded() == (match decoded {
                Some(p) => old(self).spec_decoded().push(p@),
                None => old(self).spec_decoded(),
            }),
            final(self).spec_last() == (match decoded {
                Some(p) => if publish {
                    Some(spec_dedup_key(p@))
                } else {
                    old(self).spec_last()
                },
                None => old(self).spec_last(),
            }),
            final(self).spec_published() == old(self).spec_published() + (match decoded {
                Some(p) => if publish {
                    seq![p@]
                } else {
                    Seq::<PayloadView>::empty()
                },
                None => Seq::<PayloadView>::empty(),
            }),
            final(self).spec_last() == spec_last_after(None, final(self).spec_decoded()),
            final(self).spec_backoff() == old(self).spec_initial_backoff(),
            final(self).spec_initial_backoff() == old(self).spec_initial_backoff(),
            final(self).spec_max_backoff() == old(self).spec_max_backoff(),
            final(self).spec_reads_done() == old(self).spec_reads_done(),
            final(self).spec_once() == old(self).spec_once(),
            final(self).spec_max_reads() == old(self).spec_max_reads(),
    {
        proof {
            use_type_invariant(&self.published);
        }
        self.backoff_ms = self.initial_backoff_ms;
        match decoded {
            None => {
                assert(old(self).spec_published() + Seq::<PayloadView>::empty() =~= old(
                    self,
                ).spec_published());
                false
            },
            Some(p) => {
                proof {
                    lemma_publish_run_step(None, self.published.decoded@, p@);
                }
                let key = dedup_key(p);
                let publish = match &self.published.last_key {
                    Some(prev) => !prev.same(&key),
                    None => true,
                };
                let ghost h = self.published.decoded@.push(p@);
                if publish {
                    self.published = Published { last_key: Some(key), decoded: Ghost(h) };
                } else {
                    self.published.decoded = Ghost(h);
                    assert(old(self).spec_published() + Seq::<PayloadView>::empty() =~= old(
                        self,
                    ).spec_published());
                }
                publish
            },
        }
    }

    /// A packet read is done. Returns whether the loop stops: after the
    /// first one with `once`, or when `max_reads` packets were read.
    pub fn complete_read(&mut self) -> (stop: bool)
        requires
            old(self).spec_reads_done() < usize::MAX,
        ensures
            final(self).spec_reads_done() == old(self).spec_reads_done() + 1,
            stop == (old(self).spec_once() || (match old(self).spec_max_reads() {
                Some(limit) => final(self).spec_reads_done() >= limit,
                None => false,
            })),
            final(self).spec_backoff() == old(self).spec_backoff(),
            final(self).spec_initial_backoff() == old(self).spec_initial_backoff(),
            final(self).spec_max_backoff() == old(self).spec_max_backoff(),
            final(self).spec_last() == old(self).spec_last(),
            final(self).spec_decoded() == old(self).spec_decoded(),
            final(self).spec_once() == old(self).spec_once(),
            final(self).spec_max_reads() == old(self).spec_max_reads(),
    {
        self.reads_done = self.reads_done + 1;
        if self.once {
            return true;
        }
        match self.max_reads {
            Some(limit) => self.reads_done >= limit,
            None => false,
        }
    }
}

/// The payload field that an argument key names.
pub open spec fn payload_field(p: PayloadView, key: Seq<char>) -> Option<Seq<char>> {
    if key == "top_layer_name"@ {
        Some(p.top_layer_name)
    } else if key == "default_layer_name"@ {
        Some(p.default_layer_name)
    } else if key == "mods_letters"@ {
        Some(p.mods_letters)
    } else if key == "mods_state"@ {
        Some(p.mods_state)
    } else {
        None
    }
}

/// Each forwarded argument carries the payload's own field of its name:
/// the top and default layer names, the mod letters and the mod state, each
/// once, whatever the other fields hold.
pub proof fn lemma_event_args_carry_named_fields(p: PayloadView)
    ensures
        spec_event_args(p).len() == 4,
        forall|i: int|
            0 <= i < 4 ==> payload_field(p, #[trigger] spec_event_args(p)[i].0) == Some(spec_event_args(p)[i].1),
        forall|i: int, j: int| 0 <= i < j < 4 ==> spec_event_args(p)[i].0 != spec_event_args(p)[j].0,
{
    reveal_strlit("top_layer_name");
    reveal_strlit("default_layer_name");
    reveal_strlit("mods_letters");
    reveal_strlit("mods_state");
    let a = spec_event_args(p);
    assert(a[0].0 == "top_layer_name"@);
    assert(a[1].0 == "default_layer_name"@);
    assert(a[2].0 == "mods_letters"@);
    assert(a[3].0 == "mods_state"@);
    assert("top_layer_name"@ != "default_layer_name"@) by {
        assert("top_layer_name"@[0] != "default_layer_name"@[0]);
    }
    assert("top_layer_name"@ != "mods_letters"@) by {
        assert("top_layer_name"@[0] != "mods_letters"@[0]);
    }
    assert("top_layer_name"@ != "mods_state"@) by {
        assert("top_layer_name"@[0] != "mods_state"@[0]);
    }
    assert("default_layer_name"@ != "mods_letters"@) by {
        assert("default_layer_name"@[0] != "mods_letters"@[0]);
    }
    assert("default_layer_name"@ != "mods_state"@) by {
        assert("default_layer_name"@[0] != "mods_state"@[0]);
    }
    assert("mods_letters"@ != "mods_state"@) by {
        assert("mods_letters"@[5] != "mods_state"@[5]);
    }
}

} // verus!
