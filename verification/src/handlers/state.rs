//! Handler for `0xAB` state snapshot packets.
//!
//! Packet layout (v1):
//! ```text
//! 0: msg_id = 0xAB
//! 1: version = 1
//! 2: reason bitfield (0x01 layer, 0x02 default, 0x04 mods, 0x08 osm,
//!    0x10 initial/query, 0x20 caps word)
//! 3: top_layer
//! 4: default_layer
//! 5..9: layer_state (u32 LE)
//! 9:  real_mods
//! 10: weak_mods
//! 11: oneshot_mods
//! 12: locked_mods
//! 13: caps_word_active (0|1)
//! 14..32: reserved
//! ```

use vstd::prelude::*;

use crate::layer_names::{layer_name, spec_layer_name};
use crate::mods::{
    lemma_letters_canonical, mods_to_letters, resolve_state, spec_mods_letters, spec_resolve_state,
    MOD_ALT, MOD_CTL, MOD_GUI, MOD_SFT,
};
use crate::packet::{DecodeError, PacketHandler};

verus! {

pub const STATE_MSG_ID: u8 = 0xAB;

pub const STATE_VERSION: u8 = 1;

pub const STATE_PACKET_LEN: usize = 32;

pub const REASON_LAYER: u8 = 0x01;

pub const REASON_DEFAULT_LAYER: u8 = 0x02;

pub const REASON_MODS: u8 = 0x04;

pub const REASON_OSM: u8 = 0x08;

pub const REASON_INITIAL: u8 = 0x10;

pub const REASON_CAPS_WORD: u8 = 0x20;

/// A decoded state snapshot, with the display strings derived from it.
#[derive(Debug, Clone, PartialEq)]
pub struct StatePayload {
    /// Always `"state"`.
    pub kind: &'static str,
    pub version: u8,
    pub reason: u8,
    pub reason_flags: Vec<&'static str>,
    pub top_layer: u8,
    pub top_layer_name: String,
    pub default_layer: u8,
    pub default_layer_name: String,
    pub layer_state: u32,
    pub real_mods: u8,
    pub weak_mods: u8,
    pub oneshot_mods: u8,
    pub locked_mods: u8,
    pub mods_letters: String,
    pub mods_state: &'static str,
    pub caps_word_active: bool,
    pub caps_word_state: &'static str,
}

/// The mathematical content of a `StatePayload`: its strings as character
/// sequences.
pub struct PayloadView {
    pub kind: Seq<char>,
    pub version: u8,
    pub reason: u8,
    pub reason_flags: Seq<Seq<char>>,
    pub top_layer: u8,
    pub top_layer_name: Seq<char>,
    pub default_layer: u8,
    pub default_layer_name: Seq<char>,
    pub layer_state: u32,
    pub real_mods: u8,
    pub weak_mods: u8,
    pub oneshot_mods: u8,
    pub locked_mods: u8,
    pub mods_letters: Seq<char>,
    pub mods_state: Seq<char>,
    pub caps_word_active: bool,
    pub caps_word_state: Seq<char>,
}

impl View for StatePayload {
    type V = PayloadView;

    open spec fn view(&self) -> PayloadView {
        PayloadView {
            kind: self.kind@,
            version: self.version,
            reason: self.reason,
            reason_flags: self.reason_flags@.map_values(|f: &'static str| f@),
            top_layer: self.top_layer,
            top_layer_name: self.top_layer_name@,
            default_layer: self.default_layer,
            default_layer_name: self.default_layer_name@,
            layer_state: self.layer_state,
            real_mods: self.real_mods,
            weak_mods: self.weak_mods,
            oneshot_mods: self.oneshot_mods,
            locked_mods: self.locked_mods,
            mods_letters: self.mods_letters@,
            mods_state: self.mods_state@,
            caps_word_active: self.caps_word_active,
            caps_word_state: self.caps_word_state@,
        }
    }
}

/// `name` when `reason` has `bit` set, nothing otherwise.
pub open spec fn flag_if(reason: u8, bit: u8, name: Seq<char>) -> Seq<Seq<char>> {
    if reason & bit != 0 {
        seq![name]
    } else {
        Seq::empty()
    }
}

/// The names of the reason bits that are set, lowest bit first.
pub open spec fn spec_reason_flags(reason: u8) -> Seq<Seq<char>> {
    flag_if(reason, REASON_LAYER, "layer"@) + flag_if(reason, REASON_DEFAULT_LAYER, "default_layer"@)
        + flag_if(reason, REASON_MODS, "mods"@) + flag_if(reason, REASON_OSM, "oneshot"@) + flag_if(
        reason,
        REASON_INITIAL,
        "initial"@,
    ) + flag_if(reason, REASON_CAPS_WORD, "caps_word"@)
}

fn push_flag(out: &mut Vec<&'static str>, reason: u8, bit: u8, name: &'static str)
    ensures
        final(out)@.map_values(|f: &'static str| f@) == old(out)@.map_values(|f: &'static str| f@)
            + flag_if(reason, bit, name@),
{
    let ghost before = out@;
    if reason & bit != 0 {
        out.push(name);
    }
    assert(out@.map_values(|f: &'static str| f@) =~= before.map_values(|f: &'static str| f@)
        + flag_if(reason, bit, name@));
}

pub fn reason_flags(reason: u8) -> (flags: Vec<&'static str>)
    ensures
        flags@.map_values(|f: &'static str| f@) == spec_reason_flags(reason),
{
    let mut out: Vec<&'static str> = Vec::new();
    assert(out@.map_values(|f: &'static str| f@) =~= Seq::<Seq<char>>::empty());
    push_flag(&mut out, reason, REASON_LAYER, "layer");
    push_flag(&mut out, reason, REASON_DEFAULT_LAYER, "default_layer");
    push_flag(&mut out, reason, REASON_MODS, "mods");
    push_flag(&mut out, reason, REASON_OSM, "oneshot");
    push_flag(&mut out, reason, REASON_INITIAL, "initial");
    push_flag(&mut out, reason, REASON_CAPS_WORD, "caps_word");
    assert(out@.map_values(|f: &'static str| f@) =~= spec_reason_flags(reason));
    out
}

/// The little-endian `u32` in bytes `at..at + 4` of `buf`.
pub open spec fn spec_u32_le(buf: Seq<u8>, at: int) -> u32 {
    (buf[at] as int + buf[at + 1] as int * 0x100 + buf[at + 2] as int * 0x1_0000 + buf[at + 3] as int
        * 0x100_0000) as u32
}

/// What a packet that passed the checks decodes to.
pub open spec fn spec_state_payload(buf: Seq<u8>) -> PayloadView {
    let reason = buf[2];
    let top_layer = buf[3];
    let default_layer = buf[4];
    let real_mods = buf[9];
    let weak_mods = buf[10];
    let oneshot_mods = buf[11];
    let locked_mods = buf[12];
    let caps = buf[13] != 0;
    PayloadView {
        kind: "state"@,
        version: buf[1],
        reason,
        reason_flags: spec_reason_flags(reason),
        top_layer,
        top_layer_name: spec_layer_name(top_layer),
        default_layer,
        default_layer_name: spec_layer_name(default_layer),
        layer_state: spec_u32_le(buf, 5),
        real_mods,
        weak_mods,
        oneshot_mods,
        locked_mods,
        mods_letters: spec_mods_letters(real_mods | weak_mods | oneshot_mods | locked_mods),
        mods_state: spec_resolve_state(real_mods, weak_mods, oneshot_mods, locked_mods).spec_name(),
        caps_word_active: caps,
        caps_word_state: if caps {
            "active"@
        } else {
            "inactive"@
        },
    }
}

/// The check that a state packet fails first, if any: length, then msg id,
/// then version.
pub open spec fn spec_state_error(buf: Seq<u8>) -> Option<DecodeError> {
    if buf.len() < STATE_PACKET_LEN {
        Some(DecodeError::TooShort { len: buf.len() as usize, need: STATE_PACKET_LEN })
    } else if buf[0] != STATE_MSG_ID {
        Some(DecodeError::WrongMsgId(buf[0]))
    } else if buf[1] != STATE_VERSION {
        Some(DecodeError::UnsupportedVersion(buf[1]))
    } else {
        None
    }
}

/// Decodes `0xAB` state snapshots.
pub struct StateHandler;

impl StateHandler {
    pub fn new() -> (h: Self) {
        StateHandler
    }
}

impl Default for StateHandler {
    fn default() -> (h: Self) {
        StateHandler
    }
}

impl PacketHandler for StateHandler {
    type Output = StatePayload;

    open spec fn spec_msg_id(&self) -> u8 {
        STATE_MSG_ID
    }

    fn msg_id(&self) -> (id: u8) {
        STATE_MSG_ID
    }

    /// The checks in order, then the payload of the packet.
    open spec fn spec_decodes(&self, buf: &[u8], result: Result<StatePayload, DecodeError>) -> bool {
        match spec_state_error(buf@) {
            Some(e) => result == Err::<StatePayload, DecodeError>(e),
            None => result matches Ok(p) && p@ == spec_state_payload(buf@),
        }
    }

    fn decode(&self, buf: &[u8]) -> (r: Result<StatePayload, DecodeError>) {
        if buf.len() < STATE_PACKET_LEN {
            return Err(DecodeError::TooShort { len: buf.len(), need: STATE_PACKET_LEN });
        }
        if buf[0] != STATE_MSG_ID {
            return Err(DecodeError::WrongMsgId(buf[0]));
        }
        if buf[1] != STATE_VERSION {
            return Err(DecodeError::UnsupportedVersion(buf[1]));
        }
        let reason = buf[2];
        let top_layer = buf[3];
        let default_layer = buf[4];
        let layer_state: u32 = buf[5] as u32 + buf[6] as u32 * 0x100 + buf[7] as u32 * 0x1_0000
            + buf[8] as u32 * 0x100_0000;
        let real_mods = buf[9];
        let weak_mods = buf[10];
        let oneshot_mods = buf[11];
        let locked_mods = buf[12];
        let caps_word_active = buf[13] != 0;
        let display_bits = real_mods | weak_mods | oneshot_mods | locked_mods;
        let mods_state = resolve_state(real_mods, weak_mods, oneshot_mods, locked_mods);
        let p = StatePayload {
            kind: "state",
            version: buf[1],
            reason,
            reason_flags: reason_flags(reason),
            top_layer,
            top_layer_name: layer_name(top_layer),
            default_layer,
            default_layer_name: layer_name(default_layer),
            layer_state,
            real_mods,
            weak_mods,
            oneshot_mods,
            locked_mods,
            mods_letters: mods_to_letters(display_bits),
            mods_state: mods_state.as_str(),
            caps_word_active,
            caps_word_state: if caps_word_active {
                "active"
            } else {
                "inactive"
            },
        };
        assert(p@ == spec_state_payload(buf@));
        Ok(p)
    }
}

/// A mask group is set in the union of four mod bytes exactly when it is
/// set in one of them.
proof fn lemma_group_in_union(a: u8, b: u8, c: u8, d: u8, g: u8)
    ensures
        ((a | b | c | d) & g != 0) == (a & g != 0 || b & g != 0 || c & g != 0 || d & g != 0),
{
    assert(((a | b | c | d) & g != 0) == (a & g != 0 || b & g != 0 || c & g != 0 || d & g != 0))
        by (bit_vector);
}

/// Every modifier in effect shows in a decoded state's letters, whichever
/// way it is in effect: the letters hold `C`, `S`, `A` or `G` exactly when
/// that modifier (left or right) is set in the real, weak, one-shot or
/// locked mod byte of the packet, and nothing else; a packet with no mod
/// bit set shows no letter.
pub proof fn lemma_decoded_letters_show_all_mods(h: StateHandler, buf: &[u8], p: StatePayload)
    requires
        h.spec_decodes(buf, Ok(p)),
    ensures
        p@.mods_letters.contains('C') == (buf@[9] & MOD_CTL != 0 || buf@[10] & MOD_CTL != 0
            || buf@[11] & MOD_CTL != 0 || buf@[12] & MOD_CTL != 0),
        p@.mods_letters.contains('S') == (buf@[9] & MOD_SFT != 0 || buf@[10] & MOD_SFT != 0
            || buf@[11] & MOD_SFT != 0 || buf@[12] & MOD_SFT != 0),
        p@.mods_letters.contains('A') == (buf@[9] & MOD_ALT != 0 || buf@[10] & MOD_ALT != 0
            || buf@[11] & MOD_ALT != 0 || buf@[12] & MOD_ALT != 0),
        p@.mods_letters.contains('G') == (buf@[9] & MOD_GUI != 0 || buf@[10] & MOD_GUI != 0
            || buf@[11] & MOD_GUI != 0 || buf@[12] & MOD_GUI != 0),
        p@.mods_letters.len() <= 4,
        (buf@[9] | buf@[10] | buf@[11] | buf@[12]) == 0 ==> p@.mods_letters.len() == 0,
{
    let bits = buf@[9] | buf@[10] | buf@[11] | buf@[12];
    assert(p@ == spec_state_payload(buf@));
    lemma_letters_canonical(bits);
    lemma_group_in_union(buf@[9], buf@[10], buf@[11], buf@[12], MOD_CTL);
    lemma_group_in_union(buf@[9], buf@[10], buf@[11], buf@[12], MOD_SFT);
    lemma_group_in_union(buf@[9], buf@[10], buf@[11], buf@[12], MOD_ALT);
    lemma_group_in_union(buf@[9], buf@[10], buf@[11], buf@[12], MOD_GUI);
}

} // verus!
