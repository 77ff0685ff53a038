//! Vial QMK-Settings (QSID) protocol.
//!
//! Requests are 32 bytes prefixed with `0xFE` and a subcommand byte;
//! responses are 32 bytes starting with a status byte (0 = ok).

use std::collections::BTreeMap;

use vstd::prelude::*;

use crate::text::{push_decimal, push_str, spec_decimal, to_string};

verus! {

pub const PACKET_LEN: usize = 32;

pub const VIAL_PREFIX: u8 = 0xFE;

pub const CMD_QSID_QUERY: u8 = 0x09;

pub const CMD_QSID_GET: u8 = 0x0A;

pub const CMD_QSID_SET: u8 = 0x0B;

pub const CMD_QSID_RESET: u8 = 0x0C;

/// Why a QSID request could not be built or its response not be read.
#[derive(Debug, Clone, Copy, PartialEq, Eq)]
pub enum QsidError {
    /// A value width other than 1, 2 or 4 bytes.
    InvalidWidth,
    /// The value does not fit in the requested width.
    ValueOutOfRange { value: u32, width: usize },
    /// The QSID has no known width and none was given.
    UnknownQsid(u16),
    /// The device sent nothing.
    EmptyResponse,
    /// The device answered with a non-zero status byte.
    DeviceStatus(u8),
    /// The response is shorter than status byte plus value.
    ShortResponse { len: usize, need: usize },
}

impl QsidError {
    /// The text shown to a user for this error.
    pub open spec fn spec_message(self) -> Seq<char> {
        match self {
            QsidError::InvalidWidth => "width must be 1, 2, or 4 bytes"@,
            QsidError::ValueOutOfRange { value, width } => "value "@ + spec_decimal(value as nat)
                + " out of range for width="@ + spec_decimal(width as nat) + "B"@,
            QsidError::UnknownQsid(q) => "qsid "@ + spec_decimal(q as nat)
                + " not in known_qsids; supply an explicit width"@,
            QsidError::EmptyResponse => "empty response"@,
            QsidError::DeviceStatus(status) => "device returned status "@ + spec_decimal(
                status as nat,
            ),
            QsidError::ShortResponse { len, need } => "short response: "@ + spec_decimal(len as nat)
                + " < "@ + spec_decimal(need as nat),
        }
    }

    pub fn message(&self) -> (m: String)
        ensures
            m@ == self.spec_message(),
    {
        match self {
            QsidError::InvalidWidth => to_string("width must be 1, 2, or 4 bytes"),
            QsidError::ValueOutOfRange { value, width } => {
                let mut m = to_string("value ");
                push_decimal(&mut m, *value as u64);
                push_str(&mut m, " out of range for width=");
                push_decimal(&mut m, *width as u64);
                push_str(&mut m, "B");
                m
            },
            QsidError::UnknownQsid(q) => {
                let mut m = to_string("qsid ");
                push_decimal(&mut m, *q as u64);
                push_str(&mut m, " not in known_qsids; supply an explicit width");
                m
            },
            QsidError::EmptyResponse => to_string("empty response"),
            QsidError::DeviceStatus(status) => {
                let mut m = to_string("device returned status ");
                push_decimal(&mut m, *status as u64);
                m
            },
            QsidError::ShortResponse { len, need } => {
                let mut m = to_string("short response: ");
                push_decimal(&mut m, *len as u64);
                push_str(&mut m, " < ");
                push_decimal(&mut m, *need as u64);
                m
            },
        }
    }
}

/// Name and byte width of the custom QSIDs that the keymap defines.
pub open spec fn spec_known_qsid(qsid: u16) -> Option<(Seq<char>, usize)> {
    if qsid == 28 {
        Some(("flow_tap_shift_delta"@, 2))
    } else if qsid == 29 {
        Some(("flow_tap_shift_min_clamp"@, 1))
    } else {
        None
    }
}

/// Value width in bytes for the known custom QSIDs. Values here match the
/// `qmk_settings_t` field widths.
pub fn known_qsids() -> (m: BTreeMap<u16, (&'static str, usize)>)
    ensures
        forall|q: u16| #[trigger] m@.contains_key(q) <==> spec_known_qsid(q) is Some,
        forall|q: u16|
            #[trigger] m@.contains_key(q) ==> (m@[q].0@, m@[q].1) == spec_known_qsid(q)->Some_0,
{
    broadcast use vstd::std_specs::btree::group_btree_axioms, vstd::laws_cmp::group_laws_cmp;

    let mut m: BTreeMap<u16, (&'static str, usize)> = BTreeMap::new();
    m.insert(28u16, ("flow_tap_shift_delta", 2usize));
    m.insert(29u16, ("flow_tap_shift_min_clamp", 1usize));
    m
}

pub open spec fn valid_width(width: usize) -> bool {
    width == 1 || width == 2 || width == 4
}

/// The width used for a QSID: a known QSID has its known width, whatever
/// the hint; for any other QSID the hint is the width when it is valid, an
/// invalid hint is an error, and no hint is an error too.
pub open spec fn spec_resolve_width(qsid: u16, hint: Option<usize>) -> Result<usize, QsidError> {
    match spec_known_qsid(qsid) {
        Some(entry) => Ok(entry.1),
        None => match hint {
            Some(w) => if valid_width(w) {
                Ok(w)
            } else {
                Err(QsidError::InvalidWidth)
            },
            None => Err(QsidError::UnknownQsid(qsid)),
        },
    }
}

/// Look up the byte width for a QSID, preferring `known_qsids` and
/// falling back to a user-supplied hint.
pub fn resolve_width(qsid: u16, hint: Option<usize>) -> (r: Result<usize, QsidError>)
    ensures
        r == spec_resolve_width(qsid, hint),
{
    broadcast use vstd::std_specs::btree::group_btree_axioms, vstd::laws_cmp::group_laws_cmp;

    let known = known_qsids();
    if let Some(entry) = known.get(&qsid) {
        assert(known@.contains_key(qsid));
        return Ok(entry.1);
    }
    match hint {
        Some(w) => if w == 1 || w == 2 || w == 4 {
            Ok(w)
        } else {
            Err(QsidError::InvalidWidth)
        },
        None => Err(QsidError::UnknownQsid(qsid)),
    }
}

/// `bytes` followed by zeros up to the packet length.
pub open spec fn spec_padded(bytes: Seq<u8>) -> Seq<u8> {
    bytes + Seq::new((PACKET_LEN - bytes.len()) as nat, |i: int| 0u8)
}

fn packet_padded(bytes: Vec<u8>) -> (p: [u8; PACKET_LEN])
    requires
        bytes@.len() <= PACKET_LEN,
    ensures
        p@ == spec_padded(bytes@),
{
    let mut out = [0u8; PACKET_LEN];
    let n = bytes.len();
    let mut i: usize = 0;
    while i < n
        invariant
            n == bytes@.len(),
            n <= PACKET_LEN,
            i <= n,
            out@.len() == PACKET_LEN,
            forall|j: int| 0 <= j < i ==> out@[j] == bytes@[j],
            forall|j: int| i <= j < PACKET_LEN ==> out@[j] == 0u8,
        decreases n - i,
    {
        out[i] = bytes[i];
        i = i + 1;
    }
    assert(out@ =~= spec_padded(bytes@));
    out
}

/// The little-endian bytes of a `u16`.
pub open spec fn spec_u16_le(v: u16) -> Seq<u8> {
    seq![(v % 0x100) as u8, (v / 0x100) as u8]
}

/// The little-endian bytes of a `u32`.
pub open spec fn spec_u32_le_bytes(v: u32) -> Seq<u8> {
    seq![
        (v % 0x100) as u8,
        ((v / 0x100) % 0x100) as u8,
        ((v / 0x1_0000) % 0x100) as u8,
        (v / 0x100_0000) as u8,
    ]
}

/// The value of four little-endian bytes.
pub open spec fn spec_u32_from_le(b: Seq<u8>) -> u32 {
    (b[0] as int + b[1] as int * 0x100 + b[2] as int * 0x1_0000 + b[3] as int * 0x100_0000) as u32
}

fn u16_le(v: u16) -> (b: (u8, u8))
    ensures
        seq![b.0, b.1] == spec_u16_le(v),
{
    ((v % 0x100) as u8, (v / 0x100) as u8)
}

/// A request carrying a subcommand and a `u16` argument.
pub open spec fn spec_command_packet(cmd: u8, arg: u16) -> Seq<u8> {
    spec_padded(seq![VIAL_PREFIX, cmd] + spec_u16_le(arg))
}

fn command_packet(cmd: u8, arg: u16) -> (p: [u8; PACKET_LEN])
    ensures
        p@ == spec_command_packet(cmd, arg),
{
    let (lo, hi) = u16_le(arg);
    let mut v: Vec<u8> = Vec::new();
    v.push(VIAL_PREFIX);
    v.push(cmd);
    v.push(lo);
    v.push(hi);
    assert(v@ =~= seq![VIAL_PREFIX, cmd] + spec_u16_le(arg));
    packet_padded(v)
}

pub fn build_query_packet(cursor: u16) -> (p: [u8; PACKET_LEN])
    ensures
        p@ == spec_command_packet(CMD_QSID_QUERY, cursor),
{
    command_packet(CMD_QSID_QUERY, cursor)
}

pub fn build_get_packet(qsid: u16) -> (p: [u8; PACKET_LEN])
    ensures
        p@ == spec_command_packet(CMD_QSID_GET, qsid),
{
    command_packet(CMD_QSID_GET, qsid)
}

/// Does `value` fit in `width` bytes? (Every `u32` fits in four.)
pub open spec fn fits_width(value: u32, width: usize) -> bool {
    if width == 1 {
        value < 0x100
    } else if width == 2 {
        value < 0x1_0000
    } else {
        true
    }
}

/// What building a set request gives: the width is checked first, then the
/// range, and the packet carries the low `width` bytes of the value.
pub open spec fn spec_set_packet(qsid: u16, value: u32, width: usize) -> Result<
    Seq<u8>,
    QsidError,
> {
    if !valid_width(width) {
        Err(QsidError::InvalidWidth)
    } else if !fits_width(value, width) {
        Err(QsidError::ValueOutOfRange { value, width })
    } else {
        Ok(
            spec_padded(
                seq![VIAL_PREFIX, CMD_QSID_SET] + spec_u16_le(qsid) + spec_u32_le_bytes(value).take(
                    width as int,
                ),
            ),
        )
    }
}

pub fn build_set_packet(qsid: u16, value: u32, width: usize) -> (r: Result<
    [u8; PACKET_LEN],
    QsidError,
>)
    ensures
        match spec_set_packet(qsid, value, width) {
            Ok(bytes) => r matches Ok(p) && p@ == bytes,
            Err(e) => r == Err::<[u8; PACKET_LEN], QsidError>(e),
        },
{
    if !(width == 1 || width == 2 || width == 4) {
        return Err(QsidError::InvalidWidth);
    }
    if (width == 1 && value >= 0x100) || (width == 2 && value >= 0x1_0000) {
        return Err(QsidError::ValueOutOfRange { value, width });
    }
    let (lo, hi) = u16_le(qsid);
    let bytes: [u8; 4] = [
        (value % 0x100) as u8,
        ((value / 0x100) % 0x100) as u8,
        ((value / 0x1_0000) % 0x100) as u8,
        (value / 0x100_0000) as u8,
    ];
    assert(bytes@ =~= spec_u32_le_bytes(value));
    let mut v: Vec<u8> = Vec::new();
    v.push(VIAL_PREFIX);
    v.push(CMD_QSID_SET);
    v.push(lo);
    v.push(hi);
    let mut i: usize = 0;
    while i < width
        invariant
            i <= width <= 4,
            bytes@ == spec_u32_le_bytes(value),
            v@ == seq![VIAL_PREFIX, CMD_QSID_SET] + spec_u16_le(qsid) + spec_u32_le_bytes(value).take(
                i as int,
            ),
        decreases width - i,
    {
        v.push(bytes[i]);
        i = i + 1;
        assert(v@ =~= seq![VIAL_PREFIX, CMD_QSID_SET] + spec_u16_le(qsid) + spec_u32_le_bytes(
            value,
        ).take(i as int));
    }
    Ok(packet_padded(v))
}

/// The four value bytes of a get response: the `width` bytes after the
/// status byte, then zeros.
pub open spec fn spec_value_bytes(buf: Seq<u8>, width: usize) -> Seq<u8> {
    Seq::new(4, |i: int| if i < width { buf[1 + i] } else { 0u8 })
}

/// The value bytes that a set request carries.
pub open spec fn spec_set_value_bytes(packet: Seq<u8>, width: usize) -> Seq<u8> {
    packet.subrange(4, 4 + width as int)
}

/// A write reads back: a get response whose value bytes are those that a
/// set request carried gives back the value that was set.
pub proof fn lemma_set_then_get(qsid: u16, value: u32, width: usize)
    requires
        spec_set_packet(qsid, value, width) is Ok,
    ensures
        spec_get_response(
            seq![0u8] + spec_set_value_bytes(spec_set_packet(qsid, value, width)->Ok_0, width),
            width,
        ) == Ok::<u32, QsidError>(value),
{
    let p = spec_set_packet(qsid, value, width)->Ok_0;
    let le = spec_u32_le_bytes(value);
    let resp = seq![0u8] + spec_set_value_bytes(p, width);
    let vb = spec_value_bytes(resp, width);
    assert(p.len() == PACKET_LEN);
    assert forall|i: int| 0 <= i < width implies resp[1 + i] == le[i] by {
        assert(p[4 + i] == le[i]);
    }
    if width == 1 {
        assert(value < 0x100);
        assert(vb[0] == le[0] && vb[1] == 0 && vb[2] == 0 && vb[3] == 0);
        assert((value % 0x100) as u8 as int == value) by (bit_vector)
            requires
                value < 0x100,
        ;
    } else if width == 2 {
        assert(vb[0] == le[0] && vb[1] == le[1] && vb[2] == 0 && vb[3] == 0);
        assert((value % 0x100) as u8 as int + ((value / 0x100) % 0x100) as u8 as int * 0x100 == value)
            by (bit_vector)
            requires
                value < 0x1_0000,
        ;
    } else {
        assert(vb[0] == le[0] && vb[1] == le[1] && vb[2] == le[2] && vb[3] == le[3]);
        assert((value % 0x100) as u8 as int + ((value / 0x100) % 0x100) as u8 as int * 0x100 + ((value
            / 0x1_0000) % 0x100) as u8 as int * 0x1_0000 + (value / 0x100_0000) as u8 as int
            * 0x100_0000 == value) by (bit_vector);
    }
}

/// What a get response says: empty, then a non-zero status, then too short
/// are errors; otherwise the little-endian value of `width` bytes.
pub open spec fn spec_get_response(buf: Seq<u8>, width: usize) -> Result<u32, QsidError> {
    if buf.len() == 0 {
        Err(QsidError::EmptyResponse)
    } else if buf[0] != 0 {
        Err(QsidError::DeviceStatus(buf[0]))
    } else if buf.len() < 1 + width {
        Err(QsidError::ShortResponse { len: buf.len() as usize, need: (1 + width) as usize })
    } else {
        Ok(spec_u32_from_le(spec_value_bytes(buf, width)))
    }
}

pub fn parse_get_response(buf: &[u8], width: usize) -> (r: Result<u32, QsidError>)
    requires
        width <= 4 || buf@.len() == 0 || buf@[0] != 0 || (buf@.len() < 1 + width && width
            < usize::MAX),
    ensures
        r == spec_get_response(buf@, width),
{
    if buf.len() == 0 {
        return Err(QsidError::EmptyResponse);
    }
    if buf[0] != 0 {
        return Err(QsidError::DeviceStatus(buf[0]));
    }
    if buf.len() - 1 < width {
        return Err(QsidError::ShortResponse { len: buf.len(), need: 1 + width });
    }
    let mut arr = [0u8; 4];
    let mut i: usize = 0;
    while i < width
        invariant
            i <= width <= 4,
            1 + width <= buf@.len(),
            arr@.len() == 4,
            forall|j: int| 0 <= j < i ==> arr@[j] == buf@[1 + j],
            forall|j: int| i <= j < 4 ==> arr@[j] == 0u8,
        decreases width - i,
    {
        arr[i] = buf[1 + i];
        i = i + 1;
    }
    assert(arr@ =~= spec_value_bytes(buf@, width));
    let v: u32 = arr[0] as u32 + arr[1] as u32 * 0x100 + arr[2] as u32 * 0x1_0000 + arr[3] as u32
        * 0x100_0000;
    Ok(v)
}

pub open spec fn spec_set_response(buf: Seq<u8>) -> Result<(), QsidError> {
    if buf.len() == 0 {
        Err(QsidError::EmptyResponse)
    } else if buf[0] != 0 {
        Err(QsidError::DeviceStatus(buf[0]))
    } else {
        Ok(())
    }
}

pub fn parse_set_response(buf: &[u8]) -> (r: Result<(), QsidError>)
    ensures
        r == spec_set_response(buf@),
{
    if buf.len() == 0 {
        return Err(QsidError::EmptyResponse);
    }
    if buf[0] != 0 {
        return Err(QsidError::DeviceStatus(buf[0]));
    }
    Ok(())
}

/// The QSIDs listed in a query response from byte `at` on, read as
/// little-endian `u16`s up to the `0xFFFF` terminator or the last whole pair,
/// and whether the terminator was seen.
pub open spec fn spec_query_from(buf: Seq<u8>, at: nat) -> (Seq<u16>, bool)
    decreases buf.len() - at,
{
    if at + 2 > buf.len() {
        (Seq::empty(), false)
    } else {
        let q = (buf[at as int] as int + buf[at + 1int] as int * 0x100) as u16;
        if q == 0xFFFF {
            (Seq::empty(), true)
        } else {
            let rest = spec_query_from(buf, at + 2);
            (seq![q] + rest.0, rest.1)
        }
    }
}

/// Parse a single query-response packet (`u16` QSIDs, `0xFFFF`
/// terminator). Returns the QSIDs and whether the terminator was seen.
pub fn parse_query_response(buf: &[u8]) -> (r: (Vec<u16>, bool))
    ensures
        (r.0@, r.1) == spec_query_from(buf@, 0),
{
    let mut out: Vec<u16> = Vec::new();
    let mut end = false;
    let mut i: usize = 0;
    let n = buf.len();
    while n - i >= 2
        invariant_except_break
            n == buf@.len(),
            i <= n,
            !end,
            spec_query_from(buf@, 0) == (out@ + spec_query_from(buf@, i as nat).0, spec_query_from(
                buf@,
                i as nat,
            ).1),
        ensures
            spec_query_from(buf@, 0) == (out@ + spec_query_from(buf@, i as nat).0, spec_query_from(
                buf@,
                i as nat,
            ).1),
            end ==> spec_query_from(buf@, i as nat) == (Seq::<u16>::empty(), true),
            !end ==> spec_query_from(buf@, i as nat) == (Seq::<u16>::empty(), false),
        decreases n - i,
    {
        let q: u16 = buf[i] as u16 + buf[i + 1] as u16 * 0x100;
        if q == 0xFFFF {
            end = true;
            break;
        }
        let ghost before = out@;
        out.push(q);
        assert(out@ + spec_query_from(buf@, (i + 2) as nat).0 =~= before + spec_query_from(
            buf@,
            i as nat,
        ).0);
        i = i + 2;
    }
    assert(out@ + Seq::<u16>::empty() =~= out@);
    (out, end)
}

/// A non-empty packet that does not start with the state msg id `0xAB`.
pub open spec fn spec_is_qsid_response(buf: Seq<u8>) -> bool {
    buf.len() > 0 && buf[0] != 0xAB
}

/// Is a raw-HID packet a Vial QSID response, as opposed to a pushed state
/// snapshot (which always starts with `0xAB`)?
pub fn is_qsid_response(buf: &[u8]) -> (r: bool)
    ensures
        r == spec_is_qsid_response(buf@),
{
    buf.len() > 0 && buf[0] != 0xAB
}

} // verus!
