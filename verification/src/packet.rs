//! Packet dispatch registry keyed by the first byte (the msg id).
//!
//! New HID msg ids get a new `PacketHandler` impl and a
//! `Registry::builder().handler(...)` registration; dispatch stays as is.

use std::collections::HashMap;

use vstd::prelude::*;

use crate::text::{push_decimal, push_hex2, push_str, spec_decimal, spec_hex2, to_string};

verus! {

/// Why a handler refused a packet.
#[derive(Debug, Clone, Copy, PartialEq, Eq)]
pub enum DecodeError {
    /// The packet is shorter than the handler's layout.
    TooShort { len: usize, need: usize },
    /// The first byte is not the handler's msg id.
    WrongMsgId(u8),
    /// The layout version byte is not one the handler knows.
    UnsupportedVersion(u8),
}

/// Why the registry could not turn a packet into a value.
#[derive(Debug, Clone, Copy, PartialEq, Eq)]
pub enum HandleError {
    /// No handler is registered for this msg id.
    NoHandler(u8),
    /// The registered handler refused the packet.
    Decode(DecodeError),
}

impl DecodeError {
    /// The text shown to a user for this error.
    pub open spec fn spec_message(self) -> Seq<char> {
        match self {
            DecodeError::TooShort { len, need } => "state packet too short: "@ + spec_decimal(
                len as nat,
            ) + " < "@ + spec_decimal(need as nat),
            DecodeError::WrongMsgId(id) => "wrong msg_id 0x"@ + spec_hex2(id),
            DecodeError::UnsupportedVersion(v) => "unsupported state packet version "@
                + spec_decimal(v as nat),
        }
    }

    pub fn message(&self) -> (m: String)
        ensures
            m@ == self.spec_message(),
    {
        match self {
            DecodeError::TooShort { len, need } => {
                let mut m = to_string("state packet too short: ");
                push_decimal(&mut m, *len as u64);
                push_str(&mut m, " < ");
                push_decimal(&mut m, *need as u64);
                m
            },
            DecodeError::WrongMsgId(id) => {
                let mut m = to_string("wrong msg_id 0x");
                push_hex2(&mut m, *id);
                m
            },
            DecodeError::UnsupportedVersion(v) => {
                let mut m = to_string("unsupported state packet version ");
                push_decimal(&mut m, *v as u64);
                m
            },
        }
    }
}

impl HandleError {
    /// The text shown to a user for this error.
    pub open spec fn spec_message(self) -> Seq<char> {
        match self {
            HandleError::NoHandler(id) => "no handler for msg id 0x"@ + spec_hex2(id),
            HandleError::Decode(e) => e.spec_message(),
        }
    }

    pub fn message(&self) -> (m: String)
        ensures
            m@ == self.spec_message(),
    {
        match self {
            HandleError::NoHandler(id) => {
                let mut m = to_string("no handler for msg id 0x");
                push_hex2(&mut m, *id);
                m
            },
            HandleError::Decode(e) => e.message(),
        }
    }
}

/// A decoder for the packets of one msg id.
pub trait PacketHandler {
    /// What a decoded packet becomes.
    type Output;

    /// The msg id this handler decodes.
    spec fn spec_msg_id(&self) -> u8;

    fn msg_id(&self) -> (id: u8)
        ensures
            id == self.spec_msg_id(),
    ;

    /// What this handler makes of a packet: holds of `buf` and every result
    /// that `decode` may give for it.
    spec fn spec_decodes(&self, buf: &[u8], result: Result<Self::Output, DecodeError>) -> bool;

    fn decode(&self, buf: &[u8]) -> (r: Result<Self::Output, DecodeError>)
        ensures
            self.spec_decodes(buf, r),
    ;
}

/// Ids strictly increase along the list: sorted, and none occurs twice.
pub open spec fn strictly_sorted(ids: Seq<u8>) -> bool {
    forall|i: int, j: int| 0 <= i < j < ids.len() ==> ids[i] < ids[j]
}

/// Dispatches packets to the handler registered for their first byte.
pub struct Registry<H: PacketHandler> {
    handlers: HashMap<u8, H>,
}

/// Collects handlers; a later handler replaces an earlier one of the same id.
pub struct RegistryBuilder<H: PacketHandler> {
    handlers: HashMap<u8, H>,
}

impl<H: PacketHandler> Registry<H> {
    /// The registered handlers by msg id.
    pub closed spec fn spec_map(self) -> Map<u8, H> {
        self.handlers@
    }

    pub fn builder() -> (b: RegistryBuilder<H>)
        ensures
            b.spec_map() == Map::<u8, H>::empty(),
    {
        RegistryBuilder { handlers: HashMap::new() }
    }

    /// Dispatch a packet by its first byte: `Ok(None)` for an empty buffer,
    /// `NoHandler` for an id nobody registered, and otherwise what the
    /// registered handler's `decode` gives for the whole buffer.
    pub fn handle(&self, buf: &[u8]) -> (r: Result<Option<H::Output>, HandleError>)
        ensures
            buf@.len() == 0 ==> r is Ok && r->Ok_0 is None,
            buf@.len() > 0 && !self.spec_map().contains_key(buf@[0]) ==> r == Err::<
                Option<H::Output>,
                HandleError,
            >(HandleError::NoHandler(buf@[0])),
            buf@.len() > 0 && self.spec_map().contains_key(buf@[0]) ==> match r {
                Ok(Some(v)) => self.spec_map()[buf@[0]].spec_decodes(buf, Ok(v)),
                Ok(None) => false,
                Err(HandleError::Decode(e)) => self.spec_map()[buf@[0]].spec_decodes(buf, Err(e)),
                Err(HandleError::NoHandler(_)) => false,
            },
    {
        broadcast use vstd::std_specs::hash::group_hash_axioms;

        if buf.len() == 0 {
            return Ok(None);
        }
        let first = buf[0];
        match self.handlers.get(&first) {
            None => Err(HandleError::NoHandler(first)),
            Some(h) => match h.decode(buf) {
                Ok(v) => Ok(Some(v)),
                Err(e) => Err(HandleError::Decode(e)),
            },
        }
    }

    /// The registered msg ids, sorted increasingly.
    pub fn known_ids(&self) -> (ids: Vec<u8>)
        ensures
            strictly_sorted(ids@),
            forall|id: u8| ids@.contains(id) <==> #[trigger] self.spec_map().contains_key(id),
    {
        broadcast use vstd::std_specs::hash::group_hash_axioms;

        let mut ids: Vec<u8> = Vec::new();
        let mut next: u16 = 0;
        while next < 256
            invariant
                next <= 256,
                strictly_sorted(ids@),
                forall|i: int| 0 <= i < ids@.len() ==> ids@[i] < next,
                forall|id: u8|
                    id < next ==> (ids@.contains(id) <==> #[trigger] self.spec_map().contains_key(
                        id,
                    )),
            decreases 256 - next,
        {
            let id = next as u8;
            let ghost before = ids@;
            if self.handlers.contains_key(&id) {
                ids.push(id);
                assert forall|x: u8| ids@.contains(x) <==> (before.contains(x) || x == id) by {
                    if ids@.contains(x) {
                        let k = choose|k: int| 0 <= k < ids@.len() && ids@[k] == x;
                        if k < before.len() {
                            assert(before[k] == x);
                        }
                    }
                    if before.contains(x) {
                        let k = choose|k: int| 0 <= k < before.len() && before[k] == x;
                        assert(ids@[k] == x);
                    }
                    if x == id {
                        assert(ids@[before.len() as int] == x);
                    }
                }
            }
            next = next + 1;
            assert forall|x: u8| x < next implies (ids@.contains(x) <==> #[trigger] self.spec_map().contains_key(x)) by {
                if x < id {
                    if ids@.contains(x) && !before.contains(x) {
                        assert(x == id);
                    }
                } else {
                    assert(x == id);
                    if before.contains(x) {
                        let k = choose|k: int| 0 <= k < before.len() && before[k] == x;
                        assert(before[k] < id);
                    }
                }
            }
        }
        ids
    }
}

impl<H: PacketHandler> RegistryBuilder<H> {
    /// The handlers collected so far, by msg id.
    pub closed spec fn spec_map(self) -> Map<u8, H> {
        self.handlers@
    }

    /// Registers `h` under its msg id, replacing any handler of that id.
    pub fn handler(self, h: H) -> (b: Self)
        ensures
            b.spec_map() == self.spec_map().insert(h.spec_msg_id(), h),
    {
        broadcast use vstd::std_specs::hash::group_hash_axioms;

        let id = h.msg_id();
        let mut handlers = self.handlers;
        handlers.insert(id, h);
        RegistryBuilder { handlers }
    }

    pub fn build(self) -> (r: Registry<H>)
        ensures
            r.spec_map() == self.spec_map(),
    {
        Registry { handlers: self.handlers }
    }
}

} // verus!
