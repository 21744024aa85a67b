//! The client→server packet set: the closed, ordered list of message kinds a
//! client may send to the server, with its tagged wire envelope, its typed
//! event sink and its dispatch operation.

use vstd::prelude::*;

use crate::codec::{
    bool_byte, lemma_u32_le_at_subrange, push_u32_le, read_u32_le, u32_le_at, u32_le_bytes,
    DecodeError,
};
use crate::events_set::{FromClient, SendEvent};

verus! {

/// Wire tag of the `Noop` kind, the first (and so far only) kind of the set.
pub const CLIENT_TAG_NOOP: u32 = 0;

/// Exact envelope length of a `Noop`: a four-byte tag and a one-byte payload.
pub const NOOP_WIRE_LEN: usize = 5;

/// A placeholder gameplay message; the client currently has nothing to report.
#[derive(Debug, Clone, Copy, PartialEq, Eq, Structural)]
pub struct Noop {
    pub test: bool,
}

/// The tagged union of every client→server message kind: what actually
/// crosses the wire in that direction.
#[derive(Debug, Clone, Copy, PartialEq, Eq, Structural)]
pub enum ClientPacket {
    Noop(Noop),
}

impl ClientPacket {
    /// The tag that names this packet's kind on the wire.
    pub open spec fn spec_tag(self) -> u32 {
        match self {
            ClientPacket::Noop(_) => CLIENT_TAG_NOOP,
        }
    }

    /// The exact byte image of the envelope carrying this packet.
    pub open spec fn spec_encode(self) -> Seq<u8> {
        match self {
            ClientPacket::Noop(n) => u32_le_bytes(CLIENT_TAG_NOOP) + seq![bool_byte(n.test)],
        }
    }

    /// What a byte buffer decodes to under this packet set: exactly one
    /// packet, or the error naming the first fault found.
    pub open spec fn spec_decode(bytes: Seq<u8>) -> Result<ClientPacket, DecodeError> {
        if bytes.len() < 4 {
            Err(DecodeError::TruncatedEnvelope)
        } else {
            let tag = u32_le_at(bytes, 0);
            if tag == CLIENT_TAG_NOOP {
                if bytes.len() < NOOP_WIRE_LEN {
                    Err(DecodeError::MalformedPayload)
                } else if bytes.len() > NOOP_WIRE_LEN {
                    Err(DecodeError::TrailingBytes)
                } else if bytes[4] == 0 {
                    Ok(ClientPacket::Noop(Noop { test: false }))
                } else if bytes[4] == 1 {
                    Ok(ClientPacket::Noop(Noop { test: true }))
                } else {
                    Err(DecodeError::MalformedPayload)
                }
            } else {
                Err(DecodeError::UnknownTag(tag))
            }
        }
    }

    /// Serializes this packet into its deterministic wire envelope.
    pub fn encode(&self) -> (out: Vec<u8>)
        ensures
            out@ == self.spec_encode(),
    {
        let mut out: Vec<u8> = Vec::new();
        match self {
            ClientPacket::Noop(n) => {
                push_u32_le(&mut out, CLIENT_TAG_NOOP);
                out.push(if n.test {
                    1
                } else {
                    0
                });
            },
        }
        proof {
            assert(out@ =~= self.spec_encode());
        }
        out
    }

    /// Deserializes one wire envelope; a short buffer, an unknown tag, a bad
    /// field or trailing bytes are reported, never a panic.
    pub fn decode(bytes: &Vec<u8>) -> (r: Result<ClientPacket, DecodeError>)
        ensures
            r == ClientPacket::spec_decode(bytes@),
    {
        if bytes.len() < 4 {
            return Err(DecodeError::TruncatedEnvelope);
        }
        let tag = read_u32_le(bytes, 0);
        if tag == CLIENT_TAG_NOOP {
            if bytes.len() < NOOP_WIRE_LEN {
                Err(DecodeError::MalformedPayload)
            } else if bytes.len() > NOOP_WIRE_LEN {
                Err(DecodeError::TrailingBytes)
            } else {
                let b = bytes[4];
                if b == 0 {
                    Ok(ClientPacket::Noop(Noop { test: false }))
                } else if b == 1 {
                    Ok(ClientPacket::Noop(Noop { test: true }))
                } else {
                    Err(DecodeError::MalformedPayload)
                }
            }
        } else {
            Err(DecodeError::UnknownTag(tag))
        }
    }
}

/// Round trip: decoding the encoding of any client packet, for any field
/// values, yields exactly that packet.
pub proof fn lemma_client_packet_round_trip(p: ClientPacket)
    ensures
        ClientPacket::spec_decode(p.spec_encode()) == Ok::<ClientPacket, DecodeError>(p),
{
    let bytes = p.spec_encode();
    match p {
        ClientPacket::Noop(n) => {
            assert(bytes.subrange(0, 4) =~= u32_le_bytes(CLIENT_TAG_NOOP));
            lemma_u32_le_at_subrange(bytes, 0, CLIENT_TAG_NOOP);
            assert(bytes[4] == bool_byte(n.test));
        },
    }
}

/// Tag distinctness: two client packets share a wire tag only when they are
/// of the same kind.
pub proof fn lemma_client_tags_distinct(p: ClientPacket, q: ClientPacket)
    ensures
        p.spec_tag() == q.spec_tag() ==> (p is Noop <==> q is Noop),
{
}

/// Tag exhaustiveness: an envelope whose tag lies outside the declared set
/// decodes to the tag's own failure, never to a packet.
pub proof fn lemma_client_unknown_tag_rejected(bytes: Seq<u8>)
    requires
        bytes.len() >= 4,
        forall|p: ClientPacket| u32_le_at(bytes, 0) != p.spec_tag(),
    ensures
        ClientPacket::spec_decode(bytes) == Err::<ClientPacket, DecodeError>(
            DecodeError::UnknownTag(u32_le_at(bytes, 0)),
        ),
{
    assert(u32_le_at(bytes, 0) != ClientPacket::Noop(Noop { test: false }).spec_tag());
}

/// The server-side typed multi-event sink for this packet set: dispatch
/// forwards each decoded kind to the kind's own queue, tagged with the
/// originating connection identifier.
pub struct ClientPacketEventsWriter {
    pub noop: Vec<FromClient<Noop>>,
}

impl ClientPacketEventsWriter {
    /// A sink with every queue empty.
    pub fn new() -> (w: ClientPacketEventsWriter)
        ensures
            w.noop@ == Seq::<FromClient<Noop>>::empty(),
    {
        ClientPacketEventsWriter { noop: Vec::new() }
    }
}

impl SendEvent<FromClient<Noop>> for ClientPacketEventsWriter {
    open spec fn sent(&self) -> Seq<FromClient<Noop>> {
        self.noop@
    }

    fn send(&mut self, event: FromClient<Noop>) {
        self.noop.push(event);
    }
}

/// The dispatch operation of this packet set: decodes one envelope received
/// from connection `from` and forwards the contained message to the sink's
/// matching typed output. A failure leaves the sink untouched and is
/// reported to the caller, who logs and discards the single message.
pub fn handle_client_packet(
    packets: &mut ClientPacketEventsWriter,
    from: u64,
    message: &Vec<u8>,
) -> (r: Result<(), DecodeError>)
    ensures
        match ClientPacket::spec_decode(message@) {
            Ok(p) => r is Ok && final(packets).noop@ == old(packets).noop@.push(
                FromClient { from, event: p->Noop_0 },
            ),
            Err(e) => r == Err::<(), DecodeError>(e) && final(packets).noop@ == old(packets).noop@,
        },
{
    match ClientPacket::decode(message) {
        Ok(ClientPacket::Noop(n)) => {
            packets.send(FromClient { from, event: n });
            Ok(())
        },
        Err(e) => Err(e),
    }
}

} // verus!
