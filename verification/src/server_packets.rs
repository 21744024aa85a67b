//! The server→client packet set: the closed, ordered list of message kinds
//! the server may send to a client, with its tagged wire envelope, its typed
//! event sink and its dispatch operation.

use vstd::prelude::*;

use crate::codec::{
    lemma_u32_le_at_subrange, push_u32_le, read_u32_le, u32_le_at, u32_le_bytes, DecodeError,
};
use crate::events_set::SendEvent;

verus! {

/// Wire tag of the `SpawnPlayer` kind, the first (and so far only) kind.
pub const SERVER_TAG_SPAWN_PLAYER: u32 = 0;

/// Exact envelope length of a `SpawnPlayer`: a four-byte tag and three
/// four-byte coordinates.
pub const SPAWN_PLAYER_WIRE_LEN: usize = 16;

/// A 3-D position carried as the IEEE-754 bit patterns of its three 32-bit
/// float coordinates. The protocol moves the bits across the wire untouched;
/// turning them back into floats is the application layer's concern.
#[derive(Debug, Clone, Copy, PartialEq, Eq, Structural)]
pub struct Vec3Bits {
    pub x: u32,
    pub y: u32,
    pub z: u32,
}

/// Tells the client to spawn its player entity at the given position.
#[derive(Debug, Clone, Copy, PartialEq, Eq, Structural)]
pub struct SpawnPlayer {
    pub location: Vec3Bits,
}

/// The tagged union of every server→client message kind: what actually
/// crosses the wire in that direction.
#[derive(Debug, Clone, Copy, PartialEq, Eq, Structural)]
pub enum ServerPacket {
    SpawnPlayer(SpawnPlayer),
}

impl ServerPacket {
    /// The tag that names this packet's kind on the wire.
    pub open spec fn spec_tag(self) -> u32 {
        match self {
            ServerPacket::SpawnPlayer(_) => SERVER_TAG_SPAWN_PLAYER,
        }
    }

    /// The exact byte image of the envelope carrying this packet.
    pub open spec fn spec_encode(self) -> Seq<u8> {
        match self {
            ServerPacket::SpawnPlayer(sp) => u32_le_bytes(SERVER_TAG_SPAWN_PLAYER) + u32_le_bytes(
                sp.location.x,
            ) + u32_le_bytes(sp.location.y) + u32_le_bytes(sp.location.z),
        }
    }

    /// What a byte buffer decodes to under this packet set: exactly one
    /// packet, or the error naming the first fault found.
    pub open spec fn spec_decode(bytes: Seq<u8>) -> Result<ServerPacket, DecodeError> {
        if bytes.len() < 4 {
            Err(DecodeError::TruncatedEnvelope)
        } else {
            let tag = u32_le_at(bytes, 0);
            if tag == SERVER_TAG_SPAWN_PLAYER {
                if bytes.len() < SPAWN_PLAYER_WIRE_LEN {
                    Err(DecodeError::MalformedPayload)
                } else if bytes.len() > SPAWN_PLAYER_WIRE_LEN {
                    Err(DecodeError::TrailingBytes)
                } else {
                    Ok(
                        ServerPacket::SpawnPlayer(
                            SpawnPlayer {
                                location: Vec3Bits {
                                    x: u32_le_at(bytes, 4),
                                    y: u32_le_at(bytes, 8),
                                    z: u32_le_at(bytes, 12),
                                },
                            },
                        ),
                    )
                }
            } else {
                Err(DecodeError::UnknownTag(tag))
            }
        }
    }

    /// Serializes this packet into its deterministic wire envelope.
    pub fn encode(&self) -> (out: Vec<u8>)
        ensures
            out@ == self.spec_encode(),
    {
        let mut out: Vec<u8> = Vec::new();
        match self {
            ServerPacket::SpawnPlayer(sp) => {
                push_u32_le(&mut out, SERVER_TAG_SPAWN_PLAYER);
                push_u32_le(&mut out, sp.location.x);
                push_u32_le(&mut out, sp.location.y);
                push_u32_le(&mut out, sp.location.z);
            },
        }
        proof {
            assert(out@ =~= self.spec_encode());
        }
        out
    }

    /// Deserializes one wire envelope; a short buffer, an unknown tag, a bad
    /// field or trailing bytes are reported, never a panic.
    pub fn decode(bytes: &Vec<u8>) -> (r: Result<ServerPacket, DecodeError>)
        ensures
            r == ServerPacket::spec_decode(bytes@),
    {
        if bytes.len() < 4 {
            return Err(DecodeError::TruncatedEnvelope);
        }
        let tag = read_u32_le(bytes, 0);
        if tag == SERVER_TAG_SPAWN_PLAYER {
            if bytes.len() < SPAWN_PLAYER_WIRE_LEN {
                Err(DecodeError::MalformedPayload)
            } else if bytes.len() > SPAWN_PLAYER_WIRE_LEN {
                Err(DecodeError::TrailingBytes)
            } else {
                let x = read_u32_le(bytes, 4);
                let y = read_u32_le(bytes, 8);
                let z = read_u32_le(bytes, 12);
                Ok(ServerPacket::SpawnPlayer(SpawnPlayer { location: Vec3Bits { x, y, z } }))
            }
        } else {
            Err(DecodeError::UnknownTag(tag))
        }
    }
}

/// Round trip: decoding the encoding of any server packet, for any field
/// values, yields exactly that packet.
pub proof fn lemma_server_packet_round_trip(p: ServerPacket)
    ensures
        ServerPacket::spec_decode(p.spec_encode()) == Ok::<ServerPacket, DecodeError>(p),
{
    let bytes = p.spec_encode();
    match p {
        ServerPacket::SpawnPlayer(sp) => {
            assert(bytes.subrange(0, 4) =~= u32_le_bytes(SERVER_TAG_SPAWN_PLAYER));
            lemma_u32_le_at_subrange(bytes, 0, SERVER_TAG_SPAWN_PLAYER);
            assert(bytes.subrange(4, 8) =~= u32_le_bytes(sp.location.x));
            lemma_u32_le_at_subrange(bytes, 4, sp.location.x);
            assert(bytes.subrange(8, 12) =~= u32_le_bytes(sp.location.y));
            lemma_u32_le_at_subrange(bytes, 8, sp.location.y);
            assert(bytes.subrange(12, 16) =~= u32_le_bytes(sp.location.z));
            lemma_u32_le_at_subrange(bytes, 12, sp.location.z);
        },
    }
}

/// Tag distinctness: two server packets share a wire tag only when they are
/// of the same kind.
pub proof fn lemma_server_tags_distinct(p: ServerPacket, q: ServerPacket)
    ensures
        p.spec_tag() == q.spec_tag() ==> (p is SpawnPlayer <==> q is SpawnPlayer),
{
}

/// Tag exhaustiveness: an envelope whose tag lies outside the declared set
/// decodes to the tag's own failure, never to a packet.
pub proof fn lemma_server_unknown_tag_rejected(bytes: Seq<u8>)
    requires
        bytes.len() >= 4,
        forall|p: ServerPacket| u32_le_at(bytes, 0) != p.spec_tag(),
    ensures
        ServerPacket::spec_decode(bytes) == Err::<ServerPacket, DecodeError>(
            DecodeError::UnknownTag(u32_le_at(bytes, 0)),
        ),
{
    assert(u32_le_at(bytes, 0) != ServerPacket::SpawnPlayer(
        SpawnPlayer { location: Vec3Bits { x: 0, y: 0, z: 0 } },
    ).spec_tag());
}

/// The client-side typed multi-event sink for this packet set: dispatch
/// forwards each decoded kind to the kind's own queue.
pub struct ServerPacketsWriter {
    pub spawn_player: Vec<SpawnPlayer>,
}

impl ServerPacketsWriter {
    /// A sink with every queue empty.
    pub fn new() -> (w: ServerPacketsWriter)
        ensures
            w.spawn_player@ == Seq::<SpawnPlayer>::empty(),
    {
        ServerPacketsWriter { spawn_player: Vec::new() }
    }
}

impl SendEvent<SpawnPlayer> for ServerPacketsWriter {
    open spec fn sent(&self) -> Seq<SpawnPlayer> {
        self.spawn_player@
    }

    fn send(&mut self, event: SpawnPlayer) {
        self.spawn_player.push(event);
    }
}

/// The dispatch operation of this packet set: decodes one envelope and
/// forwards the contained message to the sink's matching typed output. A
/// failure leaves the sink untouched and is reported to the caller, who logs
/// and discards the single message.
pub fn handle_server_packet(packets: &mut ServerPacketsWriter, message: &Vec<u8>) -> (r: Result<
    (),
    DecodeError,
>)
    ensures
        match ServerPacket::spec_decode(message@) {
            Ok(p) => r is Ok && final(packets).spawn_player@ == old(packets).spawn_player@.push(
                p->SpawnPlayer_0,
            ),
            Err(e) => r == Err::<(), DecodeError>(e) && final(packets).spawn_player@ == old(
                packets,
            ).spawn_player@,
        },
{
    match ServerPacket::decode(message) {
        Ok(ServerPacket::SpawnPlayer(sp)) => {
            packets.send(sp);
            Ok(())
        },
        Err(e) => Err(e),
    }
}

} // verus!
