//! Wire codec and packet set registry: round trips, tag handling, and the
//! strict decode failures.

use packnet::client_packets::{
    handle_client_packet, ClientPacket, ClientPacketEventsWriter, Noop,
};
use packnet::codec::DecodeError;
use packnet::events_set::SendEvent;
use packnet::server_packets::{
    handle_server_packet, ServerPacket, ServerPacketsWriter, SpawnPlayer, Vec3Bits,
};

fn spawn_packet(x: u32, y: u32, z: u32) -> ServerPacket {
    ServerPacket::SpawnPlayer(SpawnPlayer { location: Vec3Bits { x, y, z } })
}

#[test]
fn client_packet_round_trip_both_values() {
    for test in [false, true] {
        let p = ClientPacket::Noop(Noop { test });
        let bytes = p.encode();
        assert_eq!(bytes.len(), 5);
        assert_eq!(ClientPacket::decode(&bytes), Ok(p));
    }
}

#[test]
fn server_packet_round_trip_boundary_values() {
    let zero = spawn_packet(0, 0, 0);
    let max = spawn_packet(u32::MAX, u32::MAX, u32::MAX);
    let ten = spawn_packet(10.0f32.to_bits(), 10.0f32.to_bits(), 10.0f32.to_bits());
    let mixed = spawn_packet(1.5f32.to_bits(), (-0.0f32).to_bits(), f32::MAX.to_bits());
    for p in [zero, max, ten, mixed] {
        let bytes = p.encode();
        assert_eq!(bytes.len(), 16);
        assert_eq!(ServerPacket::decode(&bytes), Ok(p));
    }
}

#[test]
fn spawn_location_bits_are_ten() {
    assert_eq!(f32::from_bits(packnet::server_net::TEN_F32_BITS), 10.0);
}

#[test]
fn encoding_is_deterministic() {
    let p = spawn_packet(7, 8, 9);
    assert_eq!(p.encode(), p.encode());
    let q = ClientPacket::Noop(Noop { test: true });
    assert_eq!(q.encode(), q.encode());
}

#[test]
fn encoding_is_tag_then_little_endian_payload() {
    let p = spawn_packet(1, 0x0201, 0x04030201);
    assert_eq!(
        p.encode(),
        vec![0, 0, 0, 0, 1, 0, 0, 0, 1, 2, 0, 0, 1, 2, 3, 4]
    );
    let q = ClientPacket::Noop(Noop { test: true });
    assert_eq!(q.encode(), vec![0, 0, 0, 0, 1]);
}

#[test]
fn decode_unknown_tag_fails() {
    // tag 1 is declared in neither packet set
    let bytes = vec![1, 0, 0, 0, 1];
    assert_eq!(
        ClientPacket::decode(&bytes),
        Err(DecodeError::UnknownTag(1))
    );
    assert_eq!(
        ServerPacket::decode(&bytes),
        Err(DecodeError::UnknownTag(1))
    );
    let high = vec![0xff, 0xff, 0xff, 0xff];
    assert_eq!(
        ClientPacket::decode(&high),
        Err(DecodeError::UnknownTag(u32::MAX))
    );
}

#[test]
fn decode_truncated_envelope_fails() {
    for bytes in [vec![], vec![0], vec![0, 0, 0]] {
        assert_eq!(
            ClientPacket::decode(&bytes),
            Err(DecodeError::TruncatedEnvelope)
        );
        assert_eq!(
            ServerPacket::decode(&bytes),
            Err(DecodeError::TruncatedEnvelope)
        );
    }
}

#[test]
fn decode_truncated_payload_fails() {
    let tag_only = vec![0, 0, 0, 0];
    assert_eq!(
        ClientPacket::decode(&tag_only),
        Err(DecodeError::MalformedPayload)
    );
    let short = vec![0, 0, 0, 0, 1, 2, 3];
    assert_eq!(
        ServerPacket::decode(&short),
        Err(DecodeError::MalformedPayload)
    );
}

#[test]
fn decode_invalid_bool_fails() {
    let bytes = vec![0, 0, 0, 0, 2];
    assert_eq!(
        ClientPacket::decode(&bytes),
        Err(DecodeError::MalformedPayload)
    );
}

#[test]
fn decode_trailing_bytes_fails() {
    let mut bytes = ClientPacket::Noop(Noop { test: false }).encode();
    bytes.push(0);
    assert_eq!(
        ClientPacket::decode(&bytes),
        Err(DecodeError::TrailingBytes)
    );
    let mut bytes = spawn_packet(1, 2, 3).encode();
    bytes.push(9);
    assert_eq!(
        ServerPacket::decode(&bytes),
        Err(DecodeError::TrailingBytes)
    );
}

#[test]
fn sink_forwards_to_typed_queue() {
    let mut writer = ServerPacketsWriter::new();
    writer.send(SpawnPlayer {
        location: Vec3Bits { x: 1, y: 2, z: 3 },
    });
    assert_eq!(writer.spawn_player.len(), 1);
    assert_eq!(writer.spawn_player[0].location, Vec3Bits { x: 1, y: 2, z: 3 });
}

#[test]
fn dispatch_routes_decoded_packet_to_sink() {
    let mut writer = ClientPacketEventsWriter::new();
    let bytes = ClientPacket::Noop(Noop { test: true }).encode();
    assert!(handle_client_packet(&mut writer, 42, &bytes).is_ok());
    assert_eq!(writer.noop.len(), 1);
    assert_eq!(writer.noop[0].from, 42);
    assert!(writer.noop[0].event.test);
}

#[test]
fn dispatch_reports_failure_and_leaves_sink_untouched() {
    let mut writer = ServerPacketsWriter::new();
    let garbled = vec![9, 9, 9, 9, 9];
    assert_eq!(
        handle_server_packet(&mut writer, &garbled),
        Err(DecodeError::UnknownTag(0x09090909))
    );
    assert!(writer.spawn_player.is_empty());
}
