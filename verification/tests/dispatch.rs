//! Dispatch loops end to end: per-tick ordering, failure isolation, the
//! greeting on connect, and the full loopback scenario.

use packnet::client_net::{client_tick, connect_to_server, receive_server_packets};
use packnet::client_packets::{ClientPacket, ClientPacketEventsWriter, Noop};
use packnet::codec::DecodeError;
use packnet::server_net::{
    handle_events, receive_client_packets, server_config, server_tick, MAX_CLIENTS, PROTOCOL_ID,
    SERVER_PORT,
};
use packnet::server_packets::ServerPacketsWriter;
use packnet::transport::{
    flush_client_to_server, flush_server_to_client, Channel, ClientEvent, ConnectResponse,
    DisconnectReason, NetAddr, Server, ServerEvent,
};

fn client_addr() -> NetAddr {
    NetAddr {
        a: 127,
        b: 0,
        c: 0,
        d: 1,
        port: 54321,
    }
}

#[test]
fn configured_like_the_deployed_system() {
    let cfg = server_config();
    assert_eq!(cfg.max_clients, MAX_CLIENTS);
    assert_eq!(MAX_CLIENTS, 1024);
    assert_eq!(cfg.protocol_id, PROTOCOL_ID);
    assert_eq!(SERVER_PORT, 5000);
    assert_eq!(cfg.public_addr.port, 5000);
    assert_eq!((cfg.public_addr.a, cfg.public_addr.b, cfg.public_addr.c, cfg.public_addr.d), (0, 0, 0, 0));
}

#[test]
fn end_to_end_connect_spawns_player_at_ten() {
    // client connects to the server at 127.0.0.1:5000
    let mut server = Server::new(server_config());
    let (mut client, request) = connect_to_server(123_456_789);
    assert_eq!(client.client_id(), 123_456_789);

    // the handshake crosses the wire and is accepted
    let response = server.handle_connect_request(request, client_addr());
    assert_eq!(response, ConnectResponse::Accepted);
    client.handle_connect_response(response);
    assert!(client.is_connected());

    // the server's next tick observes the new connection and immediately
    // sends the spawn message
    let mut server_sink = ClientPacketEventsWriter::new();
    let (events, failures) = server_tick(&mut server, &mut server_sink);
    assert_eq!(
        events,
        vec![ServerEvent::ClientConnected {
            client_id: 123_456_789,
        }]
    );
    assert!(failures.is_empty());

    // within one subsequent client tick, the typed spawn event arrives with
    // exactly the position (10.0, 10.0, 10.0)
    flush_server_to_client(&mut server, &mut client);
    let mut client_sink = ServerPacketsWriter::new();
    let (client_events, client_failures) = client_tick(&mut client, &mut client_sink);
    assert_eq!(client_events, vec![ClientEvent::Connected]);
    assert!(client_failures.is_empty());
    assert_eq!(client_sink.spawn_player.len(), 1);
    let location = client_sink.spawn_player[0].location;
    assert_eq!(f32::from_bits(location.x), 10.0);
    assert_eq!(f32::from_bits(location.y), 10.0);
    assert_eq!(f32::from_bits(location.z), 10.0);
}

#[test]
fn lifecycle_event_precedes_same_tick_payload() {
    // a connection completes its handshake and already has payload queued
    // before the server's tick runs
    let mut server = Server::new(server_config());
    let (mut client, request) = connect_to_server(5);
    let response = server.handle_connect_request(request, client_addr());
    client.handle_connect_response(response);
    client
        .send_message(
            Channel::ReliableOrdered,
            ClientPacket::Noop(Noop { test: true }).encode(),
        )
        .unwrap();
    flush_client_to_server(&mut client, &mut server);

    // one tick yields the connected event in its lifecycle phase and the
    // payload in its payload phase; the lifecycle phase runs first
    let mut sink = ClientPacketEventsWriter::new();
    let (events, failures) = server_tick(&mut server, &mut sink);
    assert_eq!(events, vec![ServerEvent::ClientConnected { client_id: 5 }]);
    assert!(failures.is_empty());
    assert_eq!(sink.noop.len(), 1);
    assert_eq!(sink.noop[0].from, 5);
    assert!(sink.noop[0].event.test);
}

#[test]
fn thousand_sends_dispatch_in_order_with_no_loss() {
    let mut server = Server::new(server_config());
    let (mut client, request) = connect_to_server(9);
    let response = server.handle_connect_request(request, client_addr());
    client.handle_connect_response(response);

    let mut expected: Vec<bool> = Vec::new();
    for i in 0..1000u32 {
        let flag = i % 3 == 0;
        expected.push(flag);
        client
            .send_message(
                Channel::ReliableOrdered,
                ClientPacket::Noop(Noop { test: flag }).encode(),
            )
            .unwrap();
    }
    flush_client_to_server(&mut client, &mut server);

    let mut sink = ClientPacketEventsWriter::new();
    let failures = receive_client_packets(&mut server, &mut sink);
    assert!(failures.is_empty());
    assert_eq!(sink.noop.len(), 1000);
    for (i, entry) in sink.noop.iter().enumerate() {
        assert_eq!(entry.from, 9);
        assert_eq!(entry.event.test, expected[i]);
    }
}

#[test]
fn two_senders_keep_their_own_order_and_tags() {
    let mut server = Server::new(server_config());
    let (mut first, req1) = connect_to_server(100);
    first.handle_connect_response(server.handle_connect_request(req1, client_addr()));
    let (mut second, req2) = connect_to_server(200);
    second.handle_connect_response(server.handle_connect_request(req2, client_addr()));

    for flag in [true, false, true] {
        first
            .send_message(
                Channel::ReliableOrdered,
                ClientPacket::Noop(Noop { test: flag }).encode(),
            )
            .unwrap();
    }
    second
        .send_message(
            Channel::ReliableOrdered,
            ClientPacket::Noop(Noop { test: false }).encode(),
        )
        .unwrap();
    flush_client_to_server(&mut first, &mut server);
    flush_client_to_server(&mut second, &mut server);

    let mut sink = ClientPacketEventsWriter::new();
    let _ = server.take_events();
    let failures = receive_client_packets(&mut server, &mut sink);
    assert!(failures.is_empty());
    let tagged: Vec<(u64, bool)> = sink.noop.iter().map(|e| (e.from, e.event.test)).collect();
    assert_eq!(
        tagged,
        vec![(100, true), (100, false), (100, true), (200, false)]
    );
}

#[test]
fn decode_failure_skips_message_not_batch() {
    let mut server = Server::new(server_config());
    let (mut client, request) = connect_to_server(3);
    let response = server.handle_connect_request(request, client_addr());
    client.handle_connect_response(response);

    let good = ClientPacket::Noop(Noop { test: true }).encode();
    client
        .send_message(Channel::ReliableOrdered, good.clone())
        .unwrap();
    client
        .send_message(Channel::ReliableOrdered, vec![2, 0, 0, 0, 1])
        .unwrap();
    client
        .send_message(Channel::ReliableOrdered, good)
        .unwrap();
    flush_client_to_server(&mut client, &mut server);

    let mut sink = ClientPacketEventsWriter::new();
    let _ = server.take_events();
    let failures = receive_client_packets(&mut server, &mut sink);
    // the malformed middle message is reported; both neighbours dispatch
    assert_eq!(failures, vec![(3, DecodeError::UnknownTag(2))]);
    assert_eq!(sink.noop.len(), 2);
}

#[test]
fn greeting_goes_to_fresh_connection_only() {
    let mut server = Server::new(server_config());
    let (mut first, request) = connect_to_server(1);
    first.handle_connect_response(server.handle_connect_request(request, client_addr()));
    let _ = handle_events(&mut server);
    flush_server_to_client(&mut server, &mut first);

    // a later tick with no fresh connection sends nothing more
    let _ = handle_events(&mut server);
    flush_server_to_client(&mut server, &mut first);

    let mut sink = ServerPacketsWriter::new();
    let failures = receive_server_packets(&mut first, &mut sink);
    assert!(failures.is_empty());
    assert_eq!(sink.spawn_player.len(), 1);
}

#[test]
fn client_tick_reports_failures_and_keeps_rest() {
    let mut server = Server::new(server_config());
    let (mut client, request) = connect_to_server(8);
    client.handle_connect_response(server.handle_connect_request(request, client_addr()));
    let _ = handle_events(&mut server);
    // a garbled datagram sneaks in between two flushes
    flush_server_to_client(&mut server, &mut client);
    client.deliver_inbound(vec![vec![0, 0, 0]]);

    let mut sink = ServerPacketsWriter::new();
    let (events, failures) = client_tick(&mut client, &mut sink);
    assert_eq!(events, vec![ClientEvent::Connected]);
    assert_eq!(failures, vec![DecodeError::TruncatedEnvelope]);
    assert_eq!(sink.spawn_player.len(), 1);
}

#[test]
fn disconnected_client_dispatches_nothing_further() {
    let mut server = Server::new(server_config());
    let (mut client, request) = connect_to_server(4);
    client.handle_connect_response(server.handle_connect_request(request, client_addr()));
    let _ = handle_events(&mut server);
    flush_server_to_client(&mut server, &mut client);
    client.close();

    let mut sink = ServerPacketsWriter::new();
    let (events, failures) = client_tick(&mut client, &mut sink);
    assert_eq!(
        events,
        vec![
            ClientEvent::Connected,
            ClientEvent::Disconnected {
                reason: DisconnectReason::ClosedLocally,
            },
        ]
    );
    assert!(failures.is_empty());
    // the queues died with the connection
    assert!(sink.spawn_player.is_empty());
}
