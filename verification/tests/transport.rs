//! Connection transport: handshake outcomes, capacity, lifecycle events,
//! idempotent close, send/receive rules, and FIFO delivery.

use packnet::transport::{
    Channel, Client, ClientState, ConnectRequest, ConnectResponse, DenyReason, DisconnectReason,
    NetAddr, SendError, Server, ServerConfig, ServerEvent,
};

fn test_addr(d: u8) -> NetAddr {
    NetAddr {
        a: 10,
        b: 0,
        c: 0,
        d,
        port: 40000,
    }
}

fn small_server(max_clients: usize) -> Server {
    Server::new(ServerConfig {
        max_clients,
        protocol_id: 0,
        public_addr: NetAddr {
            a: 0,
            b: 0,
            c: 0,
            d: 0,
            port: 5000,
        },
    })
}

fn accept(server: &mut Server, client_id: u64, d: u8) {
    let req = ConnectRequest {
        client_id,
        protocol_id: 0,
    };
    assert_eq!(
        server.handle_connect_request(req, test_addr(d)),
        ConnectResponse::Accepted
    );
}

#[test]
fn handshake_accepts_and_surfaces_connected_event() {
    let mut server = small_server(8);
    accept(&mut server, 7, 1);
    assert!(server.is_connected(7));
    assert_eq!(server.connected_count(), 1);
    assert_eq!(
        server.take_events(),
        vec![ServerEvent::ClientConnected { client_id: 7 }]
    );
    // events are drained, not repeated
    assert_eq!(server.take_events(), vec![]);
}

#[test]
fn handshake_rejects_protocol_mismatch() {
    let mut server = small_server(8);
    let req = ConnectRequest {
        client_id: 7,
        protocol_id: 1,
    };
    assert_eq!(
        server.handle_connect_request(req, test_addr(1)),
        ConnectResponse::Denied(DenyReason::ProtocolMismatch)
    );
    assert!(!server.is_connected(7));
    assert_eq!(server.take_events(), vec![]);
}

#[test]
fn handshake_rejects_duplicate_identifier() {
    let mut server = small_server(8);
    accept(&mut server, 7, 1);
    let req = ConnectRequest {
        client_id: 7,
        protocol_id: 0,
    };
    assert_eq!(
        server.handle_connect_request(req, test_addr(2)),
        ConnectResponse::Denied(DenyReason::AlreadyConnected)
    );
    assert_eq!(server.connected_count(), 1);
}

#[test]
fn capacity_rejects_next_handshake_and_frees_on_disconnect() {
    let max: usize = 3;
    let mut server = small_server(max);
    for id in 0..max as u64 {
        accept(&mut server, id, id as u8);
    }
    assert_eq!(server.connected_count(), max);
    // the (N+1)th concurrent handshake is rejected while N remain connected
    let extra = ConnectRequest {
        client_id: 99,
        protocol_id: 0,
    };
    assert_eq!(
        server.handle_connect_request(extra, test_addr(9)),
        ConnectResponse::Denied(DenyReason::ServerFull)
    );
    assert_eq!(server.connected_count(), max);
    // after one of the N disconnects, the same handshake is accepted at once
    server.disconnect_client(1, DisconnectReason::LivenessTimeout);
    assert_eq!(
        server.handle_connect_request(extra, test_addr(9)),
        ConnectResponse::Accepted
    );
    assert_eq!(server.connected_count(), max);
}

#[test]
fn disconnect_is_idempotent_with_single_event() {
    let mut server = small_server(8);
    accept(&mut server, 7, 1);
    let _ = server.take_events();
    server.disconnect_client(7, DisconnectReason::ClosedByPeer);
    server.disconnect_client(7, DisconnectReason::ClosedByPeer);
    // closing an identifier that never connected is a no-op too
    server.disconnect_client(1000, DisconnectReason::ClosedLocally);
    assert_eq!(
        server.take_events(),
        vec![ServerEvent::ClientDisconnected {
            client_id: 7,
            reason: DisconnectReason::ClosedByPeer,
        }]
    );
    assert!(!server.is_connected(7));
}

#[test]
fn server_send_requires_live_connection() {
    let mut server = small_server(8);
    assert_eq!(
        server.send_message(7, Channel::ReliableOrdered, vec![1, 2, 3]),
        Err(SendError::NotConnected)
    );
    accept(&mut server, 7, 1);
    assert_eq!(
        server.send_message(7, Channel::ReliableOrdered, vec![1, 2, 3]),
        Ok(())
    );
    server.disconnect_client(7, DisconnectReason::ClosedLocally);
    assert_eq!(
        server.send_message(7, Channel::ReliableOrdered, vec![1, 2, 3]),
        Err(SendError::NotConnected)
    );
}

#[test]
fn server_receive_is_fifo_per_sender_across_thousand_sends() {
    let mut server = small_server(8);
    accept(&mut server, 7, 1);
    accept(&mut server, 8, 2);
    let mut batch: Vec<Vec<u8>> = Vec::new();
    for i in 0..1000u32 {
        batch.push(i.to_le_bytes().to_vec());
    }
    server.deliver_inbound(7, batch);
    // another sender's traffic does not disturb the first sender's order
    server.deliver_inbound(8, vec![vec![0xaa]]);
    for i in 0..1000u32 {
        let got = server
            .receive_message(7, Channel::ReliableOrdered)
            .expect("no message lost");
        assert_eq!(got, i.to_le_bytes().to_vec());
    }
    assert_eq!(server.receive_message(7, Channel::ReliableOrdered), None);
    assert_eq!(
        server.receive_message(8, Channel::ReliableOrdered),
        Some(vec![0xaa])
    );
}

#[test]
fn inbound_for_unknown_identifier_is_dropped() {
    let mut server = small_server(8);
    server.deliver_inbound(5, vec![vec![1]]);
    assert_eq!(server.receive_message(5, Channel::ReliableOrdered), None);
}

#[test]
fn clients_id_lists_live_connections_in_order() {
    let mut server = small_server(8);
    accept(&mut server, 30, 1);
    accept(&mut server, 10, 2);
    accept(&mut server, 20, 3);
    assert_eq!(server.clients_id(), vec![30, 10, 20]);
    server.disconnect_client(10, DisconnectReason::ClosedLocally);
    assert_eq!(server.clients_id(), vec![30, 20]);
}

#[test]
fn client_connect_handshake_lifecycle() {
    let (mut client, req) = Client::connect(test_addr(1), 77, 0);
    assert_eq!(
        req,
        ConnectRequest {
            client_id: 77,
            protocol_id: 0,
        }
    );
    assert!(matches!(client.state(), ClientState::Connecting));
    client.handle_connect_response(ConnectResponse::Accepted);
    assert!(client.is_connected());
    assert_eq!(
        client.take_events(),
        vec![packnet::transport::ClientEvent::Connected]
    );
}

#[test]
fn client_handshake_denial_disconnects_with_reason() {
    let (mut client, _req) = Client::connect(test_addr(1), 77, 0);
    client.handle_connect_response(ConnectResponse::Denied(DenyReason::ServerFull));
    assert!(matches!(client.state(), ClientState::Disconnected));
    assert_eq!(
        client.take_events(),
        vec![packnet::transport::ClientEvent::Disconnected {
            reason: DisconnectReason::HandshakeDenied(DenyReason::ServerFull),
        }]
    );
}

#[test]
fn client_close_is_idempotent_with_single_event() {
    let (mut client, _req) = Client::connect(test_addr(1), 77, 0);
    client.handle_connect_response(ConnectResponse::Accepted);
    let _ = client.take_events();
    client.close();
    client.close();
    assert_eq!(
        client.take_events(),
        vec![packnet::transport::ClientEvent::Disconnected {
            reason: DisconnectReason::ClosedLocally,
        }]
    );
    // closing a client that was never connected after it disconnected: still silent
    client.close();
    assert_eq!(client.take_events(), vec![]);
}

#[test]
fn client_send_requires_connected_state() {
    let (mut client, _req) = Client::connect(test_addr(1), 77, 0);
    assert_eq!(
        client.send_message(Channel::ReliableOrdered, vec![1]),
        Err(SendError::NotConnected)
    );
    client.handle_connect_response(ConnectResponse::Accepted);
    assert_eq!(client.send_message(Channel::ReliableOrdered, vec![1]), Ok(()));
    client.close();
    assert_eq!(
        client.send_message(Channel::ReliableOrdered, vec![1]),
        Err(SendError::NotConnected)
    );
}

#[test]
fn client_link_lost_surfaces_liveness_timeout() {
    let (mut client, _req) = Client::connect(test_addr(1), 77, 0);
    client.handle_connect_response(ConnectResponse::Accepted);
    let _ = client.take_events();
    client.handle_link_lost(DisconnectReason::LivenessTimeout);
    client.handle_link_lost(DisconnectReason::LivenessTimeout);
    assert_eq!(
        client.take_events(),
        vec![packnet::transport::ClientEvent::Disconnected {
            reason: DisconnectReason::LivenessTimeout,
        }]
    );
}

#[test]
fn connect_then_disconnect_same_tick_keeps_event_order() {
    let mut server = small_server(8);
    accept(&mut server, 7, 1);
    server.disconnect_client(7, DisconnectReason::ClosedByPeer);
    assert_eq!(
        server.take_events(),
        vec![
            ServerEvent::ClientConnected { client_id: 7 },
            ServerEvent::ClientDisconnected {
                client_id: 7,
                reason: DisconnectReason::ClosedByPeer,
            },
        ]
    );
}

#[test]
fn client_handshake_timeout_resolves_to_disconnected() {
    let (mut client, _req) = Client::connect(test_addr(1), 77, 0);
    client.handle_link_lost(DisconnectReason::HandshakeTimeout);
    assert!(matches!(client.state(), ClientState::Disconnected));
    assert_eq!(
        client.take_events(),
        vec![packnet::transport::ClientEvent::Disconnected {
            reason: DisconnectReason::HandshakeTimeout,
        }]
    );
    // a late handshake answer is stale and ignored
    client.handle_connect_response(ConnectResponse::Accepted);
    assert!(matches!(client.state(), ClientState::Disconnected));
    assert_eq!(client.take_events(), vec![]);
}

#[test]
fn disconnect_reasons_are_human_readable() {
    let reasons = [
        DisconnectReason::ClosedLocally,
        DisconnectReason::ClosedByPeer,
        DisconnectReason::HandshakeTimeout,
        DisconnectReason::HandshakeDenied(DenyReason::ProtocolMismatch),
        DisconnectReason::HandshakeDenied(DenyReason::AlreadyConnected),
        DisconnectReason::HandshakeDenied(DenyReason::ServerFull),
        DisconnectReason::LivenessTimeout,
    ];
    for r in reasons {
        assert!(!r.text().is_empty());
    }
    assert_eq!(
        DisconnectReason::HandshakeDenied(DenyReason::ServerFull).text(),
        "handshake denied: server is at its connection capacity"
    );
    assert_eq!(
        DisconnectReason::LivenessTimeout.text(),
        "connection timed out: no traffic within the liveness window"
    );
}
