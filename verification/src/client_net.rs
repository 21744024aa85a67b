//! The client's per-tick dispatch loop: surfaces the connection lifecycle
//! events first, then drains every pending server→client message through
//! the server packet set's dispatcher into the typed sink.

use vstd::prelude::*;

use crate::codec::DecodeError;
use crate::server_packets::{
    handle_server_packet, lemma_server_packet_round_trip, ServerPacket, ServerPacketsWriter,
    SpawnPlayer,
};
use crate::server_net::{PROTOCOL_ID, SERVER_PORT};
use crate::transport::{Client, ClientEvent, ClientView, ConnectRequest, NetAddr};

verus! {

/// The fixed loopback endpoint this system's client targets.
pub fn server_endpoint() -> (addr: NetAddr)
    ensures
        addr == (NetAddr { a: 127, b: 0, c: 0, d: 1, port: SERVER_PORT }),
{
    NetAddr { a: 127, b: 0, c: 0, d: 1, port: SERVER_PORT }
}

/// Begins this system's connect attempt: toward the loopback endpoint,
/// under the fixed protocol tag, with the identifier the surrounding
/// program generated for this process run. This system derives that
/// identifier from the microsecond clock at process start; collisions under
/// rapid concurrent launches are a known, accepted risk of that scheme.
pub fn connect_to_server(client_id: u64) -> (r: (Client, ConnectRequest))
    ensures
        r.0@.state is Connecting,
        r.0@.client_id == client_id,
        r.0@.protocol_id == PROTOCOL_ID,
        r.0@.server_addr == (NetAddr { a: 127, b: 0, c: 0, d: 1, port: SERVER_PORT }),
        r.0@.inbox == Seq::<Seq<u8>>::empty(),
        r.0@.outbox == Seq::<Seq<u8>>::empty(),
        r.0@.pending_events == Seq::<ClientEvent>::empty(),
        r.1 == (ConnectRequest { client_id, protocol_id: PROTOCOL_ID }),
{
    Client::connect(server_endpoint(), client_id, PROTOCOL_ID)
}

/// The typed events decoded from the client's queued inbound messages, in
/// queue order. A message that fails to decode contributes nothing here;
/// the remaining messages still dispatch.
pub open spec fn spec_drain_server_msgs(msgs: Seq<Seq<u8>>) -> Seq<SpawnPlayer>
    decreases msgs.len(),
{
    if msgs.len() == 0 {
        Seq::empty()
    } else {
        let rest = spec_drain_server_msgs(msgs.drop_first());
        match ServerPacket::spec_decode(msgs[0]) {
            Ok(p) => seq![p->SpawnPlayer_0] + rest,
            Err(_) => rest,
        }
    }
}

/// The decode failures of the client's drain, in queue order.
pub open spec fn spec_drain_server_failures(msgs: Seq<Seq<u8>>) -> Seq<DecodeError>
    decreases msgs.len(),
{
    if msgs.len() == 0 {
        Seq::empty()
    } else {
        let rest = spec_drain_server_failures(msgs.drop_first());
        match ServerPacket::spec_decode(msgs[0]) {
            Ok(_) => rest,
            Err(e) => seq![e] + rest,
        }
    }
}

/// Draining one more message drains the earlier ones first.
proof fn lemma_spec_drain_server_snoc(msgs: Seq<Seq<u8>>, m: Seq<u8>)
    ensures
        spec_drain_server_msgs(msgs.push(m)) == spec_drain_server_msgs(msgs) + (match ServerPacket::spec_decode(
            m,
        ) {
            Ok(p) => seq![p->SpawnPlayer_0],
            Err(_) => Seq::<SpawnPlayer>::empty(),
        }),
        spec_drain_server_failures(msgs.push(m)) == spec_drain_server_failures(msgs) + (
        match ServerPacket::spec_decode(m) {
            Ok(_) => Seq::<DecodeError>::empty(),
            Err(e) => seq![e],
        }),
    decreases msgs.len(),
{
    if msgs.len() == 0 {
        reveal_with_fuel(spec_drain_server_msgs, 2);
        reveal_with_fuel(spec_drain_server_failures, 2);
        assert(msgs.push(m)[0] == m);
        assert(msgs.push(m).drop_first() =~= Seq::<Seq<u8>>::empty());
        assert(spec_drain_server_msgs(msgs.push(m)) =~= spec_drain_server_msgs(msgs) + (
        match ServerPacket::spec_decode(m) {
            Ok(p) => seq![p->SpawnPlayer_0],
            Err(_) => Seq::<SpawnPlayer>::empty(),
        }));
        assert(spec_drain_server_failures(msgs.push(m)) =~= spec_drain_server_failures(msgs) + (
        match ServerPacket::spec_decode(m) {
            Ok(_) => Seq::<DecodeError>::empty(),
            Err(e) => seq![e],
        }));
    } else {
        assert(msgs.push(m)[0] == msgs[0]);
        assert(msgs.push(m).drop_first() =~= msgs.drop_first().push(m));
        lemma_spec_drain_server_snoc(msgs.drop_first(), m);
        assert(spec_drain_server_msgs(msgs.push(m)) =~= spec_drain_server_msgs(msgs) + (
        match ServerPacket::spec_decode(m) {
            Ok(p) => seq![p->SpawnPlayer_0],
            Err(_) => Seq::<SpawnPlayer>::empty(),
        }));
        assert(spec_drain_server_failures(msgs.push(m)) =~= spec_drain_server_failures(msgs) + (
        match ServerPacket::spec_decode(m) {
            Ok(_) => Seq::<DecodeError>::empty(),
            Err(e) => seq![e],
        }));
    }
}

/// Drains every pending server→client message of the tick, in arrival
/// order, routing each through the server packet set's dispatcher into the
/// typed sink. A decode failure is reported and skipped, never stalling the
/// remaining messages of the same drain.
pub fn receive_server_packets(client: &mut Client, packets: &mut ServerPacketsWriter) -> (failures:
    Vec<DecodeError>)
    ensures
        final(client)@ == old(client)@.after_take_inbox(),
        final(packets).spawn_player@ == old(packets).spawn_player@ + spec_drain_server_msgs(
            old(client)@.inbox,
        ),
        failures@ == spec_drain_server_failures(old(client)@.inbox),
{
    let msgs = client.take_inbox();
    let mut failures: Vec<DecodeError> = Vec::new();
    let mut i: usize = 0;
    while i < msgs.len()
        invariant
            i <= msgs@.len(),
            msgs.deep_view() == old(client)@.inbox,
            packets.spawn_player@ == old(packets).spawn_player@ + spec_drain_server_msgs(
                msgs.deep_view().take(i as int),
            ),
            failures@ == spec_drain_server_failures(msgs.deep_view().take(i as int)),
        decreases msgs@.len() - i,
    {
        let msg = &msgs[i];
        proof {
            assert(msg@ =~= msgs.deep_view()[i as int]);
        }
        match handle_server_packet(packets, msg) {
            Ok(_) => {},
            Err(e) => {
                failures.push(e);
            },
        }
        proof {
            assert(msgs.deep_view().take(i + 1 as int) =~= msgs.deep_view().take(i as int).push(
                msgs.deep_view()[i as int],
            ));
            lemma_spec_drain_server_snoc(
                msgs.deep_view().take(i as int),
                msgs.deep_view()[i as int],
            );
            assert(packets.spawn_player@ =~= old(packets).spawn_player@ + spec_drain_server_msgs(
                msgs.deep_view().take(i + 1 as int),
            ));
            assert(failures@ =~= spec_drain_server_failures(msgs.deep_view().take(i + 1 as int)));
        }
        i += 1;
    }
    proof {
        assert(msgs.deep_view().take(msgs.deep_view().len() as int) =~= msgs.deep_view());
    }
    failures
}

/// One scheduler tick of the client's dispatch loop: first the lifecycle
/// phase (surfacing the pending connect/disconnect events, oldest first),
/// then the payload phase (draining every inbound message into the typed
/// sink). The returned events are exactly those pending at tick start.
pub fn client_tick(client: &mut Client, packets: &mut ServerPacketsWriter) -> (r: (
    Vec<ClientEvent>,
    Vec<DecodeError>,
))
    ensures
        r.0@ == old(client)@.pending_events,
        final(packets).spawn_player@ == old(packets).spawn_player@ + spec_drain_server_msgs(
            old(client)@.inbox,
        ),
        r.1@ == spec_drain_server_failures(old(client)@.inbox),
        final(client)@ == old(client)@.after_take_events().after_take_inbox(),
{
    let events = client.take_events();
    let failures = receive_server_packets(client, packets);
    (events, failures)
}

/// One application-facing event of a client tick.
pub enum ClientAppEvent {
    Lifecycle(ClientEvent),
    Payload(SpawnPlayer),
}

/// The full stream one client tick delivers to application logic, in
/// delivery order: every lifecycle event pending at tick start, then every
/// payload event drained this tick.
pub open spec fn spec_client_tick_stream(c: ClientView) -> Seq<ClientAppEvent> {
    c.pending_events.map_values(|e: ClientEvent| ClientAppEvent::Lifecycle(e))
        + spec_drain_server_msgs(c.inbox).map_values(
        |p: SpawnPlayer| ClientAppEvent::Payload(p),
    )
}

/// Lifecycle ordering on the client: on any tick — in particular the tick
/// after its handshake completes with payload already queued — every
/// lifecycle event is delivered to application logic before every payload
/// event of the same tick.
pub proof fn lemma_client_lifecycle_before_payload(c: ClientView, i: int, j: int)
    requires
        0 <= i < spec_client_tick_stream(c).len(),
        0 <= j < spec_client_tick_stream(c).len(),
        spec_client_tick_stream(c)[i] is Lifecycle,
        spec_client_tick_stream(c)[j] is Payload,
    ensures
        i < j,
{
    let nl = c.pending_events.len();
    if i >= nl {
        assert(spec_client_tick_stream(c)[i] is Payload);
    }
    if j < nl {
        assert(spec_client_tick_stream(c)[j] is Lifecycle);
    }
}

/// Single-sender FIFO ordering toward the client: a queue of well-formed
/// envelopes dispatches to exactly the packets the server encoded, in send
/// order, with no loss.
pub proof fn lemma_server_to_client_fifo(sent: Seq<ServerPacket>)
    ensures
        spec_drain_server_msgs(sent.map_values(|p: ServerPacket| p.spec_encode()))
            == sent.map_values(|p: ServerPacket| p->SpawnPlayer_0),
    decreases sent.len(),
{
    let msgs = sent.map_values(|p: ServerPacket| p.spec_encode());
    let out = sent.map_values(|p: ServerPacket| p->SpawnPlayer_0);
    if sent.len() == 0 {
        assert(spec_drain_server_msgs(msgs) =~= out);
    } else {
        lemma_server_packet_round_trip(sent[0]);
        lemma_server_to_client_fifo(sent.drop_first());
        assert(msgs.drop_first() =~= sent.drop_first().map_values(
            |p: ServerPacket| p.spec_encode(),
        ));
        assert(spec_drain_server_msgs(msgs) =~= out);
    }
}

} // verus!
