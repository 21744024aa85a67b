//! The server's per-tick dispatch loop: surfaces connection lifecycle
//! events first (greeting every fresh connection with the spawn message),
//! then drains every live connection's pending payload messages through the
//! client packet set's dispatcher, tagging each typed event with its sender.

use vstd::prelude::*;

use crate::client_packets::{
    handle_client_packet, lemma_client_packet_round_trip, ClientPacket, ClientPacketEventsWriter,
    Noop,
};
use crate::codec::DecodeError;
use crate::events_set::FromClient;
use crate::server_packets::{ServerPacket, SpawnPlayer, Vec3Bits};
use crate::transport::{
    find_index, Channel, ClientView, ConnectionView, NetAddr, Server, ServerConfig, ServerEvent,
    ServerView,
};

verus! {

/// The well-known port the server binds and the client targets.
pub const SERVER_PORT: u16 = 5000;

/// The fixed protocol version tag; a handshake whose tag differs is rejected.
pub const PROTOCOL_ID: u64 = 0;

/// The maximum concurrent connection count the server is configured with.
pub const MAX_CLIENTS: usize = 1024;

/// IEEE-754 bit pattern of the 32-bit float value ten: each coordinate of
/// the position every fresh client is told to spawn at.
pub const TEN_F32_BITS: u32 = 0x4120_0000;

/// The position (ten, ten, ten) at which every new player spawns.
pub open spec fn spec_spawn_location() -> Vec3Bits {
    Vec3Bits { x: TEN_F32_BITS, y: TEN_F32_BITS, z: TEN_F32_BITS }
}

/// The wire bytes of the spawn message a fresh connection is greeted with.
pub open spec fn spec_spawn_message() -> Seq<u8> {
    ServerPacket::SpawnPlayer(SpawnPlayer { location: spec_spawn_location() }).spec_encode()
}

/// The configuration this system's server runs with: the well-known endpoint
/// on every interface, the fixed protocol tag, and the connection cap.
pub fn server_config() -> (cfg: ServerConfig)
    ensures
        cfg.max_clients == MAX_CLIENTS,
        cfg.protocol_id == PROTOCOL_ID,
        cfg.public_addr == (NetAddr { a: 0, b: 0, c: 0, d: 0, port: SERVER_PORT }),
{
    ServerConfig {
        max_clients: MAX_CLIENTS,
        protocol_id: PROTOCOL_ID,
        public_addr: NetAddr { a: 0, b: 0, c: 0, d: 0, port: SERVER_PORT },
    }
}

/// The server after reacting, in order, to one tick's lifecycle events: each
/// fresh connection is sent the spawn message; a disconnect needs no
/// reaction beyond being surfaced.
pub open spec fn spec_greet(s: ServerView, events: Seq<ServerEvent>) -> ServerView
    decreases events.len(),
{
    if events.len() == 0 {
        s
    } else {
        let s1 = match events[0] {
            ServerEvent::ClientConnected { client_id } => s.after_send(
                client_id,
                spec_spawn_message(),
            ),
            ServerEvent::ClientDisconnected { .. } => s,
        };
        spec_greet(s1, events.drop_first())
    }
}

/// Reacting to one more event reacts to the earlier ones first.
proof fn lemma_spec_greet_snoc(s: ServerView, events: Seq<ServerEvent>, e: ServerEvent)
    ensures
        spec_greet(s, events.push(e)) == (match e {
            ServerEvent::ClientConnected { client_id } => spec_greet(s, events).after_send(
                client_id,
                spec_spawn_message(),
            ),
            ServerEvent::ClientDisconnected { .. } => spec_greet(s, events),
        }),
    decreases events.len(),
{
    if events.len() == 0 {
        reveal_with_fuel(spec_greet, 2);
        assert(events.push(e)[0] == e);
        assert(events.push(e).drop_first() =~= Seq::<ServerEvent>::empty());
    } else {
        assert(events.push(e)[0] == events[0]);
        assert(events.push(e).drop_first() =~= events.drop_first().push(e));
        let s1 = match events[0] {
            ServerEvent::ClientConnected { client_id } => s.after_send(
                client_id,
                spec_spawn_message(),
            ),
            ServerEvent::ClientDisconnected { .. } => s,
        };
        lemma_spec_greet_snoc(s1, events.drop_first(), e);
    }
}

/// Surfaces the tick's pending lifecycle events, oldest first, and reacts to
/// each in order: a fresh connection is immediately sent the spawn message
/// on the reliable channel (should it have disconnected within the same
/// tick, that send fails and is deliberately ignored); a disconnect needs no
/// reaction, its human-readable reason being left to the application's logs.
pub fn handle_events(server: &mut Server) -> (events: Vec<ServerEvent>)
    requires
        old(server)@.wf(),
    ensures
        final(server)@.wf(),
        events@ == old(server)@.pending_events,
        final(server)@ == spec_greet(
            old(server)@.after_take_events(),
            old(server)@.pending_events,
        ),
{
    let events = server.take_events();
    let ghost base = server@;
    let mut i: usize = 0;
    while i < events.len()
        invariant
            i <= events@.len(),
            server@.wf(),
            server@ == spec_greet(base, events@.take(i as int)),
        decreases events@.len() - i,
    {
        match events[i] {
            ServerEvent::ClientConnected { client_id } => {
                let packet = ServerPacket::SpawnPlayer(
                    SpawnPlayer {
                        location: Vec3Bits {
                            x: TEN_F32_BITS,
                            y: TEN_F32_BITS,
                            z: TEN_F32_BITS,
                        },
                    },
                );
                let msg = packet.encode();
                let _ = server.send_message(client_id, Channel::ReliableOrdered, msg);
            },
            ServerEvent::ClientDisconnected { .. } => {},
        }
        proof {
            assert(events@.take(i + 1 as int) =~= events@.take(i as int).push(
                events@[i as int],
            ));
            lemma_spec_greet_snoc(base, events@.take(i as int), events@[i as int]);
        }
        i += 1;
    }
    proof {
        assert(events@.take(events@.len() as int) =~= events@);
    }
    events
}

/// The sender-tagged payload events decoded from one connection's queued
/// messages, in queue order. A message that fails to decode contributes
/// nothing here; the remaining messages still dispatch.
pub open spec fn spec_drain_msgs(client_id: u64, msgs: Seq<Seq<u8>>) -> Seq<FromClient<Noop>>
    decreases msgs.len(),
{
    if msgs.len() == 0 {
        Seq::empty()
    } else {
        let rest = spec_drain_msgs(client_id, msgs.drop_first());
        match ClientPacket::spec_decode(msgs[0]) {
            Ok(p) => seq![FromClient { from: client_id, event: p->Noop_0 }] + rest,
            Err(_) => rest,
        }
    }
}

/// The decode failures of one connection's drain, tagged with the sender, in
/// queue order.
pub open spec fn spec_drain_failures(client_id: u64, msgs: Seq<Seq<u8>>) -> Seq<
    (u64, DecodeError),
>
    decreases msgs.len(),
{
    if msgs.len() == 0 {
        Seq::empty()
    } else {
        let rest = spec_drain_failures(client_id, msgs.drop_first());
        match ClientPacket::spec_decode(msgs[0]) {
            Ok(_) => rest,
            Err(e) => seq![(client_id, e)] + rest,
        }
    }
}

/// Draining one more message drains the earlier ones first.
proof fn lemma_spec_drain_snoc(client_id: u64, msgs: Seq<Seq<u8>>, m: Seq<u8>)
    ensures
        spec_drain_msgs(client_id, msgs.push(m)) == spec_drain_msgs(client_id, msgs) + (match ClientPacket::spec_decode(
            m,
        ) {
            Ok(p) => seq![FromClient { from: client_id, event: p->Noop_0 }],
            Err(_) => Seq::<FromClient<Noop>>::empty(),
        }),
        spec_drain_failures(client_id, msgs.push(m)) == spec_drain_failures(client_id, msgs) + (match ClientPacket::spec_decode(
            m,
        ) {
            Ok(_) => Seq::<(u64, DecodeError)>::empty(),
            Err(e) => seq![(client_id, e)],
        }),
    decreases msgs.len(),
{
    if msgs.len() == 0 {
        reveal_with_fuel(spec_drain_msgs, 2);
        reveal_with_fuel(spec_drain_failures, 2);
        assert(msgs.push(m)[0] == m);
        assert(msgs.push(m).drop_first() =~= Seq::<Seq<u8>>::empty());
        assert(spec_drain_msgs(client_id, msgs.push(m)) =~= spec_drain_msgs(client_id, msgs) + (
        match ClientPacket::spec_decode(m) {
            Ok(p) => seq![FromClient { from: client_id, event: p->Noop_0 }],
            Err(_) => Seq::<FromClient<Noop>>::empty(),
        }));
        assert(spec_drain_failures(client_id, msgs.push(m)) =~= spec_drain_failures(
            client_id,
            msgs,
        ) + (match ClientPacket::spec_decode(m) {
            Ok(_) => Seq::<(u64, DecodeError)>::empty(),
            Err(e) => seq![(client_id, e)],
        }));
    } else {
        assert(msgs.push(m)[0] == msgs[0]);
        assert(msgs.push(m).drop_first() =~= msgs.drop_first().push(m));
        lemma_spec_drain_snoc(client_id, msgs.drop_first(), m);
        assert(spec_drain_msgs(client_id, msgs.push(m)) =~= spec_drain_msgs(client_id, msgs) + (
        match ClientPacket::spec_decode(m) {
            Ok(p) => seq![FromClient { from: client_id, event: p->Noop_0 }],
            Err(_) => Seq::<FromClient<Noop>>::empty(),
        }));
        assert(spec_drain_failures(client_id, msgs.push(m)) =~= spec_drain_failures(
            client_id,
            msgs,
        ) + (match ClientPacket::spec_decode(m) {
            Ok(_) => Seq::<(u64, DecodeError)>::empty(),
            Err(e) => seq![(client_id, e)],
        }));
    }
}

/// Routes one connection's drained messages through the packet set's
/// dispatcher, in order: each well-formed envelope becomes a typed event
/// tagged with its sender; each malformed one is reported and skipped,
/// never stalling the rest of the batch.
pub fn dispatch_batch(
    packets: &mut ClientPacketEventsWriter,
    from: u64,
    msgs: &Vec<Vec<u8>>,
) -> (failures: Vec<(u64, DecodeError)>)
    ensures
        final(packets).noop@ == old(packets).noop@ + spec_drain_msgs(from, msgs.deep_view()),
        failures@ == spec_drain_failures(from, msgs.deep_view()),
{
    let mut failures: Vec<(u64, DecodeError)> = Vec::new();
    let mut i: usize = 0;
    while i < msgs.len()
        invariant
            i <= msgs@.len(),
            packets.noop@ == old(packets).noop@ + spec_drain_msgs(
                from,
                msgs.deep_view().take(i as int),
            ),
            failures@ == spec_drain_failures(from, msgs.deep_view().take(i as int)),
        decreases msgs@.len() - i,
    {
        let msg = &msgs[i];
        proof {
            assert(msg@ =~= msgs.deep_view()[i as int]);
        }
        match handle_client_packet(packets, from, msg) {
            Ok(_) => {},
            Err(e) => {
                failures.push((from, e));
            },
        }
        proof {
            assert(msgs.deep_view().take(i + 1 as int) =~= msgs.deep_view().take(i as int).push(
                msgs.deep_view()[i as int],
            ));
            lemma_spec_drain_snoc(from, msgs.deep_view().take(i as int), msgs.deep_view()[i as int]);
            assert(packets.noop@ =~= old(packets).noop@ + spec_drain_msgs(
                from,
                msgs.deep_view().take(i + 1 as int),
            ));
            assert(failures@ =~= spec_drain_failures(from, msgs.deep_view().take(i + 1 as int)));
        }
        i += 1;
    }
    proof {
        assert(msgs.deep_view().take(msgs.deep_view().len() as int) =~= msgs.deep_view());
    }
    failures
}

/// Everything one tick's payload drain yields over the whole table: table
/// order across senders, queue order within one sender.
pub open spec fn spec_drain_all(conns: Seq<ConnectionView>) -> Seq<FromClient<Noop>>
    decreases conns.len(),
{
    if conns.len() == 0 {
        Seq::empty()
    } else {
        spec_drain_msgs(conns[0].client_id, conns[0].inbox) + spec_drain_all(conns.drop_first())
    }
}

/// Every decode failure of one tick's payload drain, in the same order.
pub open spec fn spec_drain_all_failures(conns: Seq<ConnectionView>) -> Seq<(u64, DecodeError)>
    decreases conns.len(),
{
    if conns.len() == 0 {
        Seq::empty()
    } else {
        spec_drain_failures(conns[0].client_id, conns[0].inbox) + spec_drain_all_failures(
            conns.drop_first(),
        )
    }
}

/// Draining one more connection drains the earlier ones first.
proof fn lemma_spec_drain_all_snoc(conns: Seq<ConnectionView>, c: ConnectionView)
    ensures
        spec_drain_all(conns.push(c)) == spec_drain_all(conns) + spec_drain_msgs(
            c.client_id,
            c.inbox,
        ),
        spec_drain_all_failures(conns.push(c)) == spec_drain_all_failures(conns)
            + spec_drain_failures(c.client_id, c.inbox),
    decreases conns.len(),
{
    if conns.len() == 0 {
        reveal_with_fuel(spec_drain_all, 2);
        reveal_with_fuel(spec_drain_all_failures, 2);
        assert(conns.push(c)[0] == c);
        assert(conns.push(c).drop_first() =~= Seq::<ConnectionView>::empty());
        assert(spec_drain_all(conns.push(c)) =~= spec_drain_all(conns) + spec_drain_msgs(
            c.client_id,
            c.inbox,
        ));
        assert(spec_drain_all_failures(conns.push(c)) =~= spec_drain_all_failures(conns)
            + spec_drain_failures(c.client_id, c.inbox));
    } else {
        assert(conns.push(c)[0] == conns[0]);
        assert(conns.push(c).drop_first() =~= conns.drop_first().push(c));
        lemma_spec_drain_all_snoc(conns.drop_first(), c);
        assert(spec_drain_all(conns.push(c)) =~= spec_drain_all(conns) + spec_drain_msgs(
            c.client_id,
            c.inbox,
        ));
        assert(spec_drain_all_failures(conns.push(c)) =~= spec_drain_all_failures(conns)
            + spec_drain_failures(c.client_id, c.inbox));
    }
}

/// The table with the inboxes of its first `j` connections drained.
pub open spec fn spec_cleared_upto(conns: Seq<ConnectionView>, j: int) -> Seq<ConnectionView> {
    conns.map(
        |i: int, c: ConnectionView|
            if i < j {
                ConnectionView {
                    client_id: c.client_id,
                    addr: c.addr,
                    inbox: Seq::empty(),
                    outbox: c.outbox,
                }
            } else {
                c
            },
    )
}

/// The server once every connection's pending inbound messages are drained.
pub open spec fn spec_inboxes_drained(s: ServerView) -> ServerView {
    ServerView {
        max_clients: s.max_clients,
        protocol_id: s.protocol_id,
        public_addr: s.public_addr,
        connections: spec_cleared_upto(s.connections, s.connections.len() as int),
        pending_events: s.pending_events,
    }
}

/// Drains, for every live connection in table order, all payload messages
/// pending this tick, routing each through the client packet set's
/// dispatcher and tagging each typed event with its originating connection
/// identifier. A decode failure is reported and skipped; it stalls neither
/// the sender's remaining messages nor the other connections.
pub fn receive_client_packets(server: &mut Server, packets: &mut ClientPacketEventsWriter) -> (failures:
    Vec<(u64, DecodeError)>)
    requires
        old(server)@.wf(),
    ensures
        final(server)@.wf(),
        final(server)@ == spec_inboxes_drained(old(server)@),
        final(packets).noop@ == old(packets).noop@ + spec_drain_all(old(server)@.connections),
        failures@ == spec_drain_all_failures(old(server)@.connections),
{
    let ghost orig = server@;
    let ids = server.clients_id();
    let mut failures: Vec<(u64, DecodeError)> = Vec::new();
    let mut j: usize = 0;
    while j < ids.len()
        invariant
            old(server)@ == orig,
            orig.wf(),
            server@.wf(),
            ids@ == orig.client_ids(),
            j <= ids@.len(),
            ids@.len() == orig.connections.len(),
            server@.max_clients == orig.max_clients,
            server@.protocol_id == orig.protocol_id,
            server@.public_addr == orig.public_addr,
            server@.pending_events == orig.pending_events,
            server@.connections == spec_cleared_upto(orig.connections, j as int),
            packets.noop@ == old(packets).noop@ + spec_drain_all(orig.connections.take(j as int)),
            failures@ == spec_drain_all_failures(orig.connections.take(j as int)),
        decreases ids@.len() - j,
    {
        let id = ids[j];
        let ghost prev = server@;
        proof {
            assert(prev.connections[j as int].client_id == orig.connections[j as int].client_id);
            crate::transport::lemma_find_index_unique(prev.connections, j as int);
        }
        let msgs = server.take_inbox(id);
        let mut fs = dispatch_batch(packets, id, &msgs);
        failures.append(&mut fs);
        proof {
            assert(server@.connections =~= spec_cleared_upto(orig.connections, j + 1 as int));
            assert(msgs.deep_view() == orig.connections[j as int].inbox);
            assert(orig.connections.take(j + 1 as int) =~= orig.connections.take(j as int).push(
                orig.connections[j as int],
            ));
            lemma_spec_drain_all_snoc(
                orig.connections.take(j as int),
                orig.connections[j as int],
            );
            assert(packets.noop@ =~= old(packets).noop@ + spec_drain_all(
                orig.connections.take(j + 1 as int),
            ));
            assert(failures@ =~= spec_drain_all_failures(orig.connections.take(j + 1 as int)));
        }
        j += 1;
    }
    proof {
        assert(orig.connections.take(orig.connections.len() as int) =~= orig.connections);
        assert(server@ =~~= spec_inboxes_drained(orig));
    }
    failures
}

/// The greeted state one tick reaches before its payload drain.
pub open spec fn spec_greeted(s: ServerView) -> ServerView {
    spec_greet(s.after_take_events(), s.pending_events)
}

/// The sender-tagged payload events one tick dispatches, in delivery order.
pub open spec fn spec_tick_payload(s: ServerView) -> Seq<FromClient<Noop>> {
    spec_drain_all(spec_greeted(s).connections)
}

/// The decode failures one tick reports, in the same order.
pub open spec fn spec_tick_failures(s: ServerView) -> Seq<(u64, DecodeError)> {
    spec_drain_all_failures(spec_greeted(s).connections)
}

/// One scheduler tick of the server's dispatch loop: first the lifecycle
/// phase (surfacing the pending connect/disconnect events and greeting each
/// fresh connection with the spawn message), then the payload phase
/// (draining every connection's inbound messages into the typed sink). The
/// returned events are exactly those pending at tick start, oldest first.
pub fn server_tick(server: &mut Server, packets: &mut ClientPacketEventsWriter) -> (r: (
    Vec<ServerEvent>,
    Vec<(u64, DecodeError)>,
))
    requires
        old(server)@.wf(),
    ensures
        final(server)@.wf(),
        r.0@ == old(server)@.pending_events,
        final(packets).noop@ == old(packets).noop@ + spec_tick_payload(old(server)@),
        r.1@ == spec_tick_failures(old(server)@),
        final(server)@ == spec_inboxes_drained(spec_greeted(old(server)@)),
{
    let events = handle_events(server);
    let failures = receive_client_packets(server, packets);
    (events, failures)
}

/// One application-facing event of a server tick.
pub enum ServerAppEvent {
    Lifecycle(ServerEvent),
    Payload(FromClient<Noop>),
}

/// The full stream one tick delivers to application logic, in delivery
/// order: every lifecycle event pending at tick start, then every payload
/// event drained this tick.
pub open spec fn spec_tick_stream(s: ServerView) -> Seq<ServerAppEvent> {
    s.pending_events.map_values(|e: ServerEvent| ServerAppEvent::Lifecycle(e))
        + spec_tick_payload(s).map_values(|p: FromClient<Noop>| ServerAppEvent::Payload(p))
}

/// Lifecycle ordering: on any tick — in particular one where a connection
/// both completes its handshake and already has payload queued — every
/// lifecycle event is delivered to application logic before every payload
/// event of the same tick.
pub proof fn lemma_lifecycle_before_payload(s: ServerView, i: int, j: int)
    requires
        0 <= i < spec_tick_stream(s).len(),
        0 <= j < spec_tick_stream(s).len(),
        spec_tick_stream(s)[i] is Lifecycle,
        spec_tick_stream(s)[j] is Payload,
    ensures
        i < j,
{
    let nl = s.pending_events.len();
    if i >= nl {
        assert(spec_tick_stream(s)[i] is Payload);
    }
    if j < nl {
        assert(spec_tick_stream(s)[j] is Lifecycle);
    }
}

/// The reliable ordered channel end to end, for a single sender: a connected
/// client with an empty send queue sends any run of packets; after one
/// channel flush, the server's payload drain dispatches exactly those
/// packets to the application, tagged with the sender, in send order, with
/// no loss.
pub proof fn lemma_reliable_channel_end_to_end(
    c: ClientView,
    s: ServerView,
    sent: Seq<ClientPacket>,
)
    requires
        c.state is Connected,
        c.outbox == Seq::<Seq<u8>>::empty(),
        s.wf(),
        s.has_client(c.client_id),
        s.inbox_of(c.client_id) == Seq::<Seq<u8>>::empty(),
    ensures
        ({
            let queued = c.after_send_all(
                sent.map_values(|p: ClientPacket| p.spec_encode()),
            ).outbox;
            let arrived = s.after_deliver(c.client_id, queued);
            spec_drain_msgs(c.client_id, arrived.inbox_of(c.client_id)) == sent.map_values(
                |p: ClientPacket| FromClient { from: c.client_id, event: p->Noop_0 },
            )
        }),
{
    let msgs = sent.map_values(|p: ClientPacket| p.spec_encode());
    crate::transport::lemma_send_all_appends(c, msgs);
    let queued = c.after_send_all(msgs).outbox;
    assert(queued =~= msgs);
    let i = find_index(s.connections, c.client_id)->Some_0;
    crate::transport::lemma_find_index(s.connections, c.client_id);
    let arrived = s.after_deliver(c.client_id, queued);
    assert(arrived.connections[i].client_id == c.client_id);
    assert forall|p: int, q: int|
        0 <= p < q < arrived.connections.len() implies arrived.connections[p].client_id
        != arrived.connections[q].client_id by {
        assert(arrived.connections[p].client_id == s.connections[p].client_id);
        assert(arrived.connections[q].client_id == s.connections[q].client_id);
    }
    crate::transport::lemma_find_index_unique(arrived.connections, i);
    assert(arrived.inbox_of(c.client_id) =~= msgs);
    lemma_single_sender_fifo(c.client_id, sent);
}

/// Single-sender FIFO ordering: a queue of well-formed envelopes from one
/// sender dispatches to exactly the packets that sender encoded, in send
/// order, with no loss.
pub proof fn lemma_single_sender_fifo(client_id: u64, sent: Seq<ClientPacket>)
    ensures
        spec_drain_msgs(client_id, sent.map_values(|p: ClientPacket| p.spec_encode()))
            == sent.map_values(
            |p: ClientPacket| FromClient { from: client_id, event: p->Noop_0 },
        ),
    decreases sent.len(),
{
    let msgs = sent.map_values(|p: ClientPacket| p.spec_encode());
    let out = sent.map_values(|p: ClientPacket| FromClient { from: client_id, event: p->Noop_0 });
    if sent.len() == 0 {
        assert(spec_drain_msgs(client_id, msgs) =~= out);
    } else {
        lemma_client_packet_round_trip(sent[0]);
        lemma_single_sender_fifo(client_id, sent.drop_first());
        assert(msgs.drop_first() =~= sent.drop_first().map_values(
            |p: ClientPacket| p.spec_encode(),
        ));
        assert(spec_drain_msgs(client_id, msgs) =~= out);
    }
}

} // verus!
