//! The connection transport: the state machines that upgrade an unreliable
//! datagram link into reliable-ordered, handshake-authenticated connections.
//!
//! The server owns a table of independent connection state machines keyed by
//! client identifier; the client owns at most one. Socket I/O, clocks and
//! timers live outside: the surrounding program binds sockets, measures the
//! handshake and liveness windows, and feeds every wire event into these
//! machines, which decide all state transitions and queueing. The single
//! delivery class is one reliable, strictly ordered channel: per-sender FIFO,
//! lossless once the transport accepts a message.

use vstd::prelude::*;

verus! {

/// An IPv4 endpoint as plain values: four address octets and a port.
#[derive(Debug, Clone, Copy, PartialEq, Eq, Structural)]
pub struct NetAddr {
    pub a: u8,
    pub b: u8,
    pub c: u8,
    pub d: u8,
    pub port: u16,
}

/// The named delivery classes. Delivery guarantee is a property of the
/// channel, not of individual messages; this system declares exactly one.
#[derive(Debug, Clone, Copy, PartialEq, Eq, Structural)]
pub enum Channel {
    /// Reliable, strictly ordered: per-sender FIFO with no loss.
    ReliableOrdered,
}

/// Why a handshake was rejected.
#[derive(Debug, Clone, Copy, PartialEq, Eq, Structural)]
pub enum DenyReason {
    /// The protocol version tags of client and server differ.
    ProtocolMismatch,
    /// The table already holds a live connection with this identifier.
    AlreadyConnected,
    /// The server is at its configured maximum concurrent connection count.
    ServerFull,
}

/// Why a connection left its live state. Surfaced to the application with a
/// human-readable text, the only diagnostic operators see.
#[derive(Debug, Clone, Copy, PartialEq, Eq, Structural)]
pub enum DisconnectReason {
    /// An explicit local close.
    ClosedLocally,
    /// A disconnect notification from the remote peer.
    ClosedByPeer,
    /// No handshake acknowledgment within the bounded window.
    HandshakeTimeout,
    /// The peer rejected the handshake.
    HandshakeDenied(DenyReason),
    /// No traffic within the bounded liveness window.
    LivenessTimeout,
}

impl DisconnectReason {
    /// The human-readable wording of this reason.
    pub open spec fn spec_text(self) -> Seq<char> {
        match self {
            DisconnectReason::ClosedLocally => "connection closed by the local endpoint"@,
            DisconnectReason::ClosedByPeer => "connection closed by the remote peer"@,
            DisconnectReason::HandshakeTimeout => "handshake timed out"@,
            DisconnectReason::HandshakeDenied(DenyReason::ProtocolMismatch)
                => "handshake denied: protocol version mismatch"@,
            DisconnectReason::HandshakeDenied(DenyReason::AlreadyConnected)
                => "handshake denied: client identifier already connected"@,
            DisconnectReason::HandshakeDenied(DenyReason::ServerFull)
                => "handshake denied: server is at its connection capacity"@,
            DisconnectReason::LivenessTimeout
                => "connection timed out: no traffic within the liveness window"@,
        }
    }

    /// The human-readable reason, for logs and operators.
    pub fn text(&self) -> (s: &'static str)
        ensures
            s@ == self.spec_text(),
    {
        match self {
            DisconnectReason::ClosedLocally => "connection closed by the local endpoint",
            DisconnectReason::ClosedByPeer => "connection closed by the remote peer",
            DisconnectReason::HandshakeTimeout => "handshake timed out",
            DisconnectReason::HandshakeDenied(DenyReason::ProtocolMismatch)
                => "handshake denied: protocol version mismatch",
            DisconnectReason::HandshakeDenied(DenyReason::AlreadyConnected)
                => "handshake denied: client identifier already connected",
            DisconnectReason::HandshakeDenied(DenyReason::ServerFull)
                => "handshake denied: server is at its connection capacity",
            DisconnectReason::LivenessTimeout
                => "connection timed out: no traffic within the liveness window",
        }
    }
}

/// Why a send was refused. Reported to the caller, never fatal.
#[derive(Debug, Clone, Copy, PartialEq, Eq, Structural)]
pub enum SendError {
    /// The target connection is not in the `Connected` state.
    NotConnected,
}

/// The client's opening handshake message. The identifier must be unique per
/// process run; the protocol tag must match the server's exactly.
#[derive(Debug, Clone, Copy, PartialEq, Eq, Structural)]
pub struct ConnectRequest {
    pub client_id: u64,
    pub protocol_id: u64,
}

/// The server's answer to a handshake.
#[derive(Debug, Clone, Copy, PartialEq, Eq, Structural)]
pub enum ConnectResponse {
    Accepted,
    Denied(DenyReason),
}

/// A connect/disconnect lifecycle event the server surfaces to application
/// logic, delivered before any of the same tick's payload messages.
#[derive(Debug, Clone, Copy, PartialEq, Eq, Structural)]
pub enum ServerEvent {
    ClientConnected { client_id: u64 },
    ClientDisconnected { client_id: u64, reason: DisconnectReason },
}

/// A lifecycle event the client surfaces to application logic.
#[derive(Debug, Clone, Copy, PartialEq, Eq, Structural)]
pub enum ClientEvent {
    Connected,
    Disconnected { reason: DisconnectReason },
}

/// One live peer link owned by the server: its identifier, remote address,
/// and the two reliable-ordered queues (inbound not yet drained, outbound not
/// yet flushed to the wire).
pub struct RemoteConnection {
    pub client_id: u64,
    pub addr: NetAddr,
    pub inbox: Vec<Vec<u8>>,
    pub outbox: Vec<Vec<u8>>,
}

/// The mathematical image of a `RemoteConnection`.
#[verifier::ext_equal]
pub struct ConnectionView {
    pub client_id: u64,
    pub addr: NetAddr,
    pub inbox: Seq<Seq<u8>>,
    pub outbox: Seq<Seq<u8>>,
}

impl View for RemoteConnection {
    type V = ConnectionView;

    open spec fn view(&self) -> ConnectionView {
        ConnectionView {
            client_id: self.client_id,
            addr: self.addr,
            inbox: self.inbox.deep_view(),
            outbox: self.outbox.deep_view(),
        }
    }
}

/// What a server is configured with before it starts listening.
#[derive(Debug, Clone, Copy, PartialEq, Eq, Structural)]
pub struct ServerConfig {
    /// Hard cap on concurrent connections; a handshake beyond it is rejected,
    /// never queued.
    pub max_clients: usize,
    /// The fixed protocol version tag that every client must match exactly.
    pub protocol_id: u64,
    /// The well-known endpoint the server binds.
    pub public_addr: NetAddr,
}

/// The index of the connection with the given identifier, if any.
pub open spec fn find_index(conns: Seq<ConnectionView>, client_id: u64) -> Option<int>
    decreases conns.len(),
{
    if conns.len() == 0 {
        None
    } else if conns[0].client_id == client_id {
        Some(0)
    } else {
        match find_index(conns.drop_first(), client_id) {
            Some(i) => Some(i + 1),
            None => None,
        }
    }
}

/// What `find_index` answers: the first index holding the identifier, or a
/// guarantee that no index holds it.
pub proof fn lemma_find_index(conns: Seq<ConnectionView>, client_id: u64)
    ensures
        match find_index(conns, client_id) {
            Some(i) => 0 <= i < conns.len() && conns[i].client_id == client_id && (forall|j: int|
                0 <= j < i ==> conns[j].client_id != client_id),
            None => forall|j: int| 0 <= j < conns.len() ==> conns[j].client_id != client_id,
        },
    decreases conns.len(),
{
    if conns.len() != 0 && conns[0].client_id != client_id {
        let rest = conns.drop_first();
        lemma_find_index(rest, client_id);
        match find_index(rest, client_id) {
            Some(i) => {
                assert(conns[i + 1] == rest[i]);
                assert forall|j: int| 0 <= j < i + 1 implies conns[j].client_id != client_id by {
                    if j >= 1 {
                        assert(conns[j] == rest[j - 1]);
                    }
                }
            },
            None => {
                assert forall|j: int|
                    0 <= j < conns.len() implies conns[j].client_id != client_id by {
                    if j >= 1 {
                        assert(conns[j] == rest[j - 1]);
                    }
                }
            },
        }
    }
}

/// Mapping a function over a sequence commutes with `remove`.
proof fn lemma_map_values_remove<A, B>(s: Seq<A>, f: spec_fn(A) -> B, i: int)
    requires
        0 <= i < s.len(),
    ensures
        s.remove(i).map_values(f) == s.map_values(f).remove(i),
{
    assert(s.remove(i).map_values(f) =~= s.map_values(f).remove(i));
}

/// The mathematical image of a `Server`.
#[verifier::ext_equal]
pub struct ServerView {
    pub max_clients: int,
    pub protocol_id: u64,
    pub public_addr: NetAddr,
    pub connections: Seq<ConnectionView>,
    pub pending_events: Seq<ServerEvent>,
}

impl ServerView {
    /// Well-formedness: the table never exceeds its capacity and never holds
    /// two connections with one identifier.
    pub open spec fn wf(self) -> bool {
        &&& self.connections.len() <= self.max_clients
        &&& forall|i: int, j: int|
            0 <= i < j < self.connections.len() ==> self.connections[i].client_id
                != self.connections[j].client_id
    }

    /// Whether a live connection with this identifier exists.
    pub open spec fn has_client(self, client_id: u64) -> bool {
        find_index(self.connections, client_id) is Some
    }

    /// The identifiers of all live connections, in table order.
    pub open spec fn client_ids(self) -> Seq<u64> {
        self.connections.map_values(|c: ConnectionView| c.client_id)
    }

    /// The answer the server owes one inbound handshake: rejection on a
    /// protocol mismatch, a duplicate identifier or a full table, acceptance
    /// otherwise. A handshake beyond capacity is rejected, never queued.
    pub open spec fn connect_outcome(self, req: ConnectRequest) -> ConnectResponse {
        if req.protocol_id != self.protocol_id {
            ConnectResponse::Denied(DenyReason::ProtocolMismatch)
        } else if self.has_client(req.client_id) {
            ConnectResponse::Denied(DenyReason::AlreadyConnected)
        } else if self.connections.len() >= self.max_clients {
            ConnectResponse::Denied(DenyReason::ServerFull)
        } else {
            ConnectResponse::Accepted
        }
    }

    /// The server after answering one handshake: an accepted request appends
    /// a fresh connection and pends its lifecycle event; a denied one changes
    /// nothing.
    pub open spec fn after_connect(self, req: ConnectRequest, from: NetAddr) -> ServerView {
        if self.connect_outcome(req) == ConnectResponse::Accepted {
            ServerView {
                max_clients: self.max_clients,
                protocol_id: self.protocol_id,
                public_addr: self.public_addr,
                connections: self.connections.push(
                    ConnectionView {
                        client_id: req.client_id,
                        addr: from,
                        inbox: Seq::empty(),
                        outbox: Seq::empty(),
                    },
                ),
                pending_events: self.pending_events.push(
                    ServerEvent::ClientConnected { client_id: req.client_id },
                ),
            }
        } else {
            self
        }
    }

    /// The server after closing one connection: a live identifier is removed
    /// and its lifecycle event pended; any other identifier changes nothing,
    /// so closing twice equals closing once.
    pub open spec fn after_disconnect(self, client_id: u64, reason: DisconnectReason) -> ServerView {
        match find_index(self.connections, client_id) {
            Some(i) => ServerView {
                max_clients: self.max_clients,
                protocol_id: self.protocol_id,
                public_addr: self.public_addr,
                connections: self.connections.remove(i),
                pending_events: self.pending_events.push(
                    ServerEvent::ClientDisconnected { client_id, reason },
                ),
            },
            None => self,
        }
    }

    /// The server with one connection's view replaced.
    pub open spec fn with_connection(self, i: int, c: ConnectionView) -> ServerView {
        ServerView {
            max_clients: self.max_clients,
            protocol_id: self.protocol_id,
            public_addr: self.public_addr,
            connections: self.connections.update(i, c),
            pending_events: self.pending_events,
        }
    }

    /// The server after queueing one outbound message for a client: appended
    /// to the connection's outbox when the identifier is live, dropped (with
    /// the send reported failed) otherwise.
    pub open spec fn after_send(self, client_id: u64, message: Seq<u8>) -> ServerView {
        match find_index(self.connections, client_id) {
            Some(i) => self.with_connection(
                i,
                ConnectionView {
                    client_id: self.connections[i].client_id,
                    addr: self.connections[i].addr,
                    inbox: self.connections[i].inbox,
                    outbox: self.connections[i].outbox.push(message),
                },
            ),
            None => self,
        }
    }

    /// The server after the transport delivers a burst of raw inbound
    /// messages from a client, in arrival order: appended to the connection's
    /// inbox when the identifier is live, dropped otherwise.
    pub open spec fn after_deliver(self, client_id: u64, msgs: Seq<Seq<u8>>) -> ServerView {
        match find_index(self.connections, client_id) {
            Some(i) => self.with_connection(
                i,
                ConnectionView {
                    client_id: self.connections[i].client_id,
                    addr: self.connections[i].addr,
                    inbox: self.connections[i].inbox + msgs,
                    outbox: self.connections[i].outbox,
                },
            ),
            None => self,
        }
    }

    /// The server after handing one client's queued outbound messages to the
    /// wire: that connection's outbox empties.
    pub open spec fn after_take_outbox(self, client_id: u64) -> ServerView {
        match find_index(self.connections, client_id) {
            Some(i) => self.with_connection(
                i,
                ConnectionView {
                    client_id: self.connections[i].client_id,
                    addr: self.connections[i].addr,
                    inbox: self.connections[i].inbox,
                    outbox: Seq::empty(),
                },
            ),
            None => self,
        }
    }

    /// One client's queued outbound messages, oldest first.
    pub open spec fn outbox_of(self, client_id: u64) -> Seq<Seq<u8>> {
        match find_index(self.connections, client_id) {
            Some(i) => self.connections[i].outbox,
            None => Seq::empty(),
        }
    }

    /// The oldest not-yet-drained inbound message of one client, if any.
    pub open spec fn first_inbound(self, client_id: u64) -> Option<Seq<u8>> {
        match find_index(self.connections, client_id) {
            Some(i) => if self.connections[i].inbox.len() > 0 {
                Some(self.connections[i].inbox[0])
            } else {
                None
            },
            None => None,
        }
    }

    /// The server after one receive poll on a client: the oldest inbound
    /// message leaves that connection's queue.
    pub open spec fn after_receive(self, client_id: u64) -> ServerView {
        match find_index(self.connections, client_id) {
            Some(i) => if self.connections[i].inbox.len() > 0 {
                self.with_connection(
                    i,
                    ConnectionView {
                        client_id: self.connections[i].client_id,
                        addr: self.connections[i].addr,
                        inbox: self.connections[i].inbox.drop_first(),
                        outbox: self.connections[i].outbox,
                    },
                )
            } else {
                self
            },
            None => self,
        }
    }

    /// One client's not-yet-drained inbound messages, oldest first.
    pub open spec fn inbox_of(self, client_id: u64) -> Seq<Seq<u8>> {
        match find_index(self.connections, client_id) {
            Some(i) => self.connections[i].inbox,
            None => Seq::empty(),
        }
    }

    /// The server after one client's pending inbound messages are drained.
    pub open spec fn after_take_inbox(self, client_id: u64) -> ServerView {
        match find_index(self.connections, client_id) {
            Some(i) => self.with_connection(
                i,
                ConnectionView {
                    client_id: self.connections[i].client_id,
                    addr: self.connections[i].addr,
                    inbox: Seq::empty(),
                    outbox: self.connections[i].outbox,
                },
            ),
            None => self,
        }
    }

    /// The server once its pending lifecycle events are surfaced.
    pub open spec fn after_take_events(self) -> ServerView {
        ServerView {
            max_clients: self.max_clients,
            protocol_id: self.protocol_id,
            public_addr: self.public_addr,
            connections: self.connections,
            pending_events: Seq::empty(),
        }
    }
}

/// Two server views with pairwise equal identifiers and equal capacity are
/// well-formed together.
proof fn lemma_wf_same_ids(a: ServerView, b: ServerView)
    requires
        a.wf(),
        b.max_clients == a.max_clients,
        b.connections.len() == a.connections.len(),
        forall|i: int|
            0 <= i < a.connections.len() ==> a.connections[i].client_id
                == b.connections[i].client_id,
    ensures
        b.wf(),
{
}

/// The server's connection transport: a table of independent connection
/// state machines keyed by client identifier, plus the lifecycle events not
/// yet surfaced to application logic.
pub struct Server {
    config: ServerConfig,
    connections: Vec<RemoteConnection>,
    pending_events: Vec<ServerEvent>,
}

impl View for Server {
    type V = ServerView;

    closed spec fn view(&self) -> ServerView {
        ServerView {
            max_clients: self.config.max_clients as int,
            protocol_id: self.config.protocol_id,
            public_addr: self.config.public_addr,
            connections: self.connections@.map_values(|c: RemoteConnection| c@),
            pending_events: self.pending_events@,
        }
    }
}

impl Server {
    /// A freshly bound server: empty table, no pending events.
    pub fn new(config: ServerConfig) -> (s: Server)
        ensures
            s@.wf(),
            s@.max_clients == config.max_clients,
            s@.protocol_id == config.protocol_id,
            s@.public_addr == config.public_addr,
            s@.connections == Seq::<ConnectionView>::empty(),
            s@.pending_events == Seq::<ServerEvent>::empty(),
    {
        let s = Server { config, connections: Vec::new(), pending_events: Vec::new() };
        proof {
            assert(s@.connections =~= Seq::<ConnectionView>::empty());
        }
        s
    }

    /// The index of the live connection with this identifier, if any.
    fn find_conn(&self, client_id: u64) -> (r: Option<usize>)
        ensures
            match r {
                Some(i) => find_index(self@.connections, client_id) == Some(i as int),
                None => find_index(self@.connections, client_id) is None,
            },
    {
        let mut i: usize = 0;
        while i < self.connections.len()
            invariant
                i <= self.connections@.len(),
                forall|j: int| 0 <= j < i ==> self@.connections[j].client_id != client_id,
            decreases self.connections@.len() - i,
        {
            if self.connections[i].client_id == client_id {
                proof {
                    lemma_find_index(self@.connections, client_id);
                    assert(self@.connections[i as int].client_id == client_id);
                    match find_index(self@.connections, client_id) {
                        Some(k) => {
                            if k < i as int {
                                assert(self@.connections[k].client_id == client_id);
                            }
                            if k > i as int {
                                assert(self@.connections[i as int].client_id != client_id);
                            }
                        },
                        None => {
                            assert(self@.connections[i as int].client_id != client_id);
                        },
                    }
                }
                return Some(i);
            }
            i += 1;
        }
        proof {
            lemma_find_index(self@.connections, client_id);
        }
        None
    }

    /// Decides one inbound handshake. Acceptance creates the connection and
    /// pends its `ClientConnected` event; rejection names its reason and
    /// leaves the server untouched.
    pub fn handle_connect_request(&mut self, req: ConnectRequest, from: NetAddr) -> (resp:
        ConnectResponse)
        requires
            old(self)@.wf(),
        ensures
            final(self)@.wf(),
            resp == old(self)@.connect_outcome(req),
            final(self)@ == old(self)@.after_connect(req, from),
    {
        if req.protocol_id != self.config.protocol_id {
            return ConnectResponse::Denied(DenyReason::ProtocolMismatch);
        }
        match self.find_conn(req.client_id) {
            Some(_) => ConnectResponse::Denied(DenyReason::AlreadyConnected),
            None => {
                if self.connections.len() >= self.config.max_clients {
                    ConnectResponse::Denied(DenyReason::ServerFull)
                } else {
                    let ghost prev = self@;
                    proof {
                        lemma_find_index(prev.connections, req.client_id);
                    }
                    self.connections.push(
                        RemoteConnection {
                            client_id: req.client_id,
                            addr: from,
                            inbox: Vec::new(),
                            outbox: Vec::new(),
                        },
                    );
                    self.pending_events.push(
                        ServerEvent::ClientConnected { client_id: req.client_id },
                    );
                    proof {
                        assert(self@ =~~= prev.after_connect(req, from));
                    }
                    ConnectResponse::Accepted
                }
            },
        }
    }

    /// Closes one connection: a live identifier leaves the table and its
    /// `ClientDisconnected` event is pended; an unknown or already-closed
    /// identifier is a no-op with no event, so close is idempotent.
    pub fn disconnect_client(&mut self, client_id: u64, reason: DisconnectReason)
        requires
            old(self)@.wf(),
        ensures
            final(self)@.wf(),
            final(self)@ == old(self)@.after_disconnect(client_id, reason),
    {
        match self.find_conn(client_id) {
            Some(i) => {
                let ghost prev = self@;
                proof {
                    lemma_find_index(prev.connections, client_id);
                }
                self.connections.remove(i);
                self.pending_events.push(ServerEvent::ClientDisconnected { client_id, reason });
                proof {
                    lemma_map_values_remove(
                        old(self).connections@,
                        |c: RemoteConnection| c@,
                        i as int,
                    );
                    assert(self@ =~~= prev.after_disconnect(client_id, reason));
                    assert forall|p: int, q: int|
                        0 <= p < q < self@.connections.len() implies self@.connections[p].client_id
                        != self@.connections[q].client_id by {
                        let pp = if p < i { p } else { p + 1 };
                        let qq = if q < i { q } else { q + 1 };
                        assert(self@.connections[p] == prev.connections[pp]);
                        assert(self@.connections[q] == prev.connections[qq]);
                    }
                }
            },
            None => {},
        }
    }

    /// Queues one outbound message for a client on the given channel. The
    /// send is refused, and the server untouched, when the identifier names
    /// no live connection.
    pub fn send_message(&mut self, client_id: u64, _channel: Channel, message: Vec<u8>) -> (r:
        Result<(), SendError>)
        requires
            old(self)@.wf(),
        ensures
            final(self)@.wf(),
            final(self)@ == old(self)@.after_send(client_id, message@),
            r is Ok <==> old(self)@.has_client(client_id),
    {
        match self.find_conn(client_id) {
            Some(i) => {
                let ghost prev = self@;
                proof {
                    lemma_find_index(prev.connections, client_id);
                }
                let conn = &mut self.connections[i];
                conn.outbox.push(message);
                proof {
                    assert(self@ =~~= prev.after_send(client_id, message@));
                    lemma_wf_same_ids(prev, self@);
                }
                Ok(())
            },
            None => Err(SendError::NotConnected),
        }
    }

    /// Non-blocking receive poll: pops the oldest pending inbound message of
    /// one client on the given channel, `None` when its queue is empty or the
    /// identifier names no live connection. Per-sender FIFO.
    pub fn receive_message(&mut self, client_id: u64, _channel: Channel) -> (r: Option<Vec<u8>>)
        requires
            old(self)@.wf(),
        ensures
            final(self)@.wf(),
            final(self)@ == old(self)@.after_receive(client_id),
            r.deep_view() == old(self)@.first_inbound(client_id),
    {
        match self.find_conn(client_id) {
            Some(i) => {
                let ghost prev = self@;
                proof {
                    lemma_find_index(prev.connections, client_id);
                }
                let conn = &mut self.connections[i];
                if conn.inbox.len() > 0 {
                    let msg = conn.inbox.remove(0);
                    proof {
                        assert(self@.connections[i as int].inbox
                            =~= prev.connections[i as int].inbox.drop_first());
                        assert(self@ =~~= prev.after_receive(client_id));
                        lemma_wf_same_ids(prev, self@);
                    }
                    Some(msg)
                } else {
                    proof {
                        assert(self@ =~~= prev.after_receive(client_id));
                    }
                    None
                }
            },
            None => None,
        }
    }

    /// The wire edge: the transport hands over a burst of raw inbound
    /// messages from one client, in arrival order. Messages for an unknown
    /// identifier are dropped.
    pub fn deliver_inbound(&mut self, client_id: u64, msgs: Vec<Vec<u8>>)
        requires
            old(self)@.wf(),
        ensures
            final(self)@.wf(),
            final(self)@ == old(self)@.after_deliver(client_id, msgs.deep_view()),
    {
        match self.find_conn(client_id) {
            Some(i) => {
                let ghost prev = self@;
                proof {
                    lemma_find_index(prev.connections, client_id);
                }
                let ghost delivered = msgs.deep_view();
                let mut msgs = msgs;
                let conn = &mut self.connections[i];
                conn.inbox.append(&mut msgs);
                proof {
                    assert(self@.connections[i as int].inbox
                        =~= prev.connections[i as int].inbox + delivered);
                    assert(self@ =~~= prev.after_deliver(client_id, delivered));
                    lemma_wf_same_ids(prev, self@);
                }
            },
            None => {},
        }
    }

    /// The wire edge: takes every message queued for one client, oldest
    /// first, for the transport to put on the wire.
    pub fn take_outbox(&mut self, client_id: u64) -> (msgs: Vec<Vec<u8>>)
        requires
            old(self)@.wf(),
        ensures
            final(self)@.wf(),
            final(self)@ == old(self)@.after_take_outbox(client_id),
            msgs.deep_view() == old(self)@.outbox_of(client_id),
    {
        match self.find_conn(client_id) {
            Some(i) => {
                let ghost prev = self@;
                proof {
                    lemma_find_index(prev.connections, client_id);
                }
                let conn = &mut self.connections[i];
                let msgs = conn.outbox.split_off(0);
                proof {
                    assert(self@.connections[i as int].outbox =~= Seq::<Seq<u8>>::empty());
                    assert(self@ =~~= prev.after_take_outbox(client_id));
                    lemma_wf_same_ids(prev, self@);
                    assert(msgs.deep_view() =~= prev.outbox_of(client_id));
                }
                msgs
            },
            None => Vec::new(),
        }
    }

    /// Drains every pending inbound message of one client at once, oldest
    /// first, for the dispatch loop to decode and route.
    pub fn take_inbox(&mut self, client_id: u64) -> (msgs: Vec<Vec<u8>>)
        requires
            old(self)@.wf(),
        ensures
            final(self)@.wf(),
            final(self)@ == old(self)@.after_take_inbox(client_id),
            msgs.deep_view() == old(self)@.inbox_of(client_id),
    {
        match self.find_conn(client_id) {
            Some(i) => {
                let ghost prev = self@;
                proof {
                    lemma_find_index(prev.connections, client_id);
                }
                let conn = &mut self.connections[i];
                let msgs = conn.inbox.split_off(0);
                proof {
                    assert(self@.connections[i as int].inbox =~= Seq::<Seq<u8>>::empty());
                    assert(self@ =~~= prev.after_take_inbox(client_id));
                    lemma_wf_same_ids(prev, self@);
                    assert(msgs.deep_view() =~= prev.inbox_of(client_id));
                }
                msgs
            },
            None => Vec::new(),
        }
    }

    /// Takes the connect/disconnect lifecycle events pending since the last
    /// drain, oldest first. The dispatch loop surfaces them to application
    /// logic before any of the same tick's payload messages.
    pub fn take_events(&mut self) -> (events: Vec<ServerEvent>)
        requires
            old(self)@.wf(),
        ensures
            final(self)@.wf(),
            final(self)@ == old(self)@.after_take_events(),
            events@ == old(self)@.pending_events,
    {
        let events = self.pending_events.split_off(0);
        proof {
            assert(events@ =~= old(self)@.pending_events);
            assert(self@ =~~= old(self)@.after_take_events());
        }
        events
    }

    /// The identifiers of all live connections, in table order.
    pub fn clients_id(&self) -> (ids: Vec<u64>)
        ensures
            ids@ == self@.client_ids(),
    {
        let mut ids: Vec<u64> = Vec::new();
        let mut i: usize = 0;
        while i < self.connections.len()
            invariant
                i <= self.connections@.len(),
                ids@ == self@.client_ids().subrange(0, i as int),
            decreases self.connections@.len() - i,
        {
            ids.push(self.connections[i].client_id);
            proof {
                assert(ids@ =~= self@.client_ids().subrange(0, i + 1 as int));
            }
            i += 1;
        }
        proof {
            assert(self@.client_ids().subrange(0, self.connections@.len() as int)
                =~= self@.client_ids());
        }
        ids
    }

    /// Whether this identifier names a live connection.
    pub fn is_connected(&self, client_id: u64) -> (r: bool)
        ensures
            r == self@.has_client(client_id),
    {
        self.find_conn(client_id).is_some()
    }

    /// How many connections are live.
    pub fn connected_count(&self) -> (n: usize)
        ensures
            n == self@.connections.len(),
    {
        self.connections.len()
    }

    /// The configuration this server was started with.
    pub fn config(&self) -> (c: ServerConfig)
        ensures
            c.max_clients == self@.max_clients,
            c.protocol_id == self@.protocol_id,
            c.public_addr == self@.public_addr,
    {
        self.config
    }
}

/// The client's lifecycle states. A connect attempt is polled across ticks
/// until it resolves to `Connected` or back to `Disconnected`; no public
/// operation blocks.
#[derive(Debug, Clone, Copy, PartialEq, Eq, Structural)]
pub enum ClientState {
    Disconnected,
    Connecting,
    Connected,
}

/// The client's connection transport: at most one peer link, with its
/// lifecycle state, the two reliable-ordered queues, and the lifecycle
/// events not yet surfaced to application logic.
pub struct Client {
    state: ClientState,
    client_id: u64,
    protocol_id: u64,
    server_addr: NetAddr,
    inbox: Vec<Vec<u8>>,
    outbox: Vec<Vec<u8>>,
    pending_events: Vec<ClientEvent>,
}

/// The mathematical image of a `Client`.
#[verifier::ext_equal]
pub struct ClientView {
    pub state: ClientState,
    pub client_id: u64,
    pub protocol_id: u64,
    pub server_addr: NetAddr,
    pub inbox: Seq<Seq<u8>>,
    pub outbox: Seq<Seq<u8>>,
    pub pending_events: Seq<ClientEvent>,
}

impl View for Client {
    type V = ClientView;

    closed spec fn view(&self) -> ClientView {
        ClientView {
            state: self.state,
            client_id: self.client_id,
            protocol_id: self.protocol_id,
            server_addr: self.server_addr,
            inbox: self.inbox.deep_view(),
            outbox: self.outbox.deep_view(),
            pending_events: self.pending_events@,
        }
    }
}

impl ClientView {
    /// The client after its link dies for the given reason: the terminal
    /// `Disconnected` state, both queues destroyed with the connection, and
    /// the lifecycle event pended with its human-readable reason.
    pub open spec fn disconnected_with(self, reason: DisconnectReason) -> ClientView {
        ClientView {
            state: ClientState::Disconnected,
            client_id: self.client_id,
            protocol_id: self.protocol_id,
            server_addr: self.server_addr,
            inbox: Seq::empty(),
            outbox: Seq::empty(),
            pending_events: self.pending_events.push(ClientEvent::Disconnected { reason }),
        }
    }

    /// The client after the handshake answer arrives: acceptance completes
    /// the upgrade to `Connected`; denial resolves to `Disconnected` with the
    /// denial as reason. An answer in any other state is stale and ignored.
    pub open spec fn after_connect_response(self, resp: ConnectResponse) -> ClientView {
        if self.state is Connecting {
            match resp {
                ConnectResponse::Accepted => ClientView {
                    state: ClientState::Connected,
                    client_id: self.client_id,
                    protocol_id: self.protocol_id,
                    server_addr: self.server_addr,
                    inbox: self.inbox,
                    outbox: self.outbox,
                    pending_events: self.pending_events.push(ClientEvent::Connected),
                },
                ConnectResponse::Denied(d) => self.disconnected_with(
                    DisconnectReason::HandshakeDenied(d),
                ),
            }
        } else {
            self
        }
    }

    /// The client after an explicit local close: a live or connecting link
    /// dies; closing an already-dead link changes nothing and pends no
    /// second event.
    pub open spec fn after_close(self) -> ClientView {
        if self.state is Disconnected {
            self
        } else {
            self.disconnected_with(DisconnectReason::ClosedLocally)
        }
    }

    /// The client after the transport reports the link lost (peer disconnect
    /// notification or liveness timeout): as `after_close`, under the
    /// transport's reason.
    pub open spec fn after_link_lost(self, reason: DisconnectReason) -> ClientView {
        if self.state is Disconnected {
            self
        } else {
            self.disconnected_with(reason)
        }
    }

    /// The client after queueing one outbound message: appended to the
    /// outbox when connected, dropped (with the send reported failed)
    /// otherwise.
    pub open spec fn after_send(self, message: Seq<u8>) -> ClientView {
        if self.state is Connected {
            ClientView {
                state: self.state,
                client_id: self.client_id,
                protocol_id: self.protocol_id,
                server_addr: self.server_addr,
                inbox: self.inbox,
                outbox: self.outbox.push(message),
                pending_events: self.pending_events,
            }
        } else {
            self
        }
    }

    /// The client after queueing a run of outbound messages, in order.
    pub open spec fn after_send_all(self, msgs: Seq<Seq<u8>>) -> ClientView
        decreases msgs.len(),
    {
        if msgs.len() == 0 {
            self
        } else {
            self.after_send(msgs[0]).after_send_all(msgs.drop_first())
        }
    }

    /// The oldest not-yet-drained inbound message, if any.
    pub open spec fn first_inbound(self) -> Option<Seq<u8>> {
        if self.inbox.len() > 0 {
            Some(self.inbox[0])
        } else {
            None
        }
    }

    /// The client after one receive poll: the oldest inbound message leaves
    /// the queue.
    pub open spec fn after_receive(self) -> ClientView {
        if self.inbox.len() > 0 {
            ClientView {
                state: self.state,
                client_id: self.client_id,
                protocol_id: self.protocol_id,
                server_addr: self.server_addr,
                inbox: self.inbox.drop_first(),
                outbox: self.outbox,
                pending_events: self.pending_events,
            }
        } else {
            self
        }
    }

    /// The client after the transport delivers a burst of raw inbound
    /// messages, in arrival order: appended when connected, dropped
    /// otherwise.
    pub open spec fn after_deliver(self, msgs: Seq<Seq<u8>>) -> ClientView {
        if self.state is Connected {
            ClientView {
                state: self.state,
                client_id: self.client_id,
                protocol_id: self.protocol_id,
                server_addr: self.server_addr,
                inbox: self.inbox + msgs,
                outbox: self.outbox,
                pending_events: self.pending_events,
            }
        } else {
            self
        }
    }

    /// The client after its pending inbound messages are drained.
    pub open spec fn after_take_inbox(self) -> ClientView {
        ClientView {
            state: self.state,
            client_id: self.client_id,
            protocol_id: self.protocol_id,
            server_addr: self.server_addr,
            inbox: Seq::empty(),
            outbox: self.outbox,
            pending_events: self.pending_events,
        }
    }

    /// The client after handing its queued outbound messages to the wire.
    pub open spec fn after_take_outbox(self) -> ClientView {
        ClientView {
            state: self.state,
            client_id: self.client_id,
            protocol_id: self.protocol_id,
            server_addr: self.server_addr,
            inbox: self.inbox,
            outbox: Seq::empty(),
            pending_events: self.pending_events,
        }
    }

    /// The client once its pending lifecycle events are surfaced.
    pub open spec fn after_take_events(self) -> ClientView {
        ClientView {
            state: self.state,
            client_id: self.client_id,
            protocol_id: self.protocol_id,
            server_addr: self.server_addr,
            inbox: self.inbox,
            outbox: self.outbox,
            pending_events: Seq::empty(),
        }
    }
}

impl Client {
    /// Begins the unreliable-to-reliable upgrade toward `server_addr`: the
    /// client enters `Connecting` and emits the opening handshake request.
    /// The surrounding program binds the ephemeral socket, supplies a
    /// per-process-run unique identifier, and carries the request to the
    /// server; the attempt is then polled across ticks, never blocking.
    pub fn connect(server_addr: NetAddr, client_id: u64, protocol_id: u64) -> (r: (
        Client,
        ConnectRequest,
    ))
        ensures
            r.0@ == (ClientView {
                state: ClientState::Connecting,
                client_id,
                protocol_id,
                server_addr,
                inbox: Seq::empty(),
                outbox: Seq::empty(),
                pending_events: Seq::empty(),
            }),
            r.1 == (ConnectRequest { client_id, protocol_id }),
    {
        let c = Client {
            state: ClientState::Connecting,
            client_id,
            protocol_id,
            server_addr,
            inbox: Vec::new(),
            outbox: Vec::new(),
            pending_events: Vec::new(),
        };
        proof {
            assert(c@ =~~= (ClientView {
                state: ClientState::Connecting,
                client_id,
                protocol_id,
                server_addr,
                inbox: Seq::empty(),
                outbox: Seq::empty(),
                pending_events: Seq::empty(),
            }));
        }
        (c, ConnectRequest { client_id, protocol_id })
    }

    /// Resolves a pending connect attempt with the server's handshake
    /// answer; stale answers in other states are ignored.
    pub fn handle_connect_response(&mut self, resp: ConnectResponse)
        ensures
            final(self)@ == old(self)@.after_connect_response(resp),
    {
        match self.state {
            ClientState::Connecting => {
                match resp {
                    ConnectResponse::Accepted => {
                        self.state = ClientState::Connected;
                        self.pending_events.push(ClientEvent::Connected);
                        proof {
                            assert(self@ =~~= old(self)@.after_connect_response(resp));
                        }
                    },
                    ConnectResponse::Denied(d) => {
                        self.drop_link(DisconnectReason::HandshakeDenied(d));
                        proof {
                            assert(self@ =~~= old(self)@.after_connect_response(resp));
                        }
                    },
                }
            },
            _ => {},
        }
    }

    /// Explicitly closes the link. Immediate and idempotent: closing an
    /// already-disconnected client is a no-op with no duplicate event.
    pub fn close(&mut self)
        ensures
            final(self)@ == old(self)@.after_close(),
    {
        match self.state {
            ClientState::Disconnected => {},
            _ => {
                self.drop_link(DisconnectReason::ClosedLocally);
                proof {
                    assert(self@ =~~= old(self)@.after_close());
                }
            },
        }
    }

    /// Accepts the transport's report that the link was lost: a peer
    /// disconnect notification or a liveness/handshake timeout, with its
    /// reason. Ignored when already disconnected.
    pub fn handle_link_lost(&mut self, reason: DisconnectReason)
        ensures
            final(self)@ == old(self)@.after_link_lost(reason),
    {
        match self.state {
            ClientState::Disconnected => {},
            _ => {
                self.drop_link(reason);
                proof {
                    assert(self@ =~~= old(self)@.after_link_lost(reason));
                }
            },
        }
    }

    /// Tears the link down to `Disconnected` and pends the lifecycle event.
    fn drop_link(&mut self, reason: DisconnectReason)
        ensures
            final(self)@ == old(self)@.disconnected_with(reason),
    {
        self.state = ClientState::Disconnected;
        self.inbox = Vec::new();
        self.outbox = Vec::new();
        self.pending_events.push(ClientEvent::Disconnected { reason });
        proof {
            assert(self@ =~~= old(self)@.disconnected_with(reason));
        }
    }

    /// Queues one outbound message on the given channel; refused while the
    /// client is not connected.
    pub fn send_message(&mut self, _channel: Channel, message: Vec<u8>) -> (r: Result<
        (),
        SendError,
    >)
        ensures
            final(self)@ == old(self)@.after_send(message@),
            r is Ok <==> old(self)@.state is Connected,
    {
        match self.state {
            ClientState::Connected => {
                self.outbox.push(message);
                proof {
                    assert(self@ =~~= old(self)@.after_send(message@));
                }
                Ok(())
            },
            _ => Err(SendError::NotConnected),
        }
    }

    /// Non-blocking receive poll: pops the oldest pending inbound message,
    /// `None` when the queue is empty. FIFO.
    pub fn receive_message(&mut self, _channel: Channel) -> (r: Option<Vec<u8>>)
        ensures
            final(self)@ == old(self)@.after_receive(),
            r.deep_view() == old(self)@.first_inbound(),
    {
        if self.inbox.len() > 0 {
            let msg = self.inbox.remove(0);
            proof {
                assert(self@.inbox =~= old(self)@.inbox.drop_first());
                assert(self@ =~~= old(self)@.after_receive());
            }
            Some(msg)
        } else {
            None
        }
    }

    /// The wire edge: the transport hands over a burst of raw inbound
    /// messages, in arrival order; dropped while not connected.
    pub fn deliver_inbound(&mut self, msgs: Vec<Vec<u8>>)
        ensures
            final(self)@ == old(self)@.after_deliver(msgs.deep_view()),
    {
        match self.state {
            ClientState::Connected => {
                let ghost delivered = msgs.deep_view();
                let mut msgs = msgs;
                self.inbox.append(&mut msgs);
                proof {
                    assert(self@.inbox =~= old(self)@.inbox + delivered);
                    assert(self@ =~~= old(self)@.after_deliver(delivered));
                }
            },
            _ => {},
        }
    }

    /// Drains every pending inbound message at once, oldest first, for the
    /// dispatch loop to decode and route.
    pub fn take_inbox(&mut self) -> (msgs: Vec<Vec<u8>>)
        ensures
            final(self)@ == old(self)@.after_take_inbox(),
            msgs.deep_view() == old(self)@.inbox,
    {
        let msgs = self.inbox.split_off(0);
        proof {
            assert(msgs.deep_view() =~= old(self)@.inbox);
            assert(self@ =~~= old(self)@.after_take_inbox());
        }
        msgs
    }

    /// The wire edge: takes every queued outbound message, oldest first, for
    /// the transport to put on the wire.
    pub fn take_outbox(&mut self) -> (msgs: Vec<Vec<u8>>)
        ensures
            final(self)@ == old(self)@.after_take_outbox(),
            msgs.deep_view() == old(self)@.outbox,
    {
        let msgs = self.outbox.split_off(0);
        proof {
            assert(msgs.deep_view() =~= old(self)@.outbox);
            assert(self@ =~~= old(self)@.after_take_outbox());
        }
        msgs
    }

    /// Takes the lifecycle events pending since the last drain, oldest
    /// first. The dispatch loop surfaces them to application logic before
    /// any of the same tick's payload messages.
    pub fn take_events(&mut self) -> (events: Vec<ClientEvent>)
        ensures
            final(self)@ == old(self)@.after_take_events(),
            events@ == old(self)@.pending_events,
    {
        let events = self.pending_events.split_off(0);
        proof {
            assert(events@ =~= old(self)@.pending_events);
            assert(self@ =~~= old(self)@.after_take_events());
        }
        events
    }

    /// The current lifecycle state.
    pub fn state(&self) -> (s: ClientState)
        ensures
            s == self@.state,
    {
        self.state
    }

    /// Whether the upgrade to a live connection has completed.
    pub fn is_connected(&self) -> (r: bool)
        ensures
            r == (self@.state is Connected),
    {
        match self.state {
            ClientState::Connected => true,
            _ => false,
        }
    }

    /// The locally generated identifier this client presents.
    pub fn client_id(&self) -> (id: u64)
        ensures
            id == self@.client_id,
    {
        self.client_id
    }
}

/// Removing one connection removes no other identifier: an identifier absent
/// from the table stays absent, and the removed one is gone.
proof fn lemma_find_index_after_remove(conns: Seq<ConnectionView>, i: int, client_id: u64)
    requires
        0 <= i < conns.len(),
        forall|p: int, q: int|
            0 <= p < q < conns.len() ==> conns[p].client_id != conns[q].client_id,
        conns[i].client_id == client_id || (forall|j: int|
            0 <= j < conns.len() ==> conns[j].client_id != client_id),
    ensures
        find_index(conns.remove(i), client_id) is None,
{
    let removed = conns.remove(i);
    lemma_find_index(removed, client_id);
    if find_index(removed, client_id) is Some {
        let k = find_index(removed, client_id)->Some_0;
        let kk = if k < i {
            k
        } else {
            k + 1
        };
        assert(removed[k] == conns[kk]);
    }
}

/// In a table with distinct identifiers, looking an entry's identifier up
/// finds exactly that entry.
pub proof fn lemma_find_index_unique(conns: Seq<ConnectionView>, j: int)
    requires
        0 <= j < conns.len(),
        forall|p: int, q: int|
            0 <= p < q < conns.len() ==> conns[p].client_id != conns[q].client_id,
    ensures
        find_index(conns, conns[j].client_id) == Some(j),
{
    let id = conns[j].client_id;
    lemma_find_index(conns, id);
    match find_index(conns, id) {
        Some(k) => {
            if k < j {
                assert(conns[k].client_id == id);
            }
            if k > j {
                assert(conns[j].client_id != id);
            }
        },
        None => {
            assert(conns[j].client_id != id);
        },
    }
}

/// Connection capacity: while the table is full, the next fresh handshake is
/// rejected as the server being full; immediately after any one client
/// disconnects, the same handshake is accepted.
pub proof fn lemma_capacity_boundary(
    s: ServerView,
    req: ConnectRequest,
    leaver: u64,
    reason: DisconnectReason,
)
    requires
        s.wf(),
        s.connections.len() == s.max_clients,
        req.protocol_id == s.protocol_id,
        !s.has_client(req.client_id),
        s.has_client(leaver),
        req.client_id != leaver,
    ensures
        s.connect_outcome(req) == ConnectResponse::Denied(DenyReason::ServerFull),
        s.after_disconnect(leaver, reason).connect_outcome(req) == ConnectResponse::Accepted,
{
    lemma_find_index(s.connections, leaver);
    lemma_find_index(s.connections, req.client_id);
    let i = find_index(s.connections, leaver)->Some_0;
    let s1 = s.after_disconnect(leaver, reason);
    lemma_find_index_after_remove(s.connections, i, req.client_id);
}

/// Disconnect idempotence: closing the same connection a second time, under
/// any reason, changes nothing and pends no duplicate disconnect event.
pub proof fn lemma_disconnect_idempotent(
    s: ServerView,
    client_id: u64,
    r1: DisconnectReason,
    r2: DisconnectReason,
)
    requires
        s.wf(),
    ensures
        s.after_disconnect(client_id, r1).after_disconnect(client_id, r2) == s.after_disconnect(
            client_id,
            r1,
        ),
{
    let s1 = s.after_disconnect(client_id, r1);
    lemma_find_index(s.connections, client_id);
    match find_index(s.connections, client_id) {
        Some(i) => {
            lemma_find_index_after_remove(s.connections, i, client_id);
        },
        None => {},
    }
}

/// While connected, a run of sends queues exactly the sent messages, after
/// what was already queued, in send order, and changes nothing else.
pub proof fn lemma_send_all_appends(c: ClientView, msgs: Seq<Seq<u8>>)
    requires
        c.state is Connected,
    ensures
        c.after_send_all(msgs) == (ClientView {
            state: c.state,
            client_id: c.client_id,
            protocol_id: c.protocol_id,
            server_addr: c.server_addr,
            inbox: c.inbox,
            outbox: c.outbox + msgs,
            pending_events: c.pending_events,
        }),
    decreases msgs.len(),
{
    if msgs.len() == 0 {
        assert(c.outbox + msgs =~= c.outbox);
        assert(c.after_send_all(msgs) =~~= (ClientView {
            state: c.state,
            client_id: c.client_id,
            protocol_id: c.protocol_id,
            server_addr: c.server_addr,
            inbox: c.inbox,
            outbox: c.outbox + msgs,
            pending_events: c.pending_events,
        }));
    } else {
        lemma_send_all_appends(c.after_send(msgs[0]), msgs.drop_first());
        assert(c.outbox.push(msgs[0]) + msgs.drop_first() =~= c.outbox + msgs);
        assert(c.after_send_all(msgs) =~~= (ClientView {
            state: c.state,
            client_id: c.client_id,
            protocol_id: c.protocol_id,
            server_addr: c.server_addr,
            inbox: c.inbox,
            outbox: c.outbox + msgs,
            pending_events: c.pending_events,
        }));
    }
}

/// Close idempotence on the client: closing an already-closed client is a
/// no-op with no duplicate disconnect event.
pub proof fn lemma_close_idempotent(c: ClientView)
    ensures
        c.after_close().after_close() == c.after_close(),
{
}

/// One flush of the reliable ordered channel, client→server: every message
/// the client has queued crosses the wire and arrives in send order, with no
/// loss. An in-process image of the channel's delivery guarantee, for
/// loopback runs and tests.
pub fn flush_client_to_server(client: &mut Client, server: &mut Server)
    requires
        old(server)@.wf(),
    ensures
        final(server)@.wf(),
        final(client)@ == old(client)@.after_take_outbox(),
        final(server)@ == old(server)@.after_deliver(old(client)@.client_id, old(client)@.outbox),
{
    let msgs = client.take_outbox();
    server.deliver_inbound(client.client_id(), msgs);
}

/// One flush of the reliable ordered channel, server→client: every message
/// the server has queued for this client crosses the wire and arrives in
/// send order, with no loss.
pub fn flush_server_to_client(server: &mut Server, client: &mut Client)
    requires
        old(server)@.wf(),
    ensures
        final(server)@.wf(),
        final(server)@ == old(server)@.after_take_outbox(old(client)@.client_id),
        final(client)@ == old(client)@.after_deliver(
            old(server)@.outbox_of(old(client)@.client_id),
        ),
{
    let msgs = server.take_outbox(client.client_id());
    client.deliver_inbound(msgs);
}

} // verus!
