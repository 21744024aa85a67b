//! A typed network packet protocol for a two-party (client/server) game.
//!
//! The crate is layered, leaves first:
//! - `codec`: deterministic binary encoding primitives and decode errors;
//! - `client_packets` / `server_packets`: the closed packet sets legal on
//!   each direction of communication, with their tagged wire envelopes;
//! - `events_set`: the typed multi-event sink capability that dispatch fills;
//! - `transport`: the connection state machines (one client link, a server
//!   table of links) over one reliable, strictly ordered channel;
//! - `client_net` / `server_net`: the per-tick dispatch loops that drain
//!   pending bytes into typed application events, lifecycle events first.
//!
//! Socket I/O, clocks and the fixed-rate scheduler live in the surrounding
//! program, which feeds wire events into these machines; every decision and
//! every queue lives here. The handshake is unsecure by design: no
//! encryption and no identity verification, a documented property of the
//! system, not an accident.

pub mod client_net;
pub mod client_packets;
pub mod codec;
pub mod events_set;
pub mod server_net;
pub mod server_packets;
pub mod transport;

pub use codec::DecodeError;
