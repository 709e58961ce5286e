//! Matchmaking and relay logic for a two-peer lobby.
//!
//! Two remote peers that present the same 32-bit identifier are paired,
//! each is checked for liveness, each is told its role, and from then on
//! single payload bytes are forwarded between them in strict alternation.
//!
//! The crate holds the decisions only. Sockets, timers and threads belong to
//! the caller: every component here is either a pure function or a state
//! machine that names the next I/O operation and is told how it ended.
//!
//! - [`wire`]: the constants of the protocol and the framing of identifiers.
//! - [`reader`]: collecting an identifier from a stream, piece by piece.
//! - [`table`]: the pairing table.
//! - [`probe`]: the liveness probe of one connection.
//! - [`acceptor`]: what becomes of each connection, from arrival to session.
//! - [`service`]: what the acceptor's rules add up to over many arrivals.
//! - [`session`]: the handshake and the relay.
//! - [`transcript`]: what a session reads and delivers over a whole run.
//! - [`peer`]: the client's side of the protocol.
//! - [`error`]: the failures and what each one costs.

pub mod acceptor;
pub mod error;
pub mod peer;
pub mod probe;
pub mod reader;
pub mod service;
pub mod session;
pub mod table;
pub mod transcript;
pub mod wire;
