//! Core of a message-relay server.
//!
//! Every decision the server takes lives here as a verified function on plain
//! values: counting open connections, the per-connection life cycle, the
//! bounded relay queues, and the coordinator that moves traffic from the
//! inbound queue to the outbound queue. Sockets, threads and locks stay with
//! the program that embeds this crate; it feeds events in and carries the
//! returned actions out.

pub mod message;
pub mod registry;
pub mod queue;
pub mod handler;
pub mod coordinator;
pub mod acceptor;
pub mod census;
