//! Multiplexing of RLPx subprotocols over one connection.
//!
//! A satellite stream is a stream that drives one primary subprotocol, such as `eth`, and also
//! handles further ones, its satellites, that share the connection with it. Most of those depend
//! on the primary protocol, as `snap` does on `eth`.
//!
//! The crate holds the decisions: where a message goes, what its id becomes on the way, what is
//! polled in which order, and what a poll returns. It does no input or output. Whoever drives it
//! performs the actions that it asks for and hands back what came of them.

pub mod buffer;
pub mod capability;
pub mod laws;
pub mod message;
pub mod model;
pub mod multiplexer;
pub mod p2p;
pub mod polled;
pub mod protocol;
pub mod proxy;
pub mod routing;
pub mod satellite;
