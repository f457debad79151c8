//! Coordination core for turn-based multiplayer sessions.
//!
//! A registry maps session identifiers to independent game sessions. Each
//! session keeps its participants in join order, enforces strict turn order
//! over them, stores every participant's history of submitted round updates,
//! and holds a mailbox of addressed messages per participant. The registry
//! answers one tagged request at a time and never touches the network itself:
//! transports hand it a decoded [`protocol::Operation`] and send back the
//! [`protocol::Response`] it returns.

pub mod laws;
pub mod protocol;
pub mod registry;
pub mod session;
