//! The agent's side of the protocol.

pub mod api;
pub mod connection;
