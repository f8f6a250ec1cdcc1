//! The daemon: connections, sessions, configuration and state.

pub mod command;
pub mod config;
pub mod plugins;
pub mod server;
pub mod session;
pub mod state;
pub mod transcript;
