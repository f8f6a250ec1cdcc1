//! Plugin packages: manifests, the store, the protocol and the supervisor.

pub mod discovery;
pub mod install;
pub mod manifest;
pub mod messages;
pub mod package;
pub mod startup;
pub mod store;
pub mod supervisor;
