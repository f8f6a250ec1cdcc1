//! Tool execution: registry, scheduling, lifecycle and observation.

pub mod batch;
pub mod config;
pub mod diagnostics;
pub mod error;
pub mod execution;
pub mod observer;
pub mod registry;
pub mod scheduler;
pub mod tool;
