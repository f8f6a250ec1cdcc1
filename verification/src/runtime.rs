//! Running commands: what is asked for, and what is done to the process.

pub mod native;
pub mod shell;
