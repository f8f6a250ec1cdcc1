//! Messages between an agent and the executor, and how they are framed.

pub mod framing;
pub mod message;
pub mod model;
