//! Agent tool execution: protocol, scheduling, plugins, built-in tools and
//! session rules, each stated as a contract and proved.

pub mod cli;
pub mod client;
pub mod daemon;
pub mod engine;
pub mod json;
pub mod mcp;
pub mod path;
pub mod plugin;
pub mod protocol;
pub mod runtime;
pub mod text;
pub mod text_map;
pub mod tools;
