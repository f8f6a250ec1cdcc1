//! Built-in tools.

pub mod builtin;
pub mod file_edit;
pub mod file_read;
pub mod file_write;
pub mod glob;
pub mod grep;
pub mod html;
pub mod html_laws;
pub mod shared;
pub mod web_fetch;
