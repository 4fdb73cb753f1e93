//! Terminal renderer and query plumbing for a small search CLI.
//!
//! The heart of the crate is [`render`]: a line-by-line classifier and
//! formatter that turns a freeform text reply into terminal-ready output.

pub mod query;
pub mod render;
mod style;
