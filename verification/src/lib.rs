//! Serving a directory tree over HTTP from a process that keeps as little of
//! the host's trust as it can.
//!
//! The crate holds the decisions: how a request path becomes a path below the
//! web root, what is answered, where the server listens, whether the server
//! runs in a child of its own, and in which order the process gives up its
//! privileges. What touches the operating system is left to the caller, who
//! performs each action that these functions name and reports how it went.

pub mod args;
pub mod errors;
pub mod httpd;
pub mod lifecycle;
pub mod platform;
pub mod security;
pub mod server;
pub mod tor;
pub mod utils;
