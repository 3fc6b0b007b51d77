//! Core of a small remote-open service: a client sends one framed request
//! naming a remote host and a directory; the server remaps the host name
//! through a locally configured alias table and hands the result to an
//! external editor invocation.
//!
//! This crate holds the verified core: the request model and its wire
//! encoding, the length-prefixed envelope framing, the alias table with its
//! file format, and the resolution policy. Sockets, the file system and the
//! editor process live outside the library.

pub mod envelope;
pub mod json;
pub mod request;
pub mod server;
pub mod table;
