//! The engine of a small HTTP/1.1 server: request parsing, routing, and
//! response serialization, as functions on bytes with proved contracts.
//! Sockets and files stay with the caller, which hands over the bytes it read
//! and writes out the bytes it is given.

pub mod handlers;
pub mod headers;
pub mod http;
pub mod laws;
pub mod request;
pub mod text;
pub mod whitespace;
