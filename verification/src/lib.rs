//! A bridge between a caller and an analysis process that speaks JSON-RPC in
//! length-prefixed frames over a pair of pipes.
//!
//! The crate frames outgoing messages, cuts incoming bytes back into frames,
//! builds the four messages of one analysis session, and picks the reply that
//! answers the final request. It performs no I/O of its own: the caller moves
//! the bytes and reports what the transport did.

pub mod decimal;
pub mod frame;
pub mod header;
pub mod lsp;
pub mod message;
pub mod session;
pub mod stream;
pub mod wire;
