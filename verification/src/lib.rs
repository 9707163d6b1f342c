//! Protocol core of a small TCP request/reply server.
//!
//! A client sends a message that holds either a text to be echoed or two
//! integers to be added; the server answers with the text or the sum. This
//! crate holds everything the server decides: how the bytes of a connection
//! are gathered into messages and read, which reply a request gets, how the
//! reply is written, and what the accept loop and each connection task do
//! next. Sockets, threads and sleeping are left to the caller, which feeds in
//! what it read and carries out the step it is handed back.
//!
//! - [`wire`]: varints, keys and scalar fields, read and written by
//!   `prost::encoding`, with what those functions are taken to do.
//! - [`message`]: the messages.
//! - [`codec`]: the byte form of the messages, as a grammar and as code that
//!   is proved to follow it.
//! - [`roundtrip`]: what is written reads back; what is cut short does not.
//! - [`client`]: one connection, from bytes read to bytes to send.
//! - [`server`]: the running flag and the steps of the two loops.
//! - [`laws`]: what holds of every request and of every run of reads.

pub mod client;
pub mod codec;
pub mod laws;
pub mod message;
pub mod roundtrip;
pub mod server;
pub mod wire;
