//! A small connection-oriented messaging protocol over datagrams.
//!
//! The library holds the protocol's logic: the wire codec of payloads, the
//! connection records, the server's connection table and the client's
//! session. Sockets are driven by the caller, who hands received datagrams to
//! the library and sends what the library prepares.
pub mod client;
pub mod codec;
pub mod connection;
pub mod server;

pub use client::{ClientSession, SendError};
pub use codec::{DecodeError, Payload, MAX_TEXT_LEN, PACKET_SIZE, RECEIVE_BUFFER_SIZE};
pub use connection::{ConnectionRecord, Outgoing};
pub use server::{ConnectionTable, Datagram};
