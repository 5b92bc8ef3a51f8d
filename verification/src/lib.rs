//! The core of ADNL, an encrypted, checksummed, length-framed transport
//! between two peers that know each other by identifiers derived from public
//! keys.
//!
//! * [`crypto`], [`cipher`] and [`hash`]: checksums, the handshake header
//!   with its folded version field, and the stream ciphers.
//! * [`handshake`]: the packet that opens a connection.
//! * [`stream`] and [`transport`]: frames on an established connection.
//! * [`query`], [`message`] and [`subscribers`]: queries, the chain of
//!   handlers they are offered to, and the envelopes of their answers.
//! * [`server`]: the decisions of the accepting side.
//! * [`counter`], [`wait`], [`map`] and [`timeouts`]: bookkeeping shared by
//!   the tasks of a node.
//!
//! Keys and the encoding of typed objects are not part of this crate: shared
//! secrets come in as bytes, and objects are encoded and decoded by functions
//! that the caller hands in.

pub mod bytes;
pub mod cipher;
pub mod counter;
pub mod crypto;
pub mod error;
pub mod handshake;
pub mod hash;
pub mod map;
pub mod message;
pub mod peers;
pub mod query;
pub mod random;
pub mod server;
pub mod stream;
pub mod subscribers;
pub mod timeouts;
pub mod transport;
pub mod wait;
