//! Failures that end a connection.

use vstd::prelude::*;

verus! {

/// What can go wrong while a packet is parsed, a frame is built or read, or a
/// message is dispatched.
#[derive(Debug, PartialEq, Eq)]
pub enum AdnlError {
    /// A handshake packet is shorter than its header and expected payload.
    BadHandshakeLength { len: usize },
    /// The checksum of a handshake packet does not match its payload.
    BadHandshakeChecksum { version: Option<u16> },
    /// A frame announces fewer than 64 bytes.
    FrameTooSmall { len: usize },
    /// The checksum of a frame does not match its nonce and payload.
    BadFrameChecksum,
    /// The payload does not fit the 32-bit length field of a frame.
    FrameTooLarge { len: usize },
    /// The cipher has no keystream left for this many bytes.
    KeystreamExhausted,
    /// The first message of a connection is too short to name its sender.
    InitTooShort { len: usize },
    /// The sender of the first message is not on the allow-list.
    UnknownClient,
    /// A message that is no query, or a query that no handler consumed.
    UnexpectedMessage,
    /// A message transport delivered something other than binary data.
    UnexpectedTransportMessage,
    /// The peer closed the transport.
    TransportClosed,
    /// An answer does not have the type that the query calls for.
    UnsupportedResponse,
    /// A handler failed; the text is its own.
    Handler { reason: String },
}

} // verus!
