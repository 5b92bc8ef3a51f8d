//! A byte stream on top of a transport that delivers whole messages: what
//! arrives is queued, and reads take exact numbers of bytes from the front.

use crate::bytes::copy_range;
use crate::error::AdnlError;
use vstd::prelude::*;

verus! {

/// What a message transport delivers.
pub enum TransportMessage {
    /// Binary data.
    Binary(Vec<u8>),
    /// The peer closes the connection.
    Close,
    /// Anything else.
    Other,
}

/// The bytes received and not yet read.
pub struct AdnlWsBuffer {
    buffer: Vec<u8>,
}

impl View for AdnlWsBuffer {
    type V = Seq<u8>;

    closed spec fn view(&self) -> Seq<u8> {
        self.buffer@
    }
}

impl AdnlWsBuffer {
    /// An empty buffer.
    pub fn new() -> (buffer: Self)
        ensures
            buffer@ == Seq::<u8>::empty(),
    {
        AdnlWsBuffer { buffer: Vec::new() }
    }

    /// Tells whether a read of `len` bytes has to wait for another message.
    pub fn needs_more(&self, len: usize) -> (more: bool)
        ensures
            more == (self@.len() < len),
    {
        self.buffer.len() < len
    }

    /// Takes in a message: binary data is queued behind what is there;
    /// a close, or any other message, fails the connection.
    pub fn accept(&mut self, message: TransportMessage) -> (accepted: Result<(), AdnlError>)
        ensures
            match message {
                TransportMessage::Binary(data) => accepted is Ok && final(self)@ == old(self)@ + data@,
                TransportMessage::Close => accepted == Err::<(), AdnlError>(AdnlError::TransportClosed)
                    && final(self)@ == old(self)@,
                TransportMessage::Other => accepted == Err::<(), AdnlError>(AdnlError::UnexpectedTransportMessage)
                    && final(self)@ == old(self)@,
            },
    {
        match message {
            TransportMessage::Binary(data) => {
                // Append the new data to our buffer
                self.buffer.extend_from_slice(data.as_slice());
                Ok(())
            },
            TransportMessage::Close => Err(AdnlError::TransportClosed),
            TransportMessage::Other => Err(AdnlError::UnexpectedTransportMessage),
        }
    }

    /// Reads exactly `len` bytes into `buf` if that many are there, and
    /// tells whether it did.
    pub fn read(&mut self, buf: &mut Vec<u8>, len: usize) -> (done: bool)
        ensures
            done == (old(self)@.len() >= len),
            done ==> final(buf)@ == old(self)@.subrange(0, len as int) && final(self)@ == old(self)@.subrange(
                len as int,
                old(self)@.len() as int,
            ),
            !done ==> final(buf)@ == old(buf)@ && final(self)@ == old(self)@,
    {
        if self.buffer.len() < len {
            return false;
        }
        // Copy requested amount of data to the output buffer
        *buf = copy_range(self.buffer.as_slice(), 0, len);
        // Remove the read data from the buffer
        let rest = copy_range(self.buffer.as_slice(), len, self.buffer.len());
        self.buffer = rest;
        true
    }
}

} // verus!
