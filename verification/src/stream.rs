//! Frames on an established connection: a length, a nonce, the payload and
//! a checksum, all under one of two directional ciphers.

use crate::bytes::{bytes_equal, copy_range};
use crate::cipher::{xor_keystream, xor_keystream_concat, xor_keystream_involution, StreamCipher};
use crate::crypto::{clear, AdnlCryptoUtils};
use crate::error::AdnlError;
use crate::hash::{sha256, sha256_digest};
use crate::random::random_bytes;
use vstd::prelude::*;
use vstd::slice::slice_subrange;

verus! {

/// The four little-endian bytes of a frame's length.
pub open spec fn length_field(total: int) -> Seq<u8> {
    seq![
        (total % 256) as u8,
        ((total / 256) % 256) as u8,
        ((total / 65536) % 256) as u8,
        ((total / 16777216) % 256) as u8,
    ]
}

/// The length that four little-endian bytes stand for.
pub open spec fn decode_length(bytes: Seq<u8>) -> int {
    bytes[0] + 256 * bytes[1] + 65536 * bytes[2] + 16777216 * bytes[3]
}

/// True when a payload of `len` bytes can be framed: its length field fits
/// 32 bits and the frame fits in memory.
pub open spec fn frame_fits(len: nat) -> bool {
    len + 64 <= u32::MAX && len + 68 <= usize::MAX
}

/// What a frame's checksum covers: the nonce, then the payload.
pub open spec fn frame_content(payload: Seq<u8>, nonce: Seq<u8>) -> Seq<u8> {
    nonce + payload
}

/// What follows the length in a frame before encryption: the nonce, the
/// payload and the checksum of both.
pub open spec fn frame_body(payload: Seq<u8>, nonce: Seq<u8>) -> Seq<u8> {
    frame_content(payload, nonce) + sha256(frame_content(payload, nonce))@
}

/// A frame before encryption.
pub open spec fn frame_plain(payload: Seq<u8>, nonce: Seq<u8>) -> Seq<u8> {
    length_field(payload.len() + 64 as int) + frame_body(payload, nonce)
}

/// A frame as transmitted by a cipher that stands at keystream byte `pos`.
pub open spec fn sealed_frame(key: Seq<u8>, iv: Seq<u8>, pos: nat, payload: Seq<u8>, nonce: Seq<u8>) -> Seq<u8> {
    xor_keystream(frame_plain(payload, nonce), key, iv, pos)
}

/// True when a decrypted frame body ends in the checksum of what is before it.
pub open spec fn body_checks(plain: Seq<u8>) -> bool {
    plain.len() >= 64 && sha256(plain.subrange(0, plain.len() - 32))@ == plain.subrange(
        plain.len() - 32,
        plain.len() as int,
    )
}

/// The payload of a decrypted frame body: what stands between the nonce and
/// the checksum.
pub open spec fn body_payload(plain: Seq<u8>) -> Seq<u8> {
    plain.subrange(32, plain.len() - 32)
}

/// What reading one frame from the front of `stream` gives, for a cipher at
/// keystream byte `pos`: the payload and the number of bytes taken, or the
/// failure.
pub open spec fn receive_spec(key: Seq<u8>, iv: Seq<u8>, pos: nat, stream: Seq<u8>) -> Result<
    (Seq<u8>, int),
    AdnlError,
> {
    if stream.len() < 4 {
        Err(AdnlError::TransportClosed)
    } else if pos + 4 > u64::MAX {
        Err(AdnlError::KeystreamExhausted)
    } else {
        let length = decode_length(xor_keystream(stream.subrange(0, 4), key, iv, pos));
        let plain = xor_keystream(stream.subrange(4, 4 + length), key, iv, pos + 4);
        if length < 64 {
            Err(AdnlError::FrameTooSmall { len: length as usize })
        } else if stream.len() < 4 + length {
            Err(AdnlError::TransportClosed)
        } else if pos + 4 + length > u64::MAX {
            Err(AdnlError::KeystreamExhausted)
        } else if !body_checks(plain) {
            Err(AdnlError::BadFrameChecksum)
        } else {
            Ok((body_payload(plain), 4 + length))
        }
    }
}

/// ADNL stream cryptographic context
pub struct AdnlStreamCrypto {
    cipher_recv: StreamCipher,
    cipher_send: StreamCipher,
}

impl AdnlStreamCrypto {
    /// The cipher that incoming frames are under.
    pub closed spec fn cipher_recv(&self) -> StreamCipher {
        self.cipher_recv
    }

    /// The cipher that outgoing frames are put under.
    pub closed spec fn cipher_send(&self) -> StreamCipher {
        self.cipher_send
    }

    /// The context of the side that opened the connection.
    pub fn with_nonce_as_client(nonce: &[u8; 160]) -> (crypto: Self)
        ensures
            crypto.cipher_recv().key() == nonce@.subrange(0, 32),
            crypto.cipher_recv().iv() == nonce@.subrange(64, 80),
            crypto.cipher_recv().pos() == 0,
            crypto.cipher_send().key() == nonce@.subrange(32, 64),
            crypto.cipher_send().iv() == nonce@.subrange(80, 96),
            crypto.cipher_send().pos() == 0,
    {
        /* Do not clear nonce because it will be encrypted inplace afterwards */
        Self {
            cipher_recv: AdnlCryptoUtils::build_cipher_unsecure(nonce, 0..32, 64..80),
            cipher_send: AdnlCryptoUtils::build_cipher_unsecure(nonce, 32..64, 80..96),
        }
    }

    /// The context of the side that accepted the connection.  The nonce is
    /// cleared.
    pub fn with_nonce_as_server(nonce: &mut [u8; 160]) -> (crypto: Self)
        ensures
            crypto.cipher_recv().key() == old(nonce)@.subrange(32, 64),
            crypto.cipher_recv().iv() == old(nonce)@.subrange(80, 96),
            crypto.cipher_recv().pos() == 0,
            crypto.cipher_send().key() == old(nonce)@.subrange(0, 32),
            crypto.cipher_send().iv() == old(nonce)@.subrange(64, 80),
            crypto.cipher_send().pos() == 0,
            forall|i: int| 0 <= i < 160 ==> #[trigger] final(nonce)@[i] == 0,
    {
        /* Clear nonce */
        let ret = Self {
            cipher_recv: AdnlCryptoUtils::build_cipher_unsecure(nonce, 32..64, 80..96),
            cipher_send: AdnlCryptoUtils::build_cipher_unsecure(nonce, 0..32, 64..80),
        };
        clear(nonce);
        ret
    }

    /// Turns the payload in `buf` into a frame under a fresh random nonce.
    pub fn send(&mut self, buf: &mut Vec<u8>) -> (sent: Result<(), AdnlError>)
        ensures
            final(self).cipher_recv() == old(self).cipher_recv(),
            final(self).cipher_send().key() == old(self).cipher_send().key(),
            final(self).cipher_send().iv() == old(self).cipher_send().iv(),
            match sent {
                Ok(()) => {
                    &&& frame_fits(old(buf)@.len())
                    &&& old(self).cipher_send().has_room(old(buf)@.len() + 68)
                    &&& final(self).cipher_send().pos() == old(self).cipher_send().pos() + old(buf)@.len() + 68
                    &&& exists|nonce: Seq<u8>|
                        nonce.len() == 32 && final(buf)@ == #[trigger] sealed_frame(
                            old(self).cipher_send().key(),
                            old(self).cipher_send().iv(),
                            old(self).cipher_send().pos(),
                            old(buf)@,
                            nonce,
                        )
                },
                Err(e) => {
                    &&& final(buf)@ == old(buf)@
                    &&& final(self).cipher_send().pos() == old(self).cipher_send().pos()
                    &&& if !frame_fits(old(buf)@.len()) {
                        e == (AdnlError::FrameTooLarge { len: old(buf)@.len() as usize })
                    } else {
                        !old(self).cipher_send().has_room(old(buf)@.len() + 68) && e
                            == AdnlError::KeystreamExhausted
                    }
                },
            },
    {
        let nonce = random_bytes();
        let sent = self.send_with_nonce(buf, &nonce);
        proof {
            if sent is Ok {
                assert(nonce@.len() == 32);
                assert(buf@ == sealed_frame(
                    old(self).cipher_send().key(),
                    old(self).cipher_send().iv(),
                    old(self).cipher_send().pos(),
                    old(buf)@,
                    nonce@,
                ));
            }
        }
        sent
    }

    /// Turns the payload in `buf` into a frame under the given nonce: length,
    /// nonce, payload and checksum, encrypted as a whole.
    pub fn send_with_nonce(&mut self, buf: &mut Vec<u8>, nonce: &[u8; 32]) -> (sent: Result<(), AdnlError>)
        ensures
            final(self).cipher_recv() == old(self).cipher_recv(),
            final(self).cipher_send().key() == old(self).cipher_send().key(),
            final(self).cipher_send().iv() == old(self).cipher_send().iv(),
            match sent {
                Ok(()) => {
                    &&& frame_fits(old(buf)@.len())
                    &&& old(self).cipher_send().has_room(old(buf)@.len() + 68)
                    &&& final(self).cipher_send().pos() == old(self).cipher_send().pos() + old(buf)@.len() + 68
                    &&& final(buf)@ == sealed_frame(
                        old(self).cipher_send().key(),
                        old(self).cipher_send().iv(),
                        old(self).cipher_send().pos(),
                        old(buf)@,
                        nonce@,
                    )
                },
                Err(e) => {
                    &&& final(buf)@ == old(buf)@
                    &&& final(self).cipher_send().pos() == old(self).cipher_send().pos()
                    &&& if !frame_fits(old(buf)@.len()) {
                        e == (AdnlError::FrameTooLarge { len: old(buf)@.len() as usize })
                    } else {
                        !old(self).cipher_send().has_room(old(buf)@.len() + 68) && e
                            == AdnlError::KeystreamExhausted
                    }
                },
            },
    {
        let len = buf.len();
        if len > 0xffff_ffff - 64 || len > usize::MAX - 68 {
            return Err(AdnlError::FrameTooLarge { len });
        }
        if !self.cipher_send.can_apply(len + 68) {
            return Err(AdnlError::KeystreamExhausted);
        }
        let ghost payload = buf@;
        let total: u32 = (len + 64) as u32;
        let mut frame: Vec<u8> = Vec::with_capacity(len + 68);
        frame.push((total % 256) as u8);
        frame.push(((total / 256) % 256) as u8);
        frame.push(((total / 65536) % 256) as u8);
        frame.push(((total / 16777216) % 256) as u8);
        assert(frame@ =~= length_field(payload.len() + 64 as int));
        let mut content: Vec<u8> = Vec::with_capacity(len + 32);
        content.extend_from_slice(nonce.as_slice());
        content.extend_from_slice(buf.as_slice());
        assert(content@ =~= frame_content(payload, nonce@));
        let checksum = sha256_digest(content.as_slice());
        frame.extend_from_slice(content.as_slice());
        frame.extend_from_slice(checksum.as_slice());
        assert(frame@ =~= frame_plain(payload, nonce@));
        let n = frame.len();
        let ghost plain = frame@;
        self.cipher_send.apply_keystream(&mut frame, 0, n);
        assert(plain.subrange(0, n as int) =~= plain);
        assert(frame@ =~= old(self).cipher_send().transform(plain));
        *buf = frame;
        Ok(())
    }

    /// Decrypts the four bytes that start a frame and returns the number of
    /// bytes that follow them.
    pub fn receive_length(&mut self, head: &[u8; 4]) -> (length: Result<usize, AdnlError>)
        ensures
            final(self).cipher_send() == old(self).cipher_send(),
            final(self).cipher_recv().key() == old(self).cipher_recv().key(),
            final(self).cipher_recv().iv() == old(self).cipher_recv().iv(),
            match length {
                Ok(n) => {
                    &&& old(self).cipher_recv().has_room(4)
                    &&& n == decode_length(old(self).cipher_recv().transform(head@))
                    &&& n >= 64
                    &&& final(self).cipher_recv().pos() == old(self).cipher_recv().pos() + 4
                },
                Err(e) => if !old(self).cipher_recv().has_room(4) {
                    e == AdnlError::KeystreamExhausted && final(self).cipher_recv().pos() == old(
                        self,
                    ).cipher_recv().pos()
                } else {
                    &&& decode_length(old(self).cipher_recv().transform(head@)) < 64
                    &&& e == (AdnlError::FrameTooSmall {
                        len: decode_length(old(self).cipher_recv().transform(head@)) as usize,
                    })
                    &&& final(self).cipher_recv().pos() == old(self).cipher_recv().pos() + 4
                },
            },
    {
        if !self.cipher_recv.can_apply(4) {
            return Err(AdnlError::KeystreamExhausted);
        }
        let mut bytes: Vec<u8> = Vec::with_capacity(4);
        bytes.extend_from_slice(head.as_slice());
        self.cipher_recv.apply_keystream(&mut bytes, 0, 4);
        assert(head@.subrange(0, 4) =~= head@);
        assert(bytes@ =~= old(self).cipher_recv().transform(head@));
        let length: u32 = (bytes[0] as u32) + 256 * (bytes[1] as u32) + 65536 * (bytes[2] as u32) + 16777216 * (
        bytes[3] as u32);
        if length < 64 {
            return Err(AdnlError::FrameTooSmall { len: length as usize });
        }
        Ok(length as usize)
    }

    /// Decrypts what follows the length of a frame, verifies its checksum
    /// and leaves the payload in `buf`.
    pub fn receive_body(&mut self, buf: &mut Vec<u8>) -> (received: Result<(), AdnlError>)
        ensures
            final(self).cipher_send() == old(self).cipher_send(),
            final(self).cipher_recv().key() == old(self).cipher_recv().key(),
            final(self).cipher_recv().iv() == old(self).cipher_recv().iv(),
            match received {
                Ok(()) => {
                    &&& old(self).cipher_recv().has_room(old(buf)@.len())
                    &&& body_checks(old(self).cipher_recv().transform(old(buf)@))
                    &&& final(buf)@ == body_payload(old(self).cipher_recv().transform(old(buf)@))
                    &&& final(self).cipher_recv().pos() == old(self).cipher_recv().pos() + old(buf)@.len()
                },
                Err(e) => if old(buf)@.len() < 64 {
                    &&& e == (AdnlError::FrameTooSmall { len: old(buf)@.len() as usize })
                    &&& final(buf)@ == old(buf)@
                    &&& final(self).cipher_recv().pos() == old(self).cipher_recv().pos()
                } else if !old(self).cipher_recv().has_room(old(buf)@.len()) {
                    &&& e == AdnlError::KeystreamExhausted
                    &&& final(buf)@ == old(buf)@
                    &&& final(self).cipher_recv().pos() == old(self).cipher_recv().pos()
                } else {
                    &&& e == AdnlError::BadFrameChecksum
                    &&& !body_checks(old(self).cipher_recv().transform(old(buf)@))
                    &&& final(buf)@ == old(self).cipher_recv().transform(old(buf)@)
                    &&& final(self).cipher_recv().pos() == old(self).cipher_recv().pos() + old(buf)@.len()
                },
            },
    {
        let length = buf.len();
        if length < 64 {
            return Err(AdnlError::FrameTooSmall { len: length });
        }
        if !self.cipher_recv.can_apply(length) {
            return Err(AdnlError::KeystreamExhausted);
        }
        let ghost sealed = buf@;
        self.cipher_recv.apply_keystream(buf, 0, length);
        assert(sealed.subrange(0, length as int) =~= sealed);
        assert(buf@ =~= old(self).cipher_recv().transform(sealed));
        let actual = sha256_digest(slice_subrange(buf.as_slice(), 0, length - 32));
        if !bytes_equal(actual.as_slice(), slice_subrange(buf.as_slice(), length - 32, length)) {
            return Err(AdnlError::BadFrameChecksum);
        }
        let payload = copy_range(buf.as_slice(), 32, length - 32);
        *buf = payload;
        Ok(())
    }

    /// Reads one frame from the front of `stream`, leaves its payload in
    /// `buf` and returns the number of bytes taken from `stream`.
    pub fn receive(&mut self, buf: &mut Vec<u8>, stream: &[u8]) -> (received: Result<usize, AdnlError>)
        ensures
            final(self).cipher_send() == old(self).cipher_send(),
            final(self).cipher_recv().key() == old(self).cipher_recv().key(),
            final(self).cipher_recv().iv() == old(self).cipher_recv().iv(),
            match received {
                Ok(taken) => receive_spec(
                    old(self).cipher_recv().key(),
                    old(self).cipher_recv().iv(),
                    old(self).cipher_recv().pos(),
                    stream@,
                ) == Ok::<(Seq<u8>, int), AdnlError>((final(buf)@, taken as int)) && final(self).cipher_recv().pos()
                    == old(self).cipher_recv().pos() + taken,
                Err(e) => receive_spec(
                    old(self).cipher_recv().key(),
                    old(self).cipher_recv().iv(),
                    old(self).cipher_recv().pos(),
                    stream@,
                ) == Err::<(Seq<u8>, int), AdnlError>(e),
            },
    {
        if stream.len() < 4 {
            return Err(AdnlError::TransportClosed);
        }
        let head: [u8; 4] = [stream[0], stream[1], stream[2], stream[3]];
        assert(head@ =~= stream@.subrange(0, 4));
        let length = self.receive_length(&head)?;
        if stream.len() - 4 < length {
            return Err(AdnlError::TransportClosed);
        }
        *buf = copy_range(stream, 4, 4 + length);
        match self.receive_body(buf) {
            Ok(()) => Ok(4 + length),
            Err(e) => Err(e),
        }
    }
}

/// A receiver whose cipher matches the sender's gets back exactly the payload
/// that was framed, whatever the payload and the nonce, and takes the whole
/// frame.
pub proof fn receive_recovers_sent(key: Seq<u8>, iv: Seq<u8>, pos: nat, payload: Seq<u8>, nonce: Seq<u8>)
    requires
        nonce.len() == 32,
        payload.len() + 64 <= u32::MAX,
        pos + payload.len() + 68 <= u64::MAX,
    ensures
        receive_spec(key, iv, pos, sealed_frame(key, iv, pos, payload, nonce)) == Ok::<(Seq<u8>, int), AdnlError>(
            (payload, payload.len() + 68 as int),
        ),
{
    let total = payload.len() + 64 as int;
    let head = length_field(total);
    let body = frame_body(payload, nonce);
    let frame = sealed_frame(key, iv, pos, payload, nonce);
    xor_keystream_concat(head, body, key, iv, pos);
    let sealed_head = xor_keystream(head, key, iv, pos);
    let sealed_body = xor_keystream(body, key, iv, pos + 4);
    assert(frame == sealed_head + sealed_body);
    assert(frame.subrange(0, 4) =~= sealed_head);
    xor_keystream_involution(head, key, iv, pos);
    lemma_length_roundtrip(total);
    assert(frame.subrange(4, 4 + total) =~= sealed_body);
    xor_keystream_involution(body, key, iv, pos + 4);
    let content = frame_content(payload, nonce);
    assert(body.subrange(0, body.len() - 32) =~= content);
    assert(body.subrange(body.len() - 32, body.len() as int) =~= sha256(content)@);
    assert(body_payload(body) =~= payload);
}

/// A frame body altered in one byte is rejected for its checksum, unless the
/// byte lies in the nonce or the payload and the altered content has the same
/// SHA-256 digest as the content that was sent.
pub proof fn altered_body_is_rejected(
    key: Seq<u8>,
    iv: Seq<u8>,
    pos: nat,
    payload: Seq<u8>,
    nonce: Seq<u8>,
    at: int,
    byte: u8,
)
    requires
        nonce.len() == 32,
        0 <= at < payload.len() + 64,
        byte != xor_keystream(frame_body(payload, nonce), key, iv, pos)[at],
        at < payload.len() + 32 ==> sha256(
            xor_keystream(xor_keystream(frame_body(payload, nonce), key, iv, pos).update(at, byte), key, iv, pos).subrange(
                0,
                payload.len() + 32 as int,
            ),
        ) != sha256(frame_content(payload, nonce)),
    ensures
        !body_checks(xor_keystream(xor_keystream(frame_body(payload, nonce), key, iv, pos).update(at, byte), key, iv, pos)),
{
    let body = frame_body(payload, nonce);
    let content = frame_content(payload, nonce);
    let sealed = xor_keystream(body, key, iv, pos);
    let altered = sealed.update(at, byte);
    let plain = xor_keystream(altered, key, iv, pos);
    xor_keystream_involution(body, key, iv, pos);
    let n = body.len() as int;
    assert forall|i: int| 0 <= i < n && i != at implies plain[i] == body[i] by {
        assert(xor_keystream(sealed, key, iv, pos)[i] == body[i]);
    }
    assert(plain[at] != body[at]) by {
        let k = crate::cipher::aes256_ctr_keystream(key, iv, (pos + at) as nat);
        let a = byte;
        let b = sealed[at];
        assert(a != b ==> (a ^ k) != (b ^ k)) by (bit_vector);
        assert(xor_keystream(sealed, key, iv, pos)[at] == body[at]);
    }
    if at >= payload.len() + 32 {
        assert(plain.subrange(0, n - 32) =~= content);
        assert(body.subrange(n - 32, n) =~= sha256(content)@);
        assert(plain.subrange(n - 32, n)[at - (n - 32)] == plain[at]);
        assert(body.subrange(n - 32, n)[at - (n - 32)] == body[at]);
    } else {
        assert(plain.subrange(n - 32, n) =~= sha256(content)@);
        if body_checks(plain) {
            let other = sha256(plain.subrange(0, n - 32));
            assert(other@ == sha256(content)@);
            assert(other =~= sha256(content));
        }
    }
}

/// What the receiver of `frame` computes the checksum over: the frame
/// without its length, decrypted, up to its last 32 bytes.
pub open spec fn received_content(key: Seq<u8>, iv: Seq<u8>, pos: nat, frame: Seq<u8>) -> Seq<u8> {
    xor_keystream(frame.subrange(4, frame.len() as int), key, iv, pos + 4).subrange(0, frame.len() - 36)
}

/// A transmitted frame of which one byte behind the length field was changed
/// is never received: reading it fails for its checksum.  Where the byte
/// lies in the nonce or the payload this holds unless the changed content
/// has the same SHA-256 digest as the content that was sent.
pub proof fn altered_frame_is_rejected(
    key: Seq<u8>,
    iv: Seq<u8>,
    pos: nat,
    payload: Seq<u8>,
    nonce: Seq<u8>,
    at: int,
    byte: u8,
)
    requires
        nonce.len() == 32,
        payload.len() + 64 <= u32::MAX,
        pos + payload.len() + 68 <= u64::MAX,
        4 <= at < payload.len() + 68,
        byte != sealed_frame(key, iv, pos, payload, nonce)[at],
        at < payload.len() + 36 ==> sha256(
            received_content(key, iv, pos, sealed_frame(key, iv, pos, payload, nonce).update(at, byte)),
        ) != sha256(frame_content(payload, nonce)),
    ensures
        receive_spec(key, iv, pos, sealed_frame(key, iv, pos, payload, nonce).update(at, byte)) == Err::<
            (Seq<u8>, int),
            AdnlError,
        >(AdnlError::BadFrameChecksum),
{
    let total = payload.len() + 64 as int;
    let head = length_field(total);
    let body = frame_body(payload, nonce);
    let frame = sealed_frame(key, iv, pos, payload, nonce);
    let altered = frame.update(at, byte);
    xor_keystream_concat(head, body, key, iv, pos);
    let sealed_head = xor_keystream(head, key, iv, pos);
    let sealed_body = xor_keystream(body, key, iv, pos + 4);
    assert(frame == sealed_head + sealed_body);
    assert(altered.subrange(0, 4) =~= sealed_head);
    xor_keystream_involution(head, key, iv, pos);
    lemma_length_roundtrip(total);
    assert(altered.subrange(4, 4 + total) =~= sealed_body.update(at - 4, byte));
    assert(altered.subrange(4, altered.len() as int) =~= sealed_body.update(at - 4, byte));
    assert(sealed_body[at - 4] == frame[at]);
    altered_body_is_rejected(key, iv, pos + 4, payload, nonce, at - 4, byte);
}

/// The length that the first four bytes of `stream` announce to a receiver
/// whose cipher stands at keystream byte `pos`.
pub open spec fn announced_length(key: Seq<u8>, iv: Seq<u8>, pos: nat, stream: Seq<u8>) -> int {
    decode_length(xor_keystream(stream.subrange(0, 4), key, iv, pos))
}

/// A transmitted frame, with nothing behind it, of which one byte of the
/// length field was changed is never received: the length announced is
/// below 64, or more than is there, or it selects fewer bytes than were
/// sent, which then fail their checksum.  The last holds unless the bytes
/// selected happen to end in the SHA-256 digest of what stands before them.
pub proof fn altered_length_is_rejected(
    key: Seq<u8>,
    iv: Seq<u8>,
    pos: nat,
    payload: Seq<u8>,
    nonce: Seq<u8>,
    at: int,
    byte: u8,
)
    requires
        nonce.len() == 32,
        payload.len() + 64 <= u32::MAX,
        pos + payload.len() + 68 <= u64::MAX,
        0 <= at < 4,
        byte != sealed_frame(key, iv, pos, payload, nonce)[at],
        64 <= announced_length(key, iv, pos, sealed_frame(key, iv, pos, payload, nonce).update(at, byte))
            < payload.len() + 64 ==> !body_checks(
            xor_keystream(
                sealed_frame(key, iv, pos, payload, nonce).subrange(
                    4,
                    4 + announced_length(key, iv, pos, sealed_frame(key, iv, pos, payload, nonce).update(at, byte)),
                ),
                key,
                iv,
                pos + 4,
            ),
        ),
    ensures
        receive_spec(key, iv, pos, sealed_frame(key, iv, pos, payload, nonce).update(at, byte)) is Err,
{
    let total = payload.len() + 64 as int;
    let head = length_field(total);
    let body = frame_body(payload, nonce);
    let frame = sealed_frame(key, iv, pos, payload, nonce);
    let altered = frame.update(at, byte);
    xor_keystream_concat(head, body, key, iv, pos);
    let sealed_head = xor_keystream(head, key, iv, pos);
    let sealed_body = xor_keystream(body, key, iv, pos + 4);
    assert(frame == sealed_head + sealed_body);
    assert(sealed_head[at] == frame[at]);
    assert(altered.subrange(0, 4) =~= sealed_head.update(at, byte));
    altered_length_is_seen(key, iv, pos, total, at, byte);
    let announced = announced_length(key, iv, pos, altered);
    assert(announced != total);
    assert(altered.len() == 4 + total);
    if 64 <= announced < total {
        assert(altered.subrange(4, 4 + announced) =~= frame.subrange(4, 4 + announced));
    }
}

/// A frame whose length field is altered announces another length than the
/// one it was sent with.
pub proof fn altered_length_is_seen(key: Seq<u8>, iv: Seq<u8>, pos: nat, total: int, at: int, byte: u8)
    requires
        0 <= total <= u32::MAX,
        0 <= at < 4,
        byte != xor_keystream(length_field(total), key, iv, pos)[at],
    ensures
        decode_length(xor_keystream(xor_keystream(length_field(total), key, iv, pos).update(at, byte), key, iv, pos))
            != total,
{
    let head = length_field(total);
    let sealed = xor_keystream(head, key, iv, pos);
    let plain = xor_keystream(sealed.update(at, byte), key, iv, pos);
    xor_keystream_involution(head, key, iv, pos);
    assert forall|i: int| 0 <= i < 4 && i != at implies plain[i] == head[i] by {
        assert(xor_keystream(sealed, key, iv, pos)[i] == head[i]);
    }
    assert(plain[at] != head[at]) by {
        let k = crate::cipher::aes256_ctr_keystream(key, iv, (pos + at) as nat);
        let a = byte;
        let b = sealed[at];
        assert(a != b ==> (a ^ k) != (b ^ k)) by (bit_vector);
        assert(xor_keystream(sealed, key, iv, pos)[at] == head[at]);
    }
    lemma_length_roundtrip(total);
}

proof fn lemma_length_roundtrip(total: int)
    requires
        0 <= total <= u32::MAX,
    ensures
        decode_length(length_field(total)) == total,
{
    let q1 = total / 256;
    let q2 = q1 / 256;
    let q3 = q2 / 256;
    vstd::arithmetic::div_mod::lemma_div_denominator(total, 256, 256);
    vstd::arithmetic::div_mod::lemma_div_denominator(total, 65536, 256);
    assert(q2 == total / 65536);
    assert(q3 == total / 16777216) by {
        assert((total / 65536) / 256 == total / (65536int * 256int));
    }
    assert(0 <= q3 < 256);
    assert(q3 % 256 == q3);
    assert(total == 256 * q1 + total % 256);
    assert(q1 == 256 * q2 + q1 % 256);
    assert(q2 == 256 * q3 + q2 % 256);
    let bytes = length_field(total);
    assert(bytes[0] == total % 256);
    assert(bytes[1] == q1 % 256);
    assert(bytes[2] == q2 % 256);
    assert(bytes[3] == q3);
}

} // verus!
