//! The handshake packet: built by the initiator, opened by the responder.

use crate::bytes::{bytes_equal, copy_into, copy_range};
use crate::cipher::{xor_keystream, xor_keystream_involution, StreamCipher};
use crate::crypto::{
    checksum, clear, decode_version_inverts_encode, decode_version_spec, header, header_prefix, secure_iv,
    secure_key, AdnlCryptoUtils,
};
use crate::error::AdnlError;
use vstd::prelude::*;
use vstd::slice::slice_subrange;

verus! {

/// `data` under the cipher of a packet with shared secret `secret` and
/// checksum `sum`.
pub open spec fn packet_cipher(secret: Seq<u8>, sum: Seq<u8>, data: Seq<u8>) -> Seq<u8> {
    xor_keystream(data, secure_key(secret, sum), secure_iv(secret, sum), 0)
}

/// The packet that carries `payload` to the peer `id` from the holder of the
/// public key `key`, who shares `secret` with that peer.
pub open spec fn handshake_packet(
    id: Seq<u8>,
    key: Seq<u8>,
    secret: Seq<u8>,
    version: Option<u16>,
    payload: Seq<u8>,
) -> Seq<u8> {
    let sum = checksum(version, payload);
    header(id, Some(key), version, sum) + packet_cipher(secret, sum, payload)
}

/// Where a payload that starts at `start` ends: after the expected length
/// where one is given, else at the end of the buffer.
pub open spec fn payload_end(buf_len: int, start: int, len: Option<usize>) -> int {
    match len {
        Some(l) => start + l,
        None => buf_len,
    }
}

/// The fewest bytes a packet with the expected payload length can have.
pub open spec fn min_packet_len(len: Option<usize>) -> int {
    match len {
        Some(l) => 96 + l,
        None => 96,
    }
}

/// The payload `buf[start..end]` as decrypted with the checksum that stands
/// in the 32 bytes before it.
pub open spec fn opened(buf: Seq<u8>, secret: Seq<u8>, start: int, end: int) -> Seq<u8> {
    packet_cipher(secret, buf.subrange(start - 32, start), buf.subrange(start, end))
}

/// True when the decrypted payload has the checksum that the header holds.
pub open spec fn checks(buf: Seq<u8>, secret: Seq<u8>, start: int, end: int, version: Option<u16>) -> bool {
    checksum(version, opened(buf, secret, start, end)) == buf.subrange(start - 32, start)
}

/// True when a buffer is read as a versioned packet first: versions are
/// accepted, and the buffer holds the 100-byte header of such a packet with
/// the expected payload behind it.
pub open spec fn tries_versioned(buf_len: int, len: Option<usize>, accept_versioning: bool) -> bool {
    &&& accept_versioning
    &&& buf_len >= 100
    &&& len matches Some(l) ==> buf_len >= 100 + l
}

/// The version that the packet seems to carry, where it is read as a
/// versioned packet.
pub open spec fn version_candidate(buf: Seq<u8>, len: Option<usize>, accept_versioning: bool) -> Option<u16> {
    if tries_versioned(buf.len() as int, len, accept_versioning) {
        decode_version_spec(buf.subrange(64, 68), buf.subrange(0, 64), buf.subrange(68, 100))
    } else {
        None
    }
}

/// True when the packet validates as a versioned one.
pub open spec fn opens_versioned(buf: Seq<u8>, secret: Seq<u8>, len: Option<usize>, accept_versioning: bool) -> bool {
    version_candidate(buf, len, accept_versioning) is Some && checks(
        buf,
        secret,
        100,
        payload_end(buf.len() as int, 100, len),
        version_candidate(buf, len, accept_versioning),
    )
}

/// What is left in the buffer of a packet that validates with its payload
/// at `start`: the payload, decrypted, and what follows it.
pub open spec fn remainder(buf: Seq<u8>, secret: Seq<u8>, start: int, len: Option<usize>) -> Seq<u8> {
    let end = payload_end(buf.len() as int, start, len);
    opened(buf, secret, start, end) + buf.subrange(end, buf.len() as int)
}

/// What opening a packet gives: the negotiated version with what is left in
/// the buffer, or the failure.  A packet is read as a versioned one first,
/// with its payload behind a 100-byte header, and as an unversioned one,
/// with its payload behind a 96-byte header, if that does not validate.
pub open spec fn parse_packet_spec(buf: Seq<u8>, secret: Seq<u8>, len: Option<usize>, accept_versioning: bool) -> Result<
    (Option<u16>, Seq<u8>),
    AdnlError,
> {
    if buf.len() < min_packet_len(len) {
        Err(AdnlError::BadHandshakeLength { len: buf.len() as usize })
    } else if opens_versioned(buf, secret, len, accept_versioning) {
        Ok((version_candidate(buf, len, accept_versioning), remainder(buf, secret, 100, len)))
    } else if checks(buf, secret, 96, payload_end(buf.len() as int, 96, len), None) {
        Ok((None, remainder(buf, secret, 96, len)))
    } else {
        Err(AdnlError::BadHandshakeChecksum { version: None })
    }
}

/// True when `index` is the first of `ids` that the packet is addressed to.
pub open spec fn first_match(ids: Seq<[u8; 32]>, target: Seq<u8>, index: int) -> bool {
    &&& 0 <= index < ids.len()
    &&& ids[index]@ == target
    &&& forall|j: int| 0 <= j < index ==> (#[trigger] ids[j])@ != target
}

/// A responder that is handed the packet an initiator built, and the same
/// shared secret, recovers the version and the payload, whether it is told
/// the payload's length or not.  A versioned packet asks for a responder
/// that accepts versions; an unversioned one is read as such unless it also
/// happens to validate as a versioned packet.
pub proof fn parse_recovers_built(
    id: Seq<u8>,
    key: Seq<u8>,
    secret: Seq<u8>,
    version: Option<u16>,
    payload: Seq<u8>,
    len: Option<usize>,
    accept_versioning: bool,
)
    requires
        id.len() == 32,
        key.len() == 32,
        handshake_packet(id, key, secret, version, payload).len() <= usize::MAX,
        len matches Some(l) ==> l == payload.len(),
        version is Some ==> accept_versioning,
        version is None ==> !opens_versioned(
            handshake_packet(id, key, secret, version, payload),
            secret,
            len,
            accept_versioning,
        ),
    ensures
        parse_packet_spec(handshake_packet(id, key, secret, version, payload), secret, len, accept_versioning) == Ok::<
            (Option<u16>, Seq<u8>),
            AdnlError,
        >((version, payload)),
{
    let sum = checksum(version, payload);
    let packet = handshake_packet(id, key, secret, version, payload);
    let sealed = packet_cipher(secret, sum, payload);
    let end = packet.len() as int;
    xor_keystream_involution(payload, secure_key(secret, sum), secure_iv(secret, sum), 0);
    assert(packet.subrange(end, end) =~= Seq::<u8>::empty());
    assert(payload + Seq::<u8>::empty() =~= payload);
    match version {
        Some(v) => {
            let field = crate::crypto::encode_version(v, id + key, sum);
            assert(header_prefix(id, Some(key)) == id + key);
            assert(packet =~= (id + key) + field + sum + sealed);
            assert(end == 100 + payload.len());
            assert(payload_end(end, 100, len) == end);
            assert(packet.subrange(0, 64) =~= id + key);
            assert(packet.subrange(64, 68) =~= field);
            assert(packet.subrange(68, 100) =~= sum);
            assert(packet.subrange(100, end) =~= sealed);
            decode_version_inverts_encode(v, id + key, sum);
            assert(version_candidate(packet, len, accept_versioning) == Some(v));
            assert(opened(packet, secret, 100, end) == payload);
        },
        None => {
            assert(packet =~= (id + key) + sum + sealed);
            assert(end == 96 + payload.len());
            assert(payload_end(end, 96, len) == end);
            assert(packet.subrange(64, 96) =~= sum);
            assert(packet.subrange(96, end) =~= sealed);
            assert(opened(packet, secret, 96, end) == payload);
        },
    }
}

/// A responder that does not accept versions never reports one, and reads
/// no packet but by its unversioned checksum: a versioned packet fails with
/// a checksum error wherever it does not also validate as an unversioned
/// one, and is not misread.
pub proof fn unversioned_responder_rejects(buf: Seq<u8>, secret: Seq<u8>, len: Option<usize>)
    requires
        buf.len() >= min_packet_len(len),
        !checks(buf, secret, 96, payload_end(buf.len() as int, 96, len), None),
    ensures
        parse_packet_spec(buf, secret, len, false) == Err::<(Option<u16>, Seq<u8>), AdnlError>(
            AdnlError::BadHandshakeChecksum { version: None },
        ),
{
}

/// ADNL handshake
pub struct AdnlHandshake;

impl AdnlHandshake {
    /// Builds a handshake packet in place: `buf` holds the payload before
    /// the call and the packet after it.  The shared secret is cleared.
    pub fn build_packet(
        buf: &mut Vec<u8>,
        other_id: &[u8; 32],
        local_pub_key: &[u8; 32],
        shared_secret: &mut [u8; 32],
        version: Option<u16>,
    )
        requires
            old(buf)@.len() + 100 <= usize::MAX,
        ensures
            final(buf)@ == handshake_packet(other_id@, local_pub_key@, old(shared_secret)@, version, old(buf)@),
            forall|i: int| 0 <= i < 32 ==> #[trigger] final(shared_secret)@[i] == 0,
    {
        let ghost payload = buf@;
        let ghost secret = shared_secret@;
        let checksum = AdnlCryptoUtils::encode_header(buf, other_id, Some(local_pub_key), version);
        let hdr: usize = if version.is_some() {
            100
        } else {
            96
        };
        let ghost head = header(other_id@, Some(local_pub_key@), version, checksum@);
        assert(buf@.subrange(0, hdr as int) =~= head);
        assert(buf@.subrange(hdr as int, buf@.len() as int) =~= payload);
        let mut cipher = Self::build_packet_cipher(shared_secret, &checksum);
        let end = buf.len();
        cipher.apply_keystream(buf, hdr, end);
        assert(buf@ =~= head + packet_cipher(secret, checksum@, payload));
    }

    /// Finds the local identity that a packet is addressed to: the first
    /// of `ids` that equals the packet's first 32 bytes.
    pub fn find_key(ids: &[[u8; 32]], buf: &[u8], len: Option<usize>) -> (found: Result<Option<usize>, AdnlError>)
        ensures
            match found {
                Ok(Some(index)) => buf@.len() >= min_packet_len(len) && first_match(
                    ids@,
                    buf@.subrange(0, 32),
                    index as int,
                ),
                Ok(None) => buf@.len() >= min_packet_len(len) && forall|j: int|
                    0 <= j < ids@.len() ==> (#[trigger] ids@[j])@ != buf@.subrange(0, 32),
                Err(e) => buf@.len() < min_packet_len(len) && e == (AdnlError::BadHandshakeLength {
                    len: buf@.len() as usize,
                }),
            },
    {
        if !Self::long_enough(buf.len(), len) {
            return Err(AdnlError::BadHandshakeLength { len: buf.len() });
        }
        let target = slice_subrange(buf, 0, 32);
        let mut i: usize = 0;
        while i < ids.len()
            invariant
                i <= ids@.len(),
                buf@.len() >= min_packet_len(len),
                target@ == buf@.subrange(0, 32),
                forall|j: int| 0 <= j < i ==> (#[trigger] ids@[j])@ != target@,
            decreases ids@.len() - i,
        {
            if bytes_equal(ids[i].as_slice(), target) {
                return Ok(Some(i));
            }
            i = i + 1;
        }
        Ok(None)
    }

    /// Opens a handshake packet with the secret shared with its sender.  On
    /// success `buf` holds the payload, and what followed it; on failure
    /// `buf` is as it was.  The shared secret is cleared either way.
    pub fn parse_packet(
        buf: &mut Vec<u8>,
        shared_secret: &mut [u8; 32],
        len: Option<usize>,
        accept_versioning: bool,
    ) -> (parsed: Result<Option<u16>, AdnlError>)
        ensures
            match parsed {
                Ok(version) => parse_packet_spec(old(buf)@, old(shared_secret)@, len, accept_versioning) == Ok::<
                    (Option<u16>, Seq<u8>),
                    AdnlError,
                >((version, final(buf)@)),
                Err(e) => parse_packet_spec(old(buf)@, old(shared_secret)@, len, accept_versioning) == Err::<
                    (Option<u16>, Seq<u8>),
                    AdnlError,
                >(e) && final(buf)@ == old(buf)@,
            },
            forall|i: int| 0 <= i < 32 ==> #[trigger] final(shared_secret)@[i] == 0,
    {
        let ghost packet = buf@;
        let ghost secret = shared_secret@;
        if !Self::long_enough(buf.len(), len) {
            clear(shared_secret);
            return Err(AdnlError::BadHandshakeLength { len: buf.len() });
        }
        let total = buf.len();
        let tries_versioned = accept_versioning && total >= 100 && match len {
            Some(l) => l <= total - 100,
            None => true,
        };
        if tries_versioned {
            let end: usize = match len {
                Some(l) => 100 + l,
                None => total,
            };
            let mut field: [u8; 4] = [0u8; 4];
            copy_into(&mut field, buf.as_slice(), 64);
            let decoded = AdnlCryptoUtils::decode_version(
                &field,
                slice_subrange(buf.as_slice(), 0, 64),
                slice_subrange(buf.as_slice(), 68, 100),
            );
            assert(decoded == version_candidate(packet, len, accept_versioning));
            if decoded.is_some() {
                let mut secret_copy: [u8; 32] = *shared_secret;
                let payload = Self::process(buf.as_slice(), &mut secret_copy, 100, end, &decoded);
                if let Some(payload) = payload {
                    Self::replace(buf, payload, end);
                    clear(shared_secret);
                    return Ok(decoded);
                }
            }
        }
        let end: usize = match len {
            Some(l) => 96 + l,
            None => total,
        };
        let payload = Self::process(buf.as_slice(), shared_secret, 96, end, &None);
        match payload {
            Some(payload) => {
                Self::replace(buf, payload, end);
                Ok(None)
            },
            None => Err(AdnlError::BadHandshakeChecksum { version: None }),
        }
    }

    /// Tells whether a buffer of `buf_len` bytes can hold a packet with the
    /// expected payload length.
    fn long_enough(buf_len: usize, len: Option<usize>) -> (ok: bool)
        ensures
            ok == (buf_len >= min_packet_len(len)),
    {
        match len {
            Some(l) => buf_len >= 96 && l <= buf_len - 96,
            None => buf_len >= 96,
        }
    }

    /// Decrypts the payload `buf[start..end]` and returns it if it has the
    /// checksum that stands before it.  The shared secret is cleared.
    fn process(buf: &[u8], secret: &mut [u8; 32], start: usize, end: usize, version: &Option<u16>) -> (payload:
        Option<Vec<u8>>)
        requires
            32 <= start <= end <= buf@.len(),
        ensures
            match payload {
                Some(p) => checks(buf@, old(secret)@, start as int, end as int, *version) && p@ == opened(
                    buf@,
                    old(secret)@,
                    start as int,
                    end as int,
                ),
                None => !checks(buf@, old(secret)@, start as int, end as int, *version),
            },
            forall|i: int| 0 <= i < 32 ==> #[trigger] final(secret)@[i] == 0,
    {
        let mut sum: [u8; 32] = [0u8; 32];
        copy_into(&mut sum, buf, start - 32);
        let mut cipher = Self::build_packet_cipher(secret, &sum);
        let mut payload = copy_range(buf, start, end);
        let n = payload.len();
        let ghost sealed = payload@;
        cipher.apply_keystream(&mut payload, 0, n);
        assert(sealed.subrange(0, n as int) =~= sealed);
        assert(payload@ =~= opened(buf@, old(secret)@, start as int, end as int));
        let actual = AdnlCryptoUtils::calc_checksum(version, payload.as_slice());
        if bytes_equal(actual.as_slice(), sum.as_slice()) {
            Some(payload)
        } else {
            None
        }
    }

    /// Puts `payload` in the place of `buf[..end]`.
    fn replace(buf: &mut Vec<u8>, payload: Vec<u8>, end: usize)
        requires
            end <= old(buf)@.len(),
        ensures
            final(buf)@ == payload@ + old(buf)@.subrange(end as int, old(buf)@.len() as int),
    {
        let mut out = payload;
        out.extend_from_slice(slice_subrange(buf.as_slice(), end, buf.len()));
        *buf = out;
    }

    /// Builds the cipher of a packet and clears the shared secret.
    fn build_packet_cipher(shared_secret: &mut [u8; 32], checksum: &[u8; 32]) -> (cipher: StreamCipher)
        ensures
            cipher.key() == secure_key(old(shared_secret)@, checksum@),
            cipher.iv() == secure_iv(old(shared_secret)@, checksum@),
            cipher.pos() == 0,
            forall|i: int| 0 <= i < 32 ==> #[trigger] final(shared_secret)@[i] == 0,
    {
        let ret = AdnlCryptoUtils::build_cipher_secure(shared_secret, checksum);
        clear(shared_secret);
        ret
    }
}

} // verus!
