//! Checksums, the handshake header and the ciphers built from key material.

use crate::cipher::StreamCipher;
use crate::hash::{sha256, sha256_digest};
use core::ops::Range;
use vstd::prelude::*;

verus! {

/// The high byte of a protocol version.
pub open spec fn version_hi(version: u16) -> u8 {
    (version / 256) as u8
}

/// The low byte of a protocol version.
pub open spec fn version_lo(version: u16) -> u8 {
    (version % 256) as u8
}

/// What a checksum is computed over: the data, after the two big-endian
/// bytes of the version where there is one.
pub open spec fn checksum_input(version: Option<u16>, data: Seq<u8>) -> Seq<u8> {
    match version {
        Some(v) => seq![version_hi(v), version_lo(v)] + data,
        None => data,
    }
}

/// The checksum of `data` under an optional version.
pub open spec fn checksum(version: Option<u16>, data: Seq<u8>) -> Seq<u8> {
    sha256(checksum_input(version, data))@
}

/// The XOR of the bytes of `bytes` whose index is `lane` modulo 4.
pub open spec fn lane_xor(bytes: Seq<u8>, lane: int) -> u8
    decreases bytes.len(),
{
    if bytes.len() == 0 {
        0
    } else if (bytes.len() - 1) % 4 == lane {
        lane_xor(bytes.drop_last(), lane) ^ bytes.last()
    } else {
        lane_xor(bytes.drop_last(), lane)
    }
}

/// Byte `lane` of a four-byte field after the bytes of `a`, then those of
/// `b`, were folded into it.
pub open spec fn folded(field: Seq<u8>, a: Seq<u8>, b: Seq<u8>, lane: int) -> u8 {
    field[lane] ^ lane_xor(a, lane) ^ lane_xor(b, lane)
}

/// The four-byte version field of a header: the version written twice and
/// folded with the header bytes before it and with the checksum.
pub open spec fn encode_version(version: u16, before: Seq<u8>, sum: Seq<u8>) -> Seq<u8> {
    let plain = seq![version_hi(version), version_lo(version), version_hi(version), version_lo(version)];
    Seq::new(4, |lane: int| folded(plain, before, sum, lane))
}

/// The version that a four-byte field holds once `a` and `b` are folded out
/// of it, if its two halves then agree.
pub open spec fn decode_version_spec(field: Seq<u8>, a: Seq<u8>, b: Seq<u8>) -> Option<u16> {
    if folded(field, a, b, 0) == folded(field, a, b, 2) && folded(field, a, b, 1) == folded(field, a, b, 3) {
        Some((folded(field, a, b, 0) * 256 + folded(field, a, b, 1)) as u16)
    } else {
        None
    }
}

/// The sender's key as a sequence, where there is one.
pub open spec fn key_view(key: Option<&[u8; 32]>) -> Option<Seq<u8>> {
    match key {
        Some(k) => Some(k@),
        None => None,
    }
}

/// The header bytes that stand before the version field.
pub open spec fn header_prefix(id: Seq<u8>, key: Option<Seq<u8>>) -> Seq<u8> {
    match key {
        Some(k) => id + k,
        None => id,
    }
}

/// A whole header: peer id, optional sender key, optional folded version,
/// checksum.
pub open spec fn header(id: Seq<u8>, key: Option<Seq<u8>>, version: Option<u16>, sum: Seq<u8>) -> Seq<u8> {
    match version {
        Some(v) => header_prefix(id, key) + encode_version(v, header_prefix(id, key), sum) + sum,
        None => header_prefix(id, key) + sum,
    }
}

/// The length of a header: 64, 68, 96 or 100.
pub open spec fn header_len(has_key: bool, has_version: bool) -> int {
    64 + (if has_key { 32int } else { 0 }) + (if has_version { 4int } else { 0 })
}

/// The key of the secure cipher: the first half of the secret, then the
/// second half of the digest.
pub open spec fn secure_key(secret: Seq<u8>, digest: Seq<u8>) -> Seq<u8> {
    secret.subrange(0, 16) + digest.subrange(16, 32)
}

/// The counter block of the secure cipher: four bytes of the digest, then
/// the last twelve of the secret.
pub open spec fn secure_iv(secret: Seq<u8>, digest: Seq<u8>) -> Seq<u8> {
    digest.subrange(0, 4) + secret.subrange(20, 32)
}

proof fn lemma_lane_xor_push(bytes: Seq<u8>, byte: u8, lane: int)
    ensures
        lane_xor(bytes.push(byte), lane) == (if bytes.len() % 4 == lane {
            lane_xor(bytes, lane) ^ byte
        } else {
            lane_xor(bytes, lane)
        }),
{
    assert(bytes.push(byte).drop_last() =~= bytes);
}

/// Folds `bytes` into the four lanes of `acc`.
fn fold_lanes(acc: &mut [u8; 4], bytes: &[u8])
    ensures
        forall|lane: int| 0 <= lane < 4 ==> #[trigger] final(acc)@[lane] == old(acc)@[lane] ^ lane_xor(bytes@, lane),
{
    let ghost start = acc@;
    proof {
        assert forall|lane: int| 0 <= lane < 4 implies #[trigger] acc@[lane] == start[lane] ^ lane_xor(
            bytes@.subrange(0, 0),
            lane,
        ) by {
            let a = start[lane];
            assert(a ^ 0 == a) by (bit_vector);
        }
    }
    let mut i: usize = 0;
    while i < bytes.len()
        invariant
            i <= bytes@.len(),
            forall|lane: int| 0 <= lane < 4 ==> #[trigger] acc@[lane] == start[lane] ^ lane_xor(bytes@.subrange(0, i as int), lane),
        decreases bytes@.len() - i,
    {
        let ghost seen = bytes@.subrange(0, i as int);
        let ghost prev = acc@;
        let k: usize = i & 0x03;
        let b: u8 = bytes[i];
        assert(k == i % 4) by (bit_vector)
            requires
                k == i & 0x03,
        ;
        acc[k] = acc[k] ^ b;
        proof {
            assert(bytes@.subrange(0, i + 1) =~= seen.push(b));
            assert forall|lane: int| 0 <= lane < 4 implies #[trigger] acc@[lane] == start[lane] ^ lane_xor(
                bytes@.subrange(0, i + 1),
                lane,
            ) by {
                lemma_lane_xor_push(seen, b, lane);
                if lane == k {
                    let s = start[lane];
                    let l = lane_xor(seen, lane);
                    assert((s ^ l) ^ b == s ^ (l ^ b)) by (bit_vector);
                } else {
                    assert(acc@[lane] == prev[lane]);
                }
            }
        }
        i = i + 1;
    }
    proof {
        assert(bytes@.subrange(0, bytes@.len() as int) =~= bytes@);
    }
}

/// ADNL crypto utils
pub struct AdnlCryptoUtils;

impl AdnlCryptoUtils {
    /// Builds the cipher of a handshake packet from a shared secret and the
    /// packet's checksum.
    pub fn build_cipher_secure(secret: &[u8; 32], digest: &[u8; 32]) -> (cipher: StreamCipher)
        ensures
            cipher.key() == secure_key(secret@, digest@),
            cipher.iv() == secure_iv(secret@, digest@),
            cipher.pos() == 0,
    {
        let x = secret;
        let y = digest;
        let mut key: [u8; 32] = [
            x[0], x[1], x[2], x[3], x[4], x[5], x[6], x[7],
            x[8], x[9], x[10], x[11], x[12], x[13], x[14], x[15],
            y[16], y[17], y[18], y[19], y[20], y[21], y[22], y[23],
            y[24], y[25], y[26], y[27], y[28], y[29], y[30], y[31],
        ];
        let mut ctr: [u8; 16] = [
            y[0], y[1], y[2], y[3], x[20], x[21], x[22], x[23],
            x[24], x[25], x[26], x[27], x[28], x[29], x[30], x[31],
        ];
        proof {
            assert(key@ =~= secure_key(secret@, digest@));
            assert(ctr@ =~= secure_iv(secret@, digest@));
        }
        let ret = StreamCipher::new(key, ctr);
        clear(&mut key);
        clear(&mut ctr);
        ret
    }

    /// Builds a cipher from two ranges of a connection nonce: 32 bytes of
    /// key and 16 bytes of counter block.
    pub fn build_cipher_unsecure(nonce: &[u8; 160], range_key: Range<usize>, range_ctr: Range<usize>) -> (cipher:
        StreamCipher)
        requires
            range_key.start + 32 == range_key.end,
            range_key.end <= 160,
            range_ctr.start + 16 == range_ctr.end,
            range_ctr.end <= 160,
        ensures
            cipher.key() == nonce@.subrange(range_key.start as int, range_key.end as int),
            cipher.iv() == nonce@.subrange(range_ctr.start as int, range_ctr.end as int),
            cipher.pos() == 0,
    {
        let mut key: [u8; 32] = [0u8; 32];
        let mut i: usize = 0;
        while i < 32
            invariant
                i <= 32,
                range_key.start + 32 <= 160,
                forall|j: int| 0 <= j < i ==> #[trigger] key@[j] == nonce@[range_key.start + j],
            decreases 32 - i,
        {
            key[i] = nonce[range_key.start + i];
            i = i + 1;
        }
        let mut ctr: [u8; 16] = [0u8; 16];
        let mut i: usize = 0;
        while i < 16
            invariant
                i <= 16,
                range_ctr.start + 16 <= 160,
                forall|j: int| 0 <= j < i ==> #[trigger] ctr@[j] == nonce@[range_ctr.start + j],
            decreases 16 - i,
        {
            ctr[i] = nonce[range_ctr.start + i];
            i = i + 1;
        }
        proof {
            assert(key@ =~= nonce@.subrange(range_key.start as int, range_key.end as int));
            assert(ctr@ =~= nonce@.subrange(range_ctr.start as int, range_ctr.end as int));
        }
        StreamCipher::new(key, ctr)
    }

    /// Calculates the checksum of `data` under an optional version.
    pub fn calc_checksum(version: &Option<u16>, data: &[u8]) -> (sum: [u8; 32])
        ensures
            sum@ == checksum(*version, data@),
    {
        if let Some(version) = version {
            let v: u16 = *version;
            let hi: u8 = (v >> 8) as u8;
            let lo: u8 = v as u8;
            assert(hi == version_hi(v) && lo == version_lo(v)) by (bit_vector)
                requires
                    hi == (v >> 8) as u8,
                    lo == v as u8,
            ;
            let mut input: Vec<u8> = Vec::new();
            input.push(hi);
            input.push(lo);
            input.extend_from_slice(data);
            proof {
                assert(input@ =~= checksum_input(Some(v), data@));
            }
            sha256_digest(input.as_slice())
        } else {
            sha256_digest(data)
        }
    }

    /// Decodes the version held by a four-byte header field, given the header
    /// bytes that were folded into it.
    pub fn decode_version(version: &[u8; 4], hdra: &[u8], hdrb: &[u8]) -> (decoded: Option<u16>)
        ensures
            decoded == decode_version_spec(version@, hdra@, hdrb@),
    {
        let mut xor: [u8; 4] = *version;
        fold_lanes(&mut xor, hdra);
        fold_lanes(&mut xor, hdrb);
        assert(forall|lane: int| 0 <= lane < 4 ==> #[trigger] xor@[lane] == folded(version@, hdra@, hdrb@, lane));
        if (xor[0] == xor[2]) && (xor[1] == xor[3]) {
            let hi: u8 = xor[0];
            let lo: u8 = xor[1];
            let v: u16 = ((hi as u16) << 8) | (lo as u16);
            assert(v == hi * 256 + lo) by (bit_vector)
                requires
                    v == ((hi as u16) << 8) | (lo as u16),
            ;
            Some(v)
        } else {
            None
        }
    }

    /// Puts a header in front of the payload in `buf` and returns the
    /// payload's checksum.
    pub fn encode_header(buf: &mut Vec<u8>, id: &[u8; 32], key: Option<&[u8; 32]>, version: Option<u16>) -> (sum: [
        u8;
        32
    ])
        requires
            old(buf)@.len() + 100 <= usize::MAX,
        ensures
            sum@ == checksum(version, old(buf)@),
            final(buf)@ == header(id@, key_view(key), version, sum@) + old(buf)@,
            final(buf)@.len() == header_len(key is Some, version is Some) + old(buf)@.len(),
    {
        let checksum = Self::calc_checksum(&version, buf.as_slice());
        let mut out: Vec<u8> = Vec::with_capacity(buf.len() + 100);
        out.extend_from_slice(id.as_slice());
        if let Some(key) = key {
            out.extend_from_slice(key.as_slice());
        }
        assert(out@ =~= header_prefix(id@, key_view(key)));
        if let Some(version) = version {
            let hi: u8 = (version >> 8) as u8;
            let lo: u8 = version as u8;
            assert(hi == version_hi(version) && lo == version_lo(version)) by (bit_vector)
                requires
                    hi == (version >> 8) as u8,
                    lo == version as u8,
            ;
            // Mix version with other bytes of header to get encoded version
            let mut xor: [u8; 4] = [hi, lo, hi, lo];
            let ghost plain = xor@;
            fold_lanes(&mut xor, out.as_slice());
            fold_lanes(&mut xor, checksum.as_slice());
            proof {
                assert(plain =~= seq![hi, lo, hi, lo]);
                assert(xor@ =~= encode_version(version, header_prefix(id@, key_view(key)), checksum@));
            }
            out.extend_from_slice(xor.as_slice());
        }
        out.extend_from_slice(checksum.as_slice());
        assert(out@ =~= header(id@, key_view(key), version, checksum@));
        out.extend_from_slice(buf.as_slice());
        *buf = out;
        checksum
    }
}

/// Overwrites a buffer of key material with zeros.
pub fn clear<const N: usize>(bytes: &mut [u8; N])
    ensures
        forall|i: int| 0 <= i < N ==> #[trigger] final(bytes)@[i] == 0,
{
    let mut i: usize = 0;
    while i < N
        invariant
            i <= N,
            forall|j: int| 0 <= j < i ==> #[trigger] bytes@[j] == 0,
        decreases N - i,
    {
        bytes[i] = 0;
        i = i + 1;
    }
}

/// Decoding inverts the version fold of a header, for every version and
/// whatever header bytes were folded in.
pub proof fn decode_version_inverts_encode(version: u16, before: Seq<u8>, sum: Seq<u8>)
    ensures
        decode_version_spec(encode_version(version, before, sum), before, sum) == Some(version),
{
    let field = encode_version(version, before, sum);
    let hi = version_hi(version);
    let lo = version_lo(version);
    assert forall|lane: int| 0 <= lane < 4 implies folded(field, before, sum, lane) == (if lane % 2 == 0 {
        hi
    } else {
        lo
    }) by {
        let p = if lane % 2 == 0 {
            hi
        } else {
            lo
        };
        let a = lane_xor(before, lane);
        let b = lane_xor(sum, lane);
        assert(field[lane] == p ^ a ^ b);
        assert(((p ^ a ^ b) ^ a ^ b) == p) by (bit_vector);
    }
    assert(folded(field, before, sum, 0) == hi);
    assert(folded(field, before, sum, 1) == lo);
    assert(folded(field, before, sum, 2) == hi);
    assert(folded(field, before, sum, 3) == lo);
    assert((hi * 256 + lo) as u16 == version) by {
        assert(version / 256 < 256);
        assert((version / 256) * 256 + version % 256 == version);
    }
}

} // verus!
