//! AES-256 in counter mode, as provided by the `aes-ctr` crate.
//!
//! A cipher is held as its key, its initial counter block and the number of
//! keystream bytes already used, so that contracts can say which keystream
//! byte meets which data byte.

use aes_ctr::cipher::generic_array::GenericArray;
use aes_ctr::cipher::stream::{NewStreamCipher, SyncStreamCipher, SyncStreamCipherSeek};
use vstd::prelude::*;

verus! {

/// Byte number `index` of the AES-256-CTR keystream for `key` and `iv`.
pub uninterp spec fn aes256_ctr_keystream(key: Seq<u8>, iv: Seq<u8>, index: nat) -> u8;

/// `data` with each byte XORed with the keystream, starting at byte `pos` of it.
pub open spec fn xor_keystream(data: Seq<u8>, key: Seq<u8>, iv: Seq<u8>, pos: nat) -> Seq<u8> {
    Seq::new(data.len(), |i: int| data[i] ^ aes256_ctr_keystream(key, iv, (pos + i) as nat))
}

/// Builds an `aes_ctr::Aes256Ctr` from `key` and `iv`, seeks to keystream byte
/// `pos` and calls `apply_keystream` on `data[from..to]`.  The contract claims
/// what the crate documents: each byte of that range is XORed with the
/// keystream byte at its position, which depends on `key`, `iv` and the
/// position alone, and nothing else changes.
#[verifier::external_body]
fn aes256_ctr_apply(key: &[u8; 32], iv: &[u8; 16], pos: u64, data: &mut Vec<u8>, from: usize, to: usize)
    requires
        from <= to <= old(data)@.len(),
    ensures
        final(data)@.len() == old(data)@.len(),
        forall|i: int|
            0 <= i < old(data)@.len() ==> #[trigger] final(data)@[i] == (if from <= i < to {
                old(data)@[i] ^ aes256_ctr_keystream(key@, iv@, (pos + i - from) as nat)
            } else {
                old(data)@[i]
            }),
{
    let mut cipher = aes_ctr::Aes256Ctr::new(GenericArray::from_slice(key), GenericArray::from_slice(iv));
    cipher.seek(pos);
    cipher.apply_keystream(&mut data[from..to]);
}

/// An AES-256-CTR keystream and the place reached in it.
pub struct StreamCipher {
    key: [u8; 32],
    iv: [u8; 16],
    pos: u64,
}

impl StreamCipher {
    /// The 32-byte key.
    pub closed spec fn key(&self) -> Seq<u8> {
        self.key@
    }

    /// The 16-byte initial counter block.
    pub closed spec fn iv(&self) -> Seq<u8> {
        self.iv@
    }

    /// How many keystream bytes have been used.
    pub closed spec fn pos(&self) -> nat {
        self.pos as nat
    }

    /// What applying the cipher to `data` at its present position gives.
    pub open spec fn transform(&self, data: Seq<u8>) -> Seq<u8> {
        xor_keystream(data, self.key(), self.iv(), self.pos())
    }

    /// True when `len` more keystream bytes can be used.
    pub open spec fn has_room(&self, len: nat) -> bool {
        self.pos() + len <= u64::MAX
    }

    /// A cipher at the start of the keystream of `key` and `iv`.
    pub fn new(key: [u8; 32], iv: [u8; 16]) -> (cipher: Self)
        ensures
            cipher.key() == key@,
            cipher.iv() == iv@,
            cipher.pos() == 0,
    {
        StreamCipher { key, iv, pos: 0 }
    }

    /// Tells whether `len` more keystream bytes can be used.
    pub fn can_apply(&self, len: usize) -> (ok: bool)
        ensures
            ok == self.has_room(len as nat),
    {
        len as u64 <= u64::MAX - self.pos
    }

    /// XORs `data[from..to]` with the next `to - from` keystream bytes and
    /// moves the position past them.
    pub fn apply_keystream(&mut self, data: &mut Vec<u8>, from: usize, to: usize)
        requires
            from <= to <= old(data)@.len(),
            old(self).has_room((to - from) as nat),
        ensures
            final(self).key() == old(self).key(),
            final(self).iv() == old(self).iv(),
            final(self).pos() == old(self).pos() + (to - from),
            final(data)@ == old(data)@.subrange(0, from as int) + old(self).transform(
                old(data)@.subrange(from as int, to as int),
            ) + old(data)@.subrange(to as int, old(data)@.len() as int),
    {
        let ghost before = data@;
        aes256_ctr_apply(&self.key, &self.iv, self.pos, data, from, to);
        proof {
            let expected = before.subrange(0, from as int) + self.transform(
                before.subrange(from as int, to as int),
            ) + before.subrange(to as int, before.len() as int);
            assert(data@.len() == expected.len());
            assert forall|i: int| 0 <= i < data@.len() implies data@[i] == expected[i] by {
                if from <= i < to {
                    assert(before.subrange(from as int, to as int)[i - from] == before[i]);
                }
            }
            assert(data@ =~= expected);
        }
        self.pos = self.pos + (to - from) as u64;
    }
}

/// XORing twice with the same keystream at the same position gives the data back.
pub proof fn xor_keystream_involution(data: Seq<u8>, key: Seq<u8>, iv: Seq<u8>, pos: nat)
    ensures
        xor_keystream(xor_keystream(data, key, iv, pos), key, iv, pos) == data,
{
    let once = xor_keystream(data, key, iv, pos);
    let twice = xor_keystream(once, key, iv, pos);
    assert forall|i: int| 0 <= i < data.len() implies twice[i] == data[i] by {
        let d = data[i];
        let k = aes256_ctr_keystream(key, iv, (pos + i) as nat);
        assert((d ^ k) ^ k == d) by (bit_vector);
    }
    assert(twice =~= data);
}

/// Applying the keystream to a concatenation is applying it to the first
/// part, and to the second part at the position that follows the first.
pub proof fn xor_keystream_concat(a: Seq<u8>, b: Seq<u8>, key: Seq<u8>, iv: Seq<u8>, pos: nat)
    ensures
        xor_keystream(a + b, key, iv, pos) == xor_keystream(a, key, iv, pos) + xor_keystream(
            b,
            key,
            iv,
            pos + a.len(),
        ),
{
    let whole = xor_keystream(a + b, key, iv, pos);
    let parts = xor_keystream(a, key, iv, pos) + xor_keystream(b, key, iv, pos + a.len());
    assert(whole.len() == parts.len());
    assert forall|i: int| 0 <= i < whole.len() implies whole[i] == parts[i] by {
        if i >= a.len() {
            assert((pos + a.len() + (i - a.len())) as nat == (pos + i) as nat);
        }
    }
    assert(whole =~= parts);
}

} // verus!
