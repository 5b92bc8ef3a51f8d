//! Small helpers on byte buffers.

use vstd::prelude::*;
use vstd::slice::slice_subrange;

verus! {

/// Tells whether two byte strings are equal.
pub fn bytes_equal(a: &[u8], b: &[u8]) -> (equal: bool)
    ensures
        equal == (a@ == b@),
{
    if a.len() != b.len() {
        return false;
    }
    let mut i: usize = 0;
    while i < a.len()
        invariant
            i <= a@.len(),
            a@.len() == b@.len(),
            forall|j: int| 0 <= j < i ==> a@[j] == b@[j],
        decreases a@.len() - i,
    {
        if a[i] != b[i] {
            return false;
        }
        i = i + 1;
    }
    assert(a@ =~= b@);
    true
}

/// Fills `dst` with the `N` bytes of `src` that start at `at`.
pub fn copy_into<const N: usize>(dst: &mut [u8; N], src: &[u8], at: usize)
    requires
        at + N <= src@.len(),
    ensures
        final(dst)@ == src@.subrange(at as int, at + N),
{
    let n = src.len();
    let mut i: usize = 0;
    while i < N
        invariant
            i <= N,
            at + N <= n == src@.len(),
            forall|j: int| 0 <= j < i ==> #[trigger] dst@[j] == src@[at + j],
        decreases N - i,
    {
        dst[i] = src[at + i];
        i = i + 1;
    }
    assert(dst@ =~= src@.subrange(at as int, at + N));
}

/// A copy of `src[from..to]`.
pub fn copy_range(src: &[u8], from: usize, to: usize) -> (out: Vec<u8>)
    requires
        from <= to <= src@.len(),
    ensures
        out@ == src@.subrange(from as int, to as int),
{
    let mut out: Vec<u8> = Vec::with_capacity(to - from);
    out.extend_from_slice(slice_subrange(src, from, to));
    out
}

} // verus!
