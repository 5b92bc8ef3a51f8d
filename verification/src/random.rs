//! Fresh randomness, as provided by the `rand` crate.

use rand::Rng;
use vstd::prelude::*;

verus! {

/// Calls `rand::thread_rng().gen()` for 32 bytes.  Nothing is claimed of
/// them: every value may come back.
#[verifier::external_body]
pub(crate) fn random_bytes() -> (bytes: [u8; 32]) {
    rand::thread_rng().gen()
}

} // verus!
