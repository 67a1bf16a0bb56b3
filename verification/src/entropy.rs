//! The source of random bytes.

use vstd::prelude::*;

verus! {

/// A byte from `rand::random`, which draws it from the `rand` crate's
/// thread-local generator. Nothing is claimed about which byte comes back:
/// callers are verified for every value.
#[verifier::external_body]
pub(crate) fn random_byte() -> (byte: u8) {
    rand::random::<u8>()
}

} // verus!
