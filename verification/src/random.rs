//! Bytes from the operating system's random source.

use vstd::prelude::*;

verus! {

/// Draws `N` bytes with `rand::Rng::random` from the generator that
/// `rand::rng` hands out. The bytes depend on chance, so nothing is claimed
/// of them but their number, which the type gives.
#[verifier::external_body]
pub(crate) fn random_bytes<const N: usize>() -> (bytes: [u8; N]) {
    rand::Rng::random(&mut rand::rng())
}

} // verus!
