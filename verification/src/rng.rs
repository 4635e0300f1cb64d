//! The source of random bytes.

use rand::Rng;
use vstd::prelude::*;

verus! {

/// Draws one byte from the thread-local generator `rand::rng()` with
/// `Rng::random_range` over the inclusive range from 0 to 255. The range is
/// not empty, so the call does not panic on it. Nothing is claimed of the
/// byte that comes back: it may be any value, and two calls may differ.
#[verifier::external_body]
pub(crate) fn random_byte() -> (res: u8) {
    rand::rng().random_range(0..=255)
}

} // verus!
