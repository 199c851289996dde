//! The machine's source of random bytes.

use vstd::prelude::*;

verus! {

/// Draws one byte from `rand::random::<u8>()`, the thread-local generator of
/// the `rand` crate. Nothing is claimed of the value: every byte is a
/// possible outcome, and two calls may differ.
#[verifier::external_body]
pub(crate) fn random_byte() -> (r: u8) {
    rand::random::<u8>()
}

} // verus!
