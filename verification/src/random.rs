//! The random-byte source.

use vstd::prelude::*;

verus! {

/// One byte from `rand::random::<u8>()`, the thread-local generator of the
/// `rand` crate. Nothing is claimed of the value: every byte may come back,
/// and two calls may differ. The generator seeds itself from the operating
/// system on first use and panics if the system gives it no entropy.
#[verifier::external_body]
pub(crate) fn random_byte() -> (byte: u8) {
    rand::random::<u8>()
}

} // verus!
