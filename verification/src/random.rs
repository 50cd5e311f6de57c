//! The source of random bytes.

use vstd::prelude::*;

verus! {

/// Draws a byte from `rand::random`, which takes it from the generator of the calling
/// thread. Any byte may come back, so nothing is claimed of the result. The call panics
/// only where the generator cannot be seeded from the operating system.
#[verifier::external_body]
pub(crate) fn random_byte() -> (byte: u8) {
    rand::random::<u8>()
}

} // verus!
