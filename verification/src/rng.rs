//! The seedable random source that session tokens are drawn from.
//!
//! The generator itself is an outside type; nothing is assumed of the
//! bytes it yields beyond their number, so every caller is verified for
//! every possible outcome.

use vstd::prelude::*;

use rand_chacha::rand_core::Rng;

verus! {

#[verifier::external_type_specification]
#[verifier::external_body]
pub struct ExChaCha8Rng(rand_chacha::ChaCha8Rng);

/// Relies on `rand_core::Rng::fill_bytes` as implemented by
/// `rand_chacha::ChaCha8Rng`: fills the buffer with bytes from the
/// generator, advancing its state. Only the count of bytes is assumed.
#[verifier::external_body]
pub(crate) fn fill_bytes16(rng: &mut rand_chacha::ChaCha8Rng) -> (r: Vec<u8>)
    ensures
        r@.len() == 16,
{
    let mut buf = [0u8; 16];
    rng.fill_bytes(&mut buf);
    buf.to_vec()
}

} // verus!
