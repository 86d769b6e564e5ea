//! Random bytes.

use rand::rngs::SmallRng;
use rand::RngCore;
use vstd::prelude::*;

verus! {

/// The generator of `rand` that random bytes are drawn from.
#[verifier::external_type_specification]
#[verifier::external_body]
pub struct ExSmallRng(SmallRng);

/// Draws 32 bytes with `RngCore::fill_bytes` of `rand`'s `SmallRng`. Nothing is
/// claimed of the bytes: they depend on how the generator was seeded.
#[verifier::external_body]
pub(crate) fn random_bytes(rng: &mut SmallRng) -> (out: [u8; 32]) {
    let mut out = [0u8; 32];
    rng.fill_bytes(&mut out);
    out
}

/// Whether `bytes` may have been drawn from a generator, rather than made up.
pub closed spec fn drawn(bytes: Seq<u8>) -> bool {
    exists|rng: &mut SmallRng, out: [u8; 32]| #[trigger]
        call_ensures(random_bytes, (rng,), out) && out@ == bytes
}

/// Draws 32 bytes from `rng`.
pub(crate) fn draw(rng: &mut SmallRng) -> (out: [u8; 32])
    ensures
        out@.len() == 32,
        drawn(out@),
{
    let out: [u8; 32] = random_bytes(rng);
    assert(out@.len() == 32);
    out
}

} // verus!
