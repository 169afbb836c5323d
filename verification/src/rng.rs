//! The library's only source of randomness: a seedable generator from the
//! rand crate, reached through trusted wrappers. Every piece of game logic
//! takes the drawn numbers as plain values and is verified for each value
//! the generator can return.

use vstd::prelude::*;
use rand::Rng;
use rand::SeedableRng;
use rand::rngs::StdRng;

verus! {

#[verifier::external_type_specification]
#[verifier::external_body]
pub struct ExStdRng(StdRng);

/// Relies on rand's `StdRng::seed_from_u64`: builds a generator whose
/// output is determined by the 64-bit seed alone.
#[verifier::external_body]
pub(crate) fn rng_from_seed(seed: u64) -> StdRng {
    StdRng::seed_from_u64(seed)
}

/// Relies on rand's `Rng::gen_range` over the half-open range `lo..hi`:
/// the drawn value lies in `[lo, hi)`; the call panics only on an empty
/// range, which the precondition rules out. Nothing is promised about
/// which value comes back.
#[verifier::external_body]
pub(crate) fn rand_range_u32(rng: &mut StdRng, lo: u32, hi: u32) -> (r: u32)
    requires
        lo < hi,
    ensures
        lo <= r < hi,
{
    rng.gen_range(lo..hi)
}

} // verus!
