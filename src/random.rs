//! The seeded random generator used by terrain generation.
use rand::{Rng, SeedableRng};
use vstd::prelude::*;

verus! {

/// Declares rand's `StdRng`, the seeded generator, as an opaque type.
#[verifier::external_type_specification]
#[verifier::external_body]
pub struct ExStdRng(rand::rngs::StdRng);

/// Relies on rand's `SeedableRng::seed_from_u64`: a generator whose stream is
/// fixed by the seed.
#[verifier::external_body]
pub(crate) fn seeded(seed: u64) -> rand::rngs::StdRng {
    rand::rngs::StdRng::seed_from_u64(seed)
}

/// Relies on rand's `Rng::gen_range` over an inclusive range: a value in
/// `lo..=hi` (it panics only on an empty range).
#[verifier::external_body]
pub(crate) fn roll_between(rng: &mut rand::rngs::StdRng, lo: u32, hi: u32) -> (r: u32)
    requires
        lo <= hi,
    ensures
        lo <= r <= hi,
{
    rng.gen_range(lo..=hi)
}

/// Relies on rand's `Rng::gen_ratio(1, n)`: true with a chance of one in `n`,
/// always true for `n == 1` (it panics only for `n == 0`).
#[verifier::external_body]
pub(crate) fn one_in(rng: &mut rand::rngs::StdRng, n: u32) -> (r: bool)
    requires
        n >= 1,
    ensures
        n == 1 ==> r,
{
    rng.gen_ratio(1, n)
}

} // verus!
