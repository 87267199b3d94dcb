//! Randomness for sampling: a seeded generator from the `rand` crate behind
//! two trusted wrappers, and verified fixed-point samplers built on them.

use vstd::prelude::*;
use crate::fixed::{Fx, SCALE};

verus! {

#[verifier::external_type_specification]
#[verifier::external_body]
pub struct ExStdRng(rand::rngs::StdRng);

/// Relies on `rand::SeedableRng::seed_from_u64` for `StdRng`: builds a
/// generator from a 64-bit seed.  Nothing is assumed of the stream it yields.
#[verifier::external_body]
pub fn rng_from_seed(seed: u64) -> rand::rngs::StdRng {
    <rand::rngs::StdRng as rand::SeedableRng>::seed_from_u64(seed)
}

/// Relies on `rand::Rng::gen_range` over `0..n`: a value uniformly below `n`.
/// It panics only on an empty range, which the precondition rules out.
#[verifier::external_body]
pub fn rand_below(rng: &mut rand::rngs::StdRng, n: u64) -> (r: u64)
    requires
        n >= 1,
    ensures
        r < n,
{
    rand::Rng::gen_range(rng, 0..n)
}

/// A scalar drawn from `[0, 1)`.
pub fn rand_unit(rng: &mut rand::rngs::StdRng) -> (r: Fx)
    ensures
        0 <= r.raw < SCALE,
{
    Fx::from_raw(rand_below(rng, 65536) as i64)
}

/// A scalar drawn from `[min, max)`.
pub fn rand_range(rng: &mut rand::rngs::StdRng, min: Fx, max: Fx) -> (r: Fx)
    requires
        min.raw < max.raw,
        max.raw - min.raw <= i64::MAX,
    ensures
        min.raw <= r.raw < max.raw,
{
    let span: u64 = (max.raw - min.raw) as u64;
    let d: u64 = rand_below(rng, span);
    Fx::from_raw(min.raw + (d as i64))
}

} // verus!
