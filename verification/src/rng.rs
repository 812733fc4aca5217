//! The random source, injected into spawning and fragmentation as an
//! explicit parameter so that the logic around it is verified for every
//! outcome the source can produce.

use vstd::prelude::*;

verus! {

#[verifier::external_type_specification]
#[verifier::external_body]
pub struct ExThreadRng(rand::rngs::ThreadRng);

/// Relies on rand::Rng::gen_range over an integer half-open range: it
/// returns a uniform value in `[0, n)` and panics only when the range is
/// empty, which `n > 0` rules out. Nothing else is assumed of the draw.
#[verifier::external_body]
pub(crate) fn rand_below(rng: &mut rand::rngs::ThreadRng, n: i64) -> (r: i64)
    requires
        n > 0,
    ensures
        0 <= r < n,
{
    rand::Rng::gen_range(rng, 0..n)
}

/// A uniform draw from `[-m, m]`, built on `rand_below`.
pub(crate) fn rand_signed(rng: &mut rand::rngs::ThreadRng, m: i64) -> (r: i64)
    requires
        0 < m <= 0x1000_0000,
    ensures
        -m <= r <= m,
{
    let raw: i64 = rand_below(rng, 2 * m + 1);
    raw - m
}

} // verus!
