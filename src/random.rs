use rand::rngs::StdRng;
use rand::seq::SliceRandom;
use rand::{Rng, SeedableRng};
use vstd::prelude::*;

verus! {

/// rand's standard seeded generator, carried through the logic as an opaque value.
#[verifier::external_type_specification]
#[verifier::external_body]
pub struct ExStdRng(StdRng);

/// Relies on rand's `SeedableRng::seed_from_u64` for `StdRng`: a generator whose
/// stream is fixed by the seed.
#[verifier::external_body]
pub(crate) fn seeded_rng(seed: u64) -> StdRng {
    StdRng::seed_from_u64(seed)
}

/// Relies on rand's `Rng::random_range` over the inclusive `u8` range `b'A'..=b'Z'`:
/// the draw lies in that range (the range is not empty, so it does not panic).
#[verifier::external_body]
pub(crate) fn draw_initial(rng: &mut StdRng) -> (r: u8)
    ensures
        65 <= r <= 90,
{
    rng.random_range(b'A'..=b'Z')
}

/// Relies on rand's `Rng::random_range` over the inclusive `usize` range `1..=n`:
/// the draw lies in that range; `n >= 1` keeps the range non-empty, where it panics.
#[verifier::external_body]
pub(crate) fn draw_rank(rng: &mut StdRng, n: usize) -> (r: usize)
    requires
        n >= 1,
    ensures
        1 <= r <= n,
{
    rng.random_range(1..=n)
}

/// Relies on rand's `SliceRandom::shuffle`: it only swaps elements, so the
/// result is a permutation of the input.
#[verifier::external_body]
pub(crate) fn shuffle_chars(rng: &mut StdRng, v: &mut Vec<char>)
    ensures
        final(v)@.len() == old(v)@.len(),
        final(v)@.to_multiset() == old(v)@.to_multiset(),
{
    v.as_mut_slice().shuffle(rng)
}

} // verus!
