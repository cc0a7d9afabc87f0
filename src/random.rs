//! Seeded pseudo-random draws, delegated to `rand`'s `StdRng`.
//!
//! `StdRng` is deterministic: a generator built by `seed_from_u64` from the
//! same seed hands out the same stream, so each draw below is named as a
//! function of its arguments alone.
use rand::distributions::{Standard, Uniform};
use rand::rngs::StdRng;
use rand::{Rng, SeedableRng};
use vstd::prelude::*;

verus! {

/// The first `count` words of the `Standard` stream of a `StdRng` seeded with `seed`.
pub uninterp spec fn seeded_words(seed: u64, count: nat) -> Seq<u64>;

/// The first `count` draws from `Uniform::new(0, bound)` out of a `StdRng` seeded with `seed`.
pub uninterp spec fn seeded_below(seed: u64, bound: u64, count: nat) -> Seq<u64>;

/// Out of one `StdRng` seeded with `seed`: the first `count` words of its
/// `Standard` stream, then `count` draws from `Uniform::new(0, bound)` that
/// continue the same generator.
pub uninterp spec fn seeded_updates(seed: u64, count: nat, bound: u64) -> (Seq<u64>, Seq<u64>);

/// Relies on `StdRng::seed_from_u64`, `Rng::sample_iter` on `&mut StdRng`
/// (which draws from and advances the one generator) with the `Standard`
/// distribution of `u64` and then with `Uniform::new(0, bound)`, which
/// panics unless `0 < bound` and samples from `[0, bound)`.
#[verifier::external_body]
pub(crate) fn draw_updates(seed: u64, count: usize, bound: u64) -> (r: (Vec<u64>, Vec<u64>))
    requires
        bound > 0,
    ensures
        (r.0@, r.1@) == seeded_updates(seed, count as nat, bound),
        r.0@.len() == count,
        r.1@.len() == count,
        forall|i: int| 0 <= i < count ==> r.1@[i] < bound,
{
    let mut rng = StdRng::seed_from_u64(seed);
    let words: Vec<u64> = (&mut rng).sample_iter(Standard).take(count).collect();
    let below: Vec<u64> = (&mut rng).sample_iter(Uniform::new(0u64, bound)).take(count).collect();
    (words, below)
}

/// Relies on `StdRng::seed_from_u64` and `Rng::sample_iter` with the
/// `Standard` distribution of `u64`: an endless stream, of which `count`
/// words are taken.
#[verifier::external_body]
pub(crate) fn draw_words(seed: u64, count: usize) -> (r: Vec<u64>)
    ensures
        r@ == seeded_words(seed, count as nat),
        r@.len() == count,
{
    StdRng::seed_from_u64(seed).sample_iter(Standard).take(count).collect()
}

/// Relies on `StdRng::seed_from_u64`, `Uniform::new` (which panics unless
/// `low < high` and samples from `[low, high)`) and `Rng::sample_iter`, an
/// endless stream of which `count` draws are taken.
#[verifier::external_body]
pub(crate) fn draw_below(seed: u64, bound: u64, count: usize) -> (r: Vec<u64>)
    requires
        bound > 0,
    ensures
        r@ == seeded_below(seed, bound, count as nat),
        r@.len() == count,
        forall|i: int| 0 <= i < count ==> r@[i] < bound,
{
    StdRng::seed_from_u64(seed).sample_iter(Uniform::new(0u64, bound)).take(count).collect()
}

} // verus!
