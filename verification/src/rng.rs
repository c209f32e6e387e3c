//! Trusted boundary to the `rand` crate: coin flips, weighted index draws,
//! and uniform integer ranges. Every contract states only what holds of
//! every possible outcome; nothing is promised about which value comes back.
use rand::distributions::Distribution;
use rand::Rng;
use vstd::prelude::*;

verus! {

/// Relies on rand::random: draws a value of `T`; nothing is known of it.
pub assume_specification<T>[ rand::random::<T> ]() -> (r: T)
    where
        rand::distributions::Standard: rand::distributions::Distribution<T>,
;

/// Relies on rand::distributions::WeightedIndex::new and
/// rand::distributions::Distribution::sample: a draw over indices weighted by
/// `weights` returns an index below `weights.len()` whose weight is positive.
/// `new` fails only on an empty list or an all-zero or overflowing total,
/// which the preconditions rule out.
#[verifier::external_body]
pub(crate) fn sample_weighted(weights: &Vec<u64>) -> (r: usize)
    requires
        weights@.len() > 0,
        weights@.len() <= u32::MAX,
        forall|i: int| 0 <= i < weights@.len() ==> weights@[i] <= u32::MAX,
        exists|i: int| 0 <= i < weights@.len() && weights@[i] > 0,
    ensures
        r < weights@.len(),
        weights@[r as int] > 0,
{
    rand::distributions::WeightedIndex::new(weights.iter())
        .unwrap()
        .sample(&mut rand::thread_rng())
}

/// Relies on rand::Rng::gen_range over an inclusive range: the result is
/// uniform in `[lo, hi]`; the call panics only on an empty range, which the
/// precondition rules out.
#[verifier::external_body]
pub(crate) fn sample_range_i32(lo: i32, hi: i32) -> (r: i32)
    requires
        lo <= hi,
    ensures
        lo <= r <= hi,
{
    rand::thread_rng().gen_range(lo..=hi)
}

} // verus!
