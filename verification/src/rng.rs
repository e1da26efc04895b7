//! Trusted wrappers around the `rand` crate: the only sources of
//! randomness in the library.  Nothing is promised of a draw beyond its
//! range, so every caller must hold for every outcome.

use vstd::prelude::*;

verus! {

/// Sum of a sequence of weights.
pub open spec fn sum_weights(s: Seq<i64>) -> int
    decreases s.len(),
{
    if s.len() == 0 {
        0
    } else {
        sum_weights(s.drop_last()) + s.last() as int
    }
}

/// Relies on rand::Rng::gen_range over the range 0..n, which returns a
/// uniformly distributed value of that range and panics only when the
/// range is empty.
#[verifier::external_body]
pub(crate) fn rand_below(n: u64) -> (r: u64)
    requires
        n >= 1,
    ensures
        r < n,
{
    rand::Rng::gen_range(&mut rand::thread_rng(), 0..n)
}

/// Relies on rand::distributions::WeightedIndex: `new` accepts a
/// non-empty list of non-negative weights whose total is positive and
/// does not overflow, and `sample` returns the index of an entry with
/// positive weight.  Which index comes back is random.
#[verifier::external_body]
pub(crate) fn sample_weighted(weights: &Vec<i64>) -> (r: usize)
    requires
        weights@.len() >= 1,
        forall|i: int| 0 <= i < weights@.len() ==> 0 <= #[trigger] weights@[i],
        0 < sum_weights(weights@) <= i64::MAX,
    ensures
        r < weights@.len(),
        weights@[r as int] > 0,
{
    let dist = rand::distributions::WeightedIndex::new(weights.iter()).unwrap();
    rand::prelude::Distribution::sample(&dist, &mut rand::thread_rng())
}

} // verus!
