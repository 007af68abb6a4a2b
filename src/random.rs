use vstd::prelude::*;

use rand::distributions::{Distribution, WeightedIndex};
use rand::Rng;

verus! {

/// Sum of a sequence of weights.
pub open spec fn weight_sum(w: Seq<u32>) -> int
    decreases w.len(),
{
    if w.len() == 0 {
        0
    } else {
        weight_sum(w.drop_last()) + w.last()
    }
}

/// Relies on rand's `WeightedIndex::new` and its `sample` with the thread-local generator:
/// the index drawn is in range and its weight is positive (an item of weight zero is
/// never drawn). `new` fails only for an empty list, a zero total or an overflowing total.
/// The thread-local generator is seeded from the operating system on first use.
#[verifier::external_body]
pub(crate) fn pick_weighted(weights: &Vec<u32>) -> (r: usize)
    requires
        weights@.len() > 0,
        0 < weight_sum(weights@) <= u32::MAX,
    ensures
        r < weights@.len(),
        weights@[r as int] > 0,
{
    WeightedIndex::new(weights.iter()).expect("weights with a positive total").sample(
        &mut rand::thread_rng(),
    )
}

/// Relies on rand's `Rng::gen_range` with the thread-local generator: a value of the
/// half-open range `[lo, hi)`, which must not be empty.
#[verifier::external_body]
pub(crate) fn random_in(lo: i64, hi: i64) -> (r: i64)
    requires
        lo < hi,
    ensures
        lo <= r < hi,
{
    rand::thread_rng().gen_range(lo..hi)
}

} // verus!
