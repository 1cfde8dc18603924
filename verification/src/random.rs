//! Random draws.
//!
//! Randomness comes from the `rand` crate through the few trusted functions
//! of this module; everything else in the library is verified against their
//! contracts. The generator is handed in by the caller, so a seeded one makes
//! a run repeatable.

use rand::distributions::Distribution;
use rand::distributions::WeightedError;
use rand::distributions::WeightedIndex;
use rand::rngs::StdRng;
use rand::Rng;
use vstd::prelude::*;

verus! {

/// `rand::rngs::StdRng`, carried through as an opaque value.
#[verifier::external_type_specification]
#[verifier::external_body]
pub struct ExStdRng(StdRng);

/// `rand::distributions::WeightedError`, carried through as an opaque value.
#[verifier::external_type_specification]
#[verifier::external_body]
pub struct ExWeightedError(WeightedError);

/// A `rand::distributions::WeightedIndex` over `u128` weights.
#[verifier::external_body]
pub struct WeightTable {
    inner: WeightedIndex<u128>,
}

/// The weights that a table was built from, in their order.
pub uninterp spec fn table_weights(table: WeightTable) -> Seq<u128>;

/// The sum of all weights in `weights`.
pub open spec fn weight_total(weights: Seq<u128>) -> nat
    decreases weights.len(),
{
    if weights.len() == 0 {
        0
    } else {
        weight_total(weights.drop_last()) + weights.last() as nat
    }
}

/// Calls `WeightedIndex::new`. It fails on an empty list and on a list whose
/// weights are all zero, and on nothing else as long as the sum of the weights
/// fits the weight type; the table it returns holds the weights as given.
#[verifier::external_body]
pub(crate) fn weight_table(weights: &Vec<u128>) -> (r: Result<WeightTable, WeightedError>)
    requires
        weight_total(weights@) <= u128::MAX,
    ensures
        r is Ok <==> weight_total(weights@) > 0,
        r matches Ok(table) ==> table_weights(table) == weights@,
{
    match WeightedIndex::new(weights) {
        Ok(inner) => Ok(WeightTable { inner }),
        Err(e) => Err(e),
    }
}

/// Calls `WeightedIndex::sample`. Which index comes back is up to chance; it
/// is always one of the table, and never one of weight zero.
#[verifier::external_body]
pub(crate) fn draw_index(table: &WeightTable, rng: &mut StdRng) -> (i: usize)
    ensures
        i < table_weights(*table).len(),
        table_weights(*table)[i as int] > 0,
{
    table.inner.sample(rng)
}

/// Calls `Rng::gen_range`, which panics on an empty range and otherwise
/// returns a value from `low` up to, but not including, `high`.
#[verifier::external_body]
pub(crate) fn draw_between(rng: &mut StdRng, low: i64, high: i64) -> (v: i64)
    requires
        low < high,
    ensures
        low <= v < high,
{
    rng.gen_range(low, high)
}

/// Whether `v` may come out of a draw from `low` up to `high`: a value of the
/// half-open range, or `low` itself where the range is empty.
pub open spec fn drawn_from(v: i64, low: i64, high: i64) -> bool {
    if low < high {
        low <= v < high
    } else {
        v == low
    }
}

/// A uniform draw from `low` up to, but not including, `high`; `low` where
/// that range is empty.
pub fn uniform_between(rng: &mut StdRng, low: i64, high: i64) -> (v: i64)
    ensures
        drawn_from(v, low, high),
{
    if low < high {
        draw_between(rng, low, high)
    } else {
        low
    }
}

/// Whether `v` may come out of a symmetric draw of half-width `spread`.
pub open spec fn drawn_around_zero(v: i64, spread: i64) -> bool {
    if spread > 0 {
        -spread <= v < spread
    } else {
        v == 0
    }
}

/// A uniform draw from `-spread` up to, but not including, `spread`; zero
/// where `spread` is not positive.
pub fn uniform_around_zero(rng: &mut StdRng, spread: i64) -> (v: i64)
    ensures
        drawn_around_zero(v, spread),
{
    if spread > 0 {
        draw_between(rng, -spread, spread)
    } else {
        0
    }
}

} // verus!
