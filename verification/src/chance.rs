//! The random draws of the evolution engine, made with the `rand` crate.
//!
//! Nothing here promises which value a draw returns, only the range it lies
//! in: the functions that decide on a draw are verified for every outcome.

use vstd::prelude::*;
use rand::rngs::StdRng;
use rand::seq::{IteratorRandom, SliceRandom};
use rand::Rng;

verus! {

/// The generator of the `rand` crate that all draws are made from.
#[verifier::external_type_specification]
#[verifier::external_body]
pub struct ExStdRng(StdRng);

/// Draws an integer between `low` and `high`, both included, with
/// `Rng::gen_range`, which panics on an empty range.
#[verifier::external_body]
pub(crate) fn draw_between(rng: &mut StdRng, low: u64, high: u64) -> (r: u64)
    requires
        low <= high,
    ensures
        low <= r <= high,
{
    rng.gen_range(low..=high)
}

/// Draws a boolean that is true with probability `numerator / denominator`,
/// with `Rng::gen_ratio`: certainly true when the two are equal, certainly
/// false when the numerator is zero. It panics on a zero denominator and on a
/// numerator above the denominator.
#[verifier::external_body]
pub(crate) fn draw_ratio(rng: &mut StdRng, numerator: u32, denominator: u32) -> (r: bool)
    requires
        0 < denominator,
        numerator <= denominator,
    ensures
        numerator == denominator ==> r,
        numerator == 0 ==> !r,
{
    rng.gen_ratio(numerator, denominator)
}

/// Reorders `items` at random with `SliceRandom::shuffle`, which only swaps
/// entries: the same values remain, each as often as before.
#[verifier::external_body]
pub(crate) fn shuffle(rng: &mut StdRng, items: &mut Vec<usize>)
    ensures
        final(items)@.to_multiset() == old(items)@.to_multiset(),
{
    items.shuffle(rng)
}

/// Picks one entry of `items` with `SliceRandom::choose`: none if the slice
/// is empty, else one of its entries.
#[verifier::external_body]
pub(crate) fn pick<'a, T>(rng: &mut StdRng, items: &'a [T]) -> (r: Option<&'a T>)
    ensures
        items@.len() == 0 ==> r is None,
        items@.len() > 0 ==> r is Some && items@.contains(*r->0),
{
    items.choose(rng)
}

/// Picks one entry of `items` with `IteratorRandom::choose` and hands it
/// over: none if the vector is empty, else one of its entries.
#[verifier::external_body]
pub(crate) fn pick_owned<T>(rng: &mut StdRng, items: Vec<T>) -> (r: Option<T>)
    ensures
        items@.len() == 0 ==> r is None,
        items@.len() > 0 ==> r is Some && items@.contains(r->0),
{
    items.into_iter().choose(rng)
}

/// A fresh identifier: a random version-4 UUID made by `Uuid::new_v4`, as
/// the 128-bit number that `Uuid::as_u128` gives for it. Nothing is promised
/// of its value.
#[verifier::external_body]
pub(crate) fn fresh_id() -> u128 {
    uuid::Uuid::new_v4().as_u128()
}

/// Draws an index below `len`.
pub fn draw_index(rng: &mut StdRng, len: usize) -> (r: usize)
    requires
        len > 0,
    ensures
        r < len,
{
    draw_between(rng, 0, (len - 1) as u64) as usize
}

} // verus!
