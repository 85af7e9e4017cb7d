//! Trusted access to the process-wide random generator.
//!
//! Every contract here states only what holds of every possible outcome:
//! nothing is promised about which value comes back.

use vstd::prelude::*;
use rand::RngExt;
use rand::seq::SliceRandom;

verus! {

/// Draws an index below `n`.
///
/// Relies on `rand::RngExt::random_range` over the generator of
/// `rand::rng()`: for a non-empty range `0..n` it returns a value of the
/// range and does not panic.
#[verifier::external_body]
pub(crate) fn rand_below(n: usize) -> (r: usize)
    requires
        n > 0,
    ensures
        r < n,
{
    rand::rng().random_range(0..n)
}

/// Returns a randomly permuted copy of the given vector.
///
/// Relies on `rand::seq::SliceRandom::shuffle`: it permutes the slice in
/// place, so the result holds exactly the elements that came in.
#[verifier::external_body]
pub fn shuffle_arr<T>(array: Vec<T>) -> (r: Vec<T>)
    ensures
        r@.to_multiset() == array@.to_multiset(),
{
    let mut v = array;
    v.shuffle(&mut rand::rng());
    v
}

} // verus!
