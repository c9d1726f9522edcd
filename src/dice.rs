//! Draws from the thread-local random generator of the `rand` crate.
use rand::Rng;
use vstd::prelude::*;

verus! {

/// Relies on `rand::Rng::random_range` on `rand::rng()`: the value drawn lies in
/// `0..n`. It panics on an empty range, which `requires` excludes.
#[verifier::external_body]
pub(crate) fn draw_below(n: u32) -> (r: u32)
    requires
        n > 0,
    ensures
        r < n,
{
    rand::rng().random_range(0..n)
}

/// Relies on `rand::Rng::random_ratio` on `rand::rng()`: `true` with probability
/// `numerator / denominator`. It panics when the denominator is zero or below the
/// numerator, which `requires` excludes. Nothing is promised of the outcome.
#[verifier::external_body]
pub(crate) fn draw_ratio(numerator: u32, denominator: u32) -> (r: bool)
    requires
        0 < denominator,
        numerator <= denominator,
{
    rand::rng().random_ratio(numerator, denominator)
}

} // verus!
