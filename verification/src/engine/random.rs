use vstd::prelude::*;

verus! {

/// Draws an index below `bound` from the thread-local generator.
///
/// Calls `rand::random_range(0..bound)`. Its documentation promises a value
/// in the given half-open range and panics on an empty range, hence the
/// `requires`. Which index comes out is left open: it depends on the
/// generator's state.
#[verifier::external_body]
pub(crate) fn random_below(bound: usize) -> (index: usize)
    requires
        bound > 0,
    ensures
        index < bound,
{
    rand::random_range(0..bound)
}

/// Flips a coin that comes up `true` with probability
/// `numerator / denominator`.
///
/// Calls `rand::random_ratio(numerator, denominator)`. Its documentation
/// guarantees `true` when the two are equal and `false` when the numerator
/// is zero, and says that it panics when the denominator is zero or below the
/// numerator, hence the `requires`. Otherwise the outcome depends on the
/// generator's state and is left open.
#[verifier::external_body]
pub(crate) fn random_chance(numerator: u32, denominator: u32) -> (hit: bool)
    requires
        0 < denominator,
        numerator <= denominator,
    ensures
        numerator == denominator ==> hit,
        numerator == 0 ==> !hit,
{
    rand::random_ratio(numerator, denominator)
}

} // verus!
