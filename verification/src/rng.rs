//! The randomness the animation consumes, drawn from a single xoshiro256++
//! generator that the caller seeds once and threads through every call, so
//! runs are reproducible from the seed.

use rand_xoshiro::Xoshiro256PlusPlus;
use vstd::prelude::*;

verus! {

/// Declares rand_xoshiro's `Xoshiro256PlusPlus` generator so that it can be
/// threaded through the library's signatures; its value is opaque here.
#[verifier::external_type_specification]
#[verifier::external_body]
pub struct ExXoshiro256PlusPlus(Xoshiro256PlusPlus);

/// Relies on rand's `RngExt::random_ratio`: the draw is true with probability
/// numerator in denominator; nothing else is promised of it. The bounds keep
/// to the range the function documents (it panics outside it).
#[verifier::external_body]
pub(crate) fn random_ratio(rand: &mut Xoshiro256PlusPlus, numerator: u32, denominator: u32) -> (b:
    bool)
    requires
        1 <= denominator,
        numerator <= denominator,
{
    rand::RngExt::random_ratio(rand, numerator, denominator)
}

/// Relies on rand's `RngExt::random_range` over `0..n`: the draw is uniform
/// and always lies in the (non-empty) range.
#[verifier::external_body]
pub(crate) fn random_below(rand: &mut Xoshiro256PlusPlus, n: usize) -> (i: usize)
    requires
        1 <= n,
    ensures
        i < n,
{
    rand::RngExt::random_range(rand, 0..n)
}

/// An even pick between two values: a with probability one half, else b.
pub fn choose_random<T>(rand: &mut Xoshiro256PlusPlus, a: T, b: T) -> (r: T)
    ensures
        r == a || r == b,
{
    if random_ratio(rand, 1, 2) {
        a
    } else {
        b
    }
}

} // verus!
