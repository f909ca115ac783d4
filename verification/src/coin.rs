//! Fair coins from a caller-supplied generator.

use vstd::prelude::*;

verus! {

/// One draw of rand's `Rng::gen_ratio`: a `bool` that is true with a
/// probability of `numerator` in `denominator`. Which way a draw falls is
/// not known here; rand documents only the two edges, which is all that is
/// claimed: a ratio of one always hits and a ratio of zero never does. The
/// call panics on a zero denominator and on a numerator above the
/// denominator, so those are not asked for.
#[verifier::external_body]
pub(crate) fn ratio<R: rand::RngCore + ?Sized>(rng: &mut R, numerator: u32, denominator: u32) -> (hit: bool)
    requires
        0 < denominator,
        numerator <= denominator,
    ensures
        numerator == denominator ==> hit,
        numerator == 0 ==> !hit,
{
    rand::Rng::gen_ratio(rng, numerator, denominator)
}

/// Tosses `count` fair coins, one after the other, and keeps them in the
/// order in which they fell. Each toss takes one 64-bit word from the
/// generator.
pub(crate) fn flips<R: rand::RngCore + ?Sized>(rng: &mut R, count: usize) -> (coins: Vec<bool>)
    ensures
        coins@.len() == count,
{
    let mut coins: Vec<bool> = Vec::new();
    let mut k: usize = 0;
    while k < count
        invariant
            k <= count,
            coins@.len() == k,
        decreases count - k,
    {
        let heads = ratio(rng, 1, 2);
        coins.push(heads);
        k += 1;
    }
    coins
}

} // verus!
