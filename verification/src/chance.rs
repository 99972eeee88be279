//! The random draws of the engine, taken from the `rand` crate.
//!
//! These are the only functions of the crate whose contracts are not proved.

use vstd::prelude::*;
use rand::Rng;

verus! {

/// Calls `rand::random::<bool>()`, a fair coin flipped by the thread-local
/// generator.  Nothing is claimed of the outcome.
#[verifier::external_body]
pub(crate) fn random_bool() -> bool {
    rand::random::<bool>()
}

/// Calls `gen_range(low, high)` of `rand::Rng` on `rand::thread_rng()`.  The
/// call is documented to give a value that is at least `low` and below
/// `high`, and to panic unless `low < high`; the contract claims that range
/// and nothing about which value of it comes.
#[verifier::external_body]
pub(crate) fn random_in_range(low: u64, high: u64) -> (n: u64)
    requires
        low < high,
    ensures
        low <= n < high,
{
    rand::thread_rng().gen_range(low, high)
}

/// A roll of the percentile die that decides whether the dealer peeks.
pub fn roll_percent() -> (roll: u64)
    ensures
        1 <= roll < 100,
{
    random_in_range(1, 100)
}

/// One coin flip for each of `n` cards.
pub fn flip_coins(n: usize) -> (flips: Vec<bool>)
    ensures
        flips@.len() == n,
{
    let mut flips: Vec<bool> = Vec::new();
    let mut i: usize = 0;
    while i < n
        invariant
            i <= n,
            flips@.len() == i,
        decreases n - i,
    {
        flips.push(random_bool());
        i += 1;
    }
    flips
}

} // verus!
