use vstd::prelude::*;
use rand::rngs::StdRng;
use rand::{Rng, SeedableRng};

verus! {

/// The seeded random number generator of `rand` that decides where and how
/// fast enemies appear.
#[verifier::external_type_specification]
#[verifier::external_body]
pub struct ExStdRng(StdRng);

/// The generator that `StdRng::from_seed` starts from `seed`. `from_seed`
/// builds the generator's state from the seed bytes alone, so one seed always
/// gives the same generator; nothing else is known of that state.
pub uninterp spec fn seeded_rng(seed: Seq<u8>) -> StdRng;

/// Calls `<StdRng as SeedableRng>::from_seed`: the generator started from
/// `seed` (see `seeded_rng`). Nothing is stated of the generator's state,
/// which Verus cannot see.
#[verifier::external_body]
pub(crate) fn rng_from_seed(seed: [u8; 32]) -> (r: StdRng)
    ensures
        r == seeded_rng(seed@),
{
    StdRng::from_seed(seed)
}

/// Calls `Rng::gen_range` on `i32` values; `rand` documents that the result
/// lies in `[low, high)` and that the call panics if `low >= high`.
/// Which value comes out depends on the generator's hidden state and is not
/// stated.
#[verifier::external_body]
pub(crate) fn gen_range_i32(rng: &mut StdRng, low: i32, high: i32) -> (r: i32)
    requires
        low < high,
    ensures
        low <= r < high,
{
    rng.gen_range(low, high)
}

/// Calls `Rng::gen_range` on `usize` values; `rand` documents that the
/// result lies in `[low, high)` and that the call panics if `low >= high`.
/// Which value comes out depends on the generator's hidden state and is not
/// stated.
#[verifier::external_body]
pub(crate) fn gen_range_usize(rng: &mut StdRng, low: usize, high: usize) -> (r: usize)
    requires
        low < high,
    ensures
        low <= r < high,
{
    rng.gen_range(low, high)
}

} // verus!
