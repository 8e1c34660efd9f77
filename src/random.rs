use vstd::prelude::*;
use rand::rngs::StdRng;
use rand::seq::SliceRandom;
use rand::{Rng, SeedableRng};
use crate::entity::Entity;

verus! {

#[verifier::external_type_specification]
#[verifier::external_body]
pub struct ExStdRng(StdRng);

/// Relies on rand's `Rng::gen_range`: a value drawn from `0..n` (never empty here,
/// so the call does not panic).
#[verifier::external_body]
pub(crate) fn random_below(rng: &mut StdRng, n: u64) -> (r: u64)
    requires
        n > 0,
    ensures
        r < n,
{
    rng.gen_range(0..n)
}

/// Relies on rand's `SeedableRng::seed_from_u64`: a generator replaying one fixed sequence
/// for each seed.
#[verifier::external_body]
pub(crate) fn seeded_rng(seed: u64) -> StdRng {
    StdRng::seed_from_u64(seed)
}

/// Relies on rand's `SliceRandom::shuffle`: the cells are permuted in place, by swaps.
#[verifier::external_body]
pub(crate) fn shuffle_cells(rng: &mut StdRng, cells: &mut Vec<Option<Entity>>)
    ensures
        final(cells)@.to_multiset() == old(cells)@.to_multiset(),
{
    cells.shuffle(rng)
}

/// A value drawn from `lo..hi`
pub fn random_in(rng: &mut StdRng, lo: u8, hi: u8) -> (r: u8)
    requires
        lo < hi,
    ensures
        lo <= r < hi,
{
    let d = random_below(rng, (hi - lo) as u64);
    lo + d as u8
}

/// A value drawn from `lo..hi`, or `lo` when that range is empty
pub fn random_or_low(rng: &mut StdRng, lo: u8, hi: u8) -> (r: u8)
    ensures
        lo < hi ==> lo <= r < hi,
        lo >= hi ==> r == lo,
{
    if lo < hi {
        random_in(rng, lo, hi)
    } else {
        lo
    }
}

/// A fair coin
pub fn coin(rng: &mut StdRng) -> bool {
    random_below(rng, 2) == 0
}

} // verus!
