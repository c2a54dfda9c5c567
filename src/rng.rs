use vstd::prelude::*;

use rand::rngs::StdRng;
use rand::seq::SliceRandom;
use rand::Rng;

use crate::pieces::PieceType;

verus! {

/// The seedable random number generator of `rand` that draws start positions and moves.
#[verifier::external_type_specification]
#[verifier::external_body]
pub struct ExStdRng(StdRng);

/// Relies on `SliceRandom::shuffle`, which permutes the slice in place by swaps.
#[verifier::external_body]
pub(crate) fn shuffle_kinds(kinds: &mut Vec<PieceType>, rng: &mut StdRng)
    ensures
        final(kinds)@.len() == old(kinds)@.len(),
        final(kinds)@.to_multiset() == old(kinds)@.to_multiset(),
{
    kinds.shuffle(rng)
}

/// Relies on `Rng::gen_range`, which returns a value of the half-open range and panics only
/// when the range is empty.
#[verifier::external_body]
pub(crate) fn random_index(rng: &mut StdRng, n: usize) -> (r: usize)
    requires
        n > 0,
    ensures
        r < n,
{
    rng.gen_range(0..n)
}

} // verus!
