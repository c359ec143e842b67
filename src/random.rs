use vstd::prelude::*;
use rand::seq::SliceRandom;
use rand::Rng;
use crate::card::Card;

verus! {

/// Relies on rand's `SliceRandom::shuffle` (driven by `thread_rng`): it only
/// swaps elements of the slice, so what comes back is a permutation of what
/// went in. (`thread_rng` panics only when the system's random source
/// cannot be read at its first use.)
#[verifier::external_body]
pub(crate) fn shuffle_cards(cards: &mut Vec<Card>)
    ensures
        final(cards)@.to_multiset() == old(cards)@.to_multiset(),
        final(cards)@.len() == old(cards)@.len(),
{
    cards.shuffle(&mut rand::thread_rng());
}

/// A uniformly drawn index into `a_vec`.
///
/// Relies on rand's `Rng::gen_range` (on `thread_rng`): it returns a value of
/// the half-open range `0..len`, and panics on an empty range, which the
/// precondition rules out.
#[verifier::external_body]
pub fn get_random_index(a_vec: &Vec<Card>) -> (r: usize)
    requires
        a_vec.len() > 0,
    ensures
        r < a_vec.len(),
{
    rand::thread_rng().gen_range(0..a_vec.len())
}

} // verus!
