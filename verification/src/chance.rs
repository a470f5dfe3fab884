//! The one source of chance: picking a move at random.

use rand::seq::SliceRandom;
use vstd::prelude::*;

use crate::moves::Move;

verus! {

/// The thread-local random number generator of the `rand` crate. Nothing is
/// known of what it holds.
#[verifier::external_type_specification]
#[verifier::external_body]
pub struct ExThreadRng(rand::rngs::ThreadRng);

/// `rand::thread_rng` hands out the generator of the current thread.
/// Nothing is claimed of it.
pub assume_specification[ rand::thread_rng ]() -> rand::rngs::ThreadRng;

/// Picks one of the eighteen moves with `SliceRandom::choose`, which returns
/// an element of the slice it is given unless the slice is empty. Which
/// element comes back is left open.
#[verifier::external_body]
pub(crate) fn choose_move(moves: &[Move; 18], rng: &mut rand::rngs::ThreadRng) -> (picked: Option<
    Move,
>)
    ensures
        picked is Some,
        moves@.contains(picked->Some_0),
{
    moves.choose(rng).copied()
}

} // verus!
