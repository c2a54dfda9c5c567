use vstd::prelude::*;

use rand::rngs::StdRng;

use crate::gamestate::Gamestate;
use crate::pieces::{Move, Team};
use crate::rng::random_index;
use crate::thin::{move_at, move_count, thin_moves};

verus! {

/// The player that picks one of its moves at random.
#[derive(Clone, Copy, Debug)]
pub struct RandomPick;

impl RandomPick {
    /// One of the moves of `my_team`, drawn by `rng`.
    pub fn best_move(&mut self, state: &Gamestate, my_team: Team, rng: &mut StdRng) -> (r: Move)
        requires
            state.board.legal_moves(my_team).len() > 0,
        ensures
            state.board.legal_moves(my_team).contains(r),
    {
        let moves = state.available_moves(my_team);
        let n = move_count(&moves);
        let k = random_index(rng, n);
        let m = move_at(&moves, k);
        proof {
            assert(thin_moves(moves)[k as int] == m);
        }
        m
    }
}

} // verus!
