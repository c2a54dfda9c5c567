use vstd::prelude::*;

use crate::board::can_move;
use crate::gamestate::{state_after, Gamestate};
use crate::minmax::searchable;
use crate::pieces::Move;
use crate::thin::{move_at, move_count, thin_moves};

verus! {

/// The number of move sequences of length `depth + 1` from `g`, where a sequence stops
/// counting once a move ends the game.
pub open spec fn perft(g: Gamestate, depth: nat) -> int
    decreases depth, 1nat, 0nat,
{
    if depth == 0 {
        g.board.legal_moves(g.to_move()).len() as int
    } else {
        perft_sum(g, g.board.legal_moves(g.to_move()), depth)
    }
}

pub open spec fn perft_sum(g: Gamestate, moves: Seq<Move>, depth: nat) -> int
    decreases depth, 0nat, moves.len(),
{
    if depth == 0 || moves.len() == 0 {
        0
    } else {
        let child = state_after(g, moves.last());
        perft_sum(g, moves.drop_last(), depth) + if child.is_over() {
            0
        } else {
            perft(child, (depth - 1) as nat)
        }
    }
}

pub open spec fn saturated(n: int) -> u64 {
    if n >= u64::MAX {
        u64::MAX
    } else {
        n as u64
    }
}

proof fn lemma_perft_nonneg(g: Gamestate, depth: nat)
    ensures
        perft(g, depth) >= 0,
    decreases depth, 1nat, 0nat,
{
    if depth > 0 {
        lemma_perft_sum_nonneg(g, g.board.legal_moves(g.to_move()), depth);
    }
}

proof fn lemma_perft_sum_nonneg(g: Gamestate, moves: Seq<Move>, depth: nat)
    ensures
        perft_sum(g, moves, depth) >= 0,
    decreases depth, 0nat, moves.len(),
{
    if depth > 0 && moves.len() > 0 {
        lemma_perft_sum_nonneg(g, moves.drop_last(), depth);
        lemma_perft_nonneg(state_after(g, moves.last()), (depth - 1) as nat);
    }
}

/// Counts the move sequences of length `depth` from `starting_position` (none for depth 0),
/// saturating at the largest 64-bit value.
pub fn perft_up_to(starting_position: Gamestate, depth: u32) -> (r: u64)
    requires
        searchable(starting_position),
    ensures
        depth == 0 ==> r == 0,
        depth > 0 ==> r == saturated(perft(starting_position, (depth - 1) as nat)),
{
    if depth == 0 {
        0
    } else {
        perft_recursive(&starting_position, depth - 1)
    }
}

fn perft_recursive(state: &Gamestate, depth: u32) -> (r: u64)
    requires
        searchable(*state),
    ensures
        r == saturated(perft(*state, depth as nat)),
    decreases depth,
{
    let team = state.current_player();
    if depth == 0 {
        return state.count_moves(team) as u64;
    }
    let moves = state.available_moves(team);
    let ghost ms = thin_moves(moves);
    let n = move_count(&moves);
    proof {
        state.board.lemma_legal_moves_can_move(team);
        assert(ms.take(n as int) =~= ms);
        assert(ms.take(0) =~= Seq::<Move>::empty());
    }
    let mut count: u64 = 0;
    let mut i: usize = 0;
    while i < n
        invariant
            0 <= i <= n,
            n == ms.len(),
            ms == thin_moves(moves),
            ms == state.board.legal_moves(team),
            team == state.to_move(),
            depth > 0,
            searchable(*state),
            forall|j: int| 0 <= j < ms.len() ==> can_move(state.board.view(), #[trigger] ms[j], team),
            count == saturated(perft_sum(*state, ms.take(i as int), depth as nat)),
        decreases n - i,
    {
        let m = move_at(&moves, i);
        let mut child = *state;
        proof {
            assert(can_move(state.board.view(), ms[i as int], team));
            assert(ms.take(i + 1).drop_last() =~= ms.take(i as int));
            assert(ms.take(i + 1).last() == ms[i as int]);
            lemma_perft_sum_nonneg(*state, ms.take(i as int), depth as nat);
        }
        child.apply_move(&m);
        if !child.game_over() {
            let sub = perft_recursive(&child, depth - 1);
            proof {
                lemma_perft_nonneg(child, (depth - 1) as nat);
            }
            count = if count > u64::MAX - sub {
                u64::MAX
            } else {
                count + sub
            };
        }
        i = i + 1;
    }
    count
}

} // verus!
