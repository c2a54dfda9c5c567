use vstd::prelude::*;

use crate::bitboard::{count_ones, lemma_popcount_bound, popcount};
use crate::gamestate::{draw_winner_from, team_slot, Gamestate};
use crate::pieces::Team;

verus! {

/// The weights of an evaluation function. Positive values favour the team asked about.
#[derive(Clone, Copy, Debug, PartialEq, Eq, Structural)]
pub struct EvalWeights {
    /// Per point of score difference.
    pub points: i32,
    /// Per stack more than the opponent.
    pub stacked: i32,
    /// Per piece more than the opponent.
    pub pieces: i32,
    /// Per move more than the opponent.
    pub mobility: i32,
    /// Added for a won finished game, taken away for a lost one.
    pub win: i32,
    /// Added for a finished game of equal points won on the tie-break, taken away when lost.
    pub tiebreak: i32,
    /// Added for a finished game that stays equal after the tie-break.
    pub tie: i32,
}

impl EvalWeights {
    /// The weights the engine plays with.
    pub fn classic() -> (r: EvalWeights)
        ensures
            r == (EvalWeights {
                points: 10000,
                stacked: 1000,
                pieces: 100,
                mobility: 1,
                win: 100000,
                tiebreak: 50000,
                tie: 1000,
            }),
    {
        EvalWeights {
            points: 10000,
            stacked: 1000,
            pieces: 100,
            mobility: 1,
            win: 100000,
            tiebreak: 50000,
            tie: 1000,
        }
    }
}

/// The weighted material, stack, piece and mobility balance, from team `ONE`'s side.
pub open spec fn balance(g: Gamestate, w: EvalWeights) -> int {
    let b = g.board;
    (g.ambers[0] - g.ambers[1]) * w.points + (popcount(b.red.bits & b.double.bits) - popcount(
        b.blue.bits & b.double.bits,
    )) * w.stacked + (popcount(b.red.bits) - popcount(b.blue.bits)) * w.pieces + (b.legal_moves(
        Team::ONE,
    ).len() - b.legal_moves(Team::TWO).len()) * w.mobility
}

/// The reward of a finished game for `team`; nothing while the game runs.
pub open spec fn outcome(g: Gamestate, team: Team, w: EvalWeights) -> int {
    let mine = g.ambers[team_slot(team)];
    let theirs = g.ambers[1 - team_slot(team)];
    if !g.is_over() {
        0
    } else if mine > theirs {
        w.win as int
    } else if mine < theirs {
        -w.win
    } else {
        match draw_winner_from(g.board, 0) {
            Some(t) => if t == team {
                w.tiebreak as int
            } else {
                -w.tiebreak
            },
            None => w.tie as int,
        }
    }
}

/// The value of `g` for `team`.
pub open spec fn evaluation(g: Gamestate, team: Team, w: EvalWeights) -> int {
    (if team == Team::ONE {
        balance(g, w)
    } else {
        -balance(g, w)
    }) + outcome(g, team, w)
}

/// Evaluating for team `ONE` and negating gives the value for team `TWO`, unless the game
/// ended equal even after the tie-break (then both sides receive the tie reward). In
/// particular both sides see the same winner of a tie-break.
pub proof fn lemma_evaluation_antisymmetric(g: Gamestate, w: EvalWeights)
    requires
        !(g.is_over() && g.ambers[0] == g.ambers[1] && draw_winner_from(g.board, 0) is None),
    ensures
        evaluation(g, Team::ONE, w) == -evaluation(g, Team::TWO, w),
        outcome(g, Team::ONE, w) == -outcome(g, Team::TWO, w),
{
}

proof fn lemma_scaled(x: int, k: i32, bound: int)
    requires
        -bound <= x <= bound,
        0 <= bound <= 0x10000,
    ensures
        -0x8000_0000_0000 <= x * k <= 0x8000_0000_0000,
{
    assert(-0x8000_0000_0000 <= x * k <= 0x8000_0000_0000) by (nonlinear_arith)
        requires
            -bound <= x <= bound,
            0 <= bound <= 0x10000,
            -0x8000_0000 <= k < 0x8000_0000,
    ;
}

/// Every value of the evaluation fits the 64-bit range with room to spare.
pub proof fn lemma_evaluation_range(g: Gamestate, team: Team, w: EvalWeights)
    ensures
        -0x4000_0000_0000_0000 < evaluation(g, team, w) < 0x4000_0000_0000_0000,
{
    let b = g.board;
    vstd::arithmetic::power2::lemma2_to64();
    lemma_popcount_bound(b.red.bits & b.double.bits, 64);
    lemma_popcount_bound(b.blue.bits & b.double.bits, 64);
    lemma_popcount_bound(b.red.bits, 64);
    lemma_popcount_bound(b.blue.bits, 64);
    b.lemma_kind_moves_len(crate::pieces::PieceType::Moewe, Team::ONE, 64);
    b.lemma_kind_moves_len(crate::pieces::PieceType::Robbe, Team::ONE, 64);
    b.lemma_kind_moves_len(crate::pieces::PieceType::Seestern, Team::ONE, 64);
    b.lemma_kind_moves_len(crate::pieces::PieceType::Herzmuschel, Team::ONE, 64);
    b.lemma_kind_moves_len(crate::pieces::PieceType::Moewe, Team::TWO, 64);
    b.lemma_kind_moves_len(crate::pieces::PieceType::Robbe, Team::TWO, 64);
    b.lemma_kind_moves_len(crate::pieces::PieceType::Seestern, Team::TWO, 64);
    b.lemma_kind_moves_len(crate::pieces::PieceType::Herzmuschel, Team::TWO, 64);
    lemma_scaled(g.ambers[0] - g.ambers[1], w.points, 255);
    lemma_scaled(
        popcount(b.red.bits & b.double.bits) - popcount(b.blue.bits & b.double.bits),
        w.stacked,
        64,
    );
    lemma_scaled(popcount(b.red.bits) - popcount(b.blue.bits), w.pieces, 64);
    lemma_scaled(
        b.legal_moves(Team::ONE).len() - b.legal_moves(Team::TWO).len(),
        w.mobility,
        16384,
    );
}

/// The value of `state` for `team` under the weights `w`.
pub fn evaluate(state: &Gamestate, team: Team, w: &EvalWeights) -> (r: i64)
    ensures
        r == evaluation(*state, team, *w),
{
    let b = &state.board;
    let red = b.red.bits;
    let blue = b.blue.bits;
    let double = b.double.bits;
    let d_points: i64 = state.ambers[0] as i64 - state.ambers[1] as i64;
    let d_stacked: i64 = count_ones(red & double) as i64 - count_ones(blue & double) as i64;
    let d_pieces: i64 = count_ones(red) as i64 - count_ones(blue) as i64;
    let m1 = b.count_moves(Team::ONE);
    let m2 = b.count_moves(Team::TWO);
    let d_moves: i64 = m1 as i64 - m2 as i64;
    proof {
        lemma_scaled(d_points as int, w.points, 255);
        lemma_scaled(d_stacked as int, w.stacked, 64);
        lemma_scaled(d_pieces as int, w.pieces, 64);
        lemma_scaled(d_moves as int, w.mobility, 16384);
    }
    let mut eval: i64 = d_points * w.points as i64 + d_stacked * w.stacked as i64 + d_pieces
        * w.pieces as i64 + d_moves * w.mobility as i64;
    if team == Team::TWO {
        eval = -eval;
    }
    if state.game_over() {
        let (mine, theirs) = match team {
            Team::ONE => (state.ambers[0], state.ambers[1]),
            Team::TWO => (state.ambers[1], state.ambers[0]),
        };
        let reward: i64 = if mine > theirs {
            w.win as i64
        } else if mine < theirs {
            -(w.win as i64)
        } else {
            match state.wins_draw() {
                Some(t) => if t == team {
                    w.tiebreak as i64
                } else {
                    -(w.tiebreak as i64)
                },
                None => w.tie as i64,
            }
        };
        eval = eval + reward;
    }
    eval
}

} // verus!
