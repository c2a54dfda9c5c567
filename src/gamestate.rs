use vstd::prelude::*;

use thincollections::thin_vec::ThinVec;

use crate::bitboard::{bit, count_ones, popcount, rotate180_spec, Bitboard};
use crate::board::{
    after_move, bits_below, board_after, can_move, lemma_bits_below_popcount, move_points, Board,
    MoveVisitor,
};
use crate::pieces::{opponent_spec, Move, Team};
use crate::thin::thin_moves;
use crate::zobrist::{
    board_hash, hash_for_score, hash_for_square, lemma_board_hash_update, position_hash,
    square_key,
};

verus! {

/// The team to move at `turn`: team `ONE` on odd turns.
pub open spec fn player_at(turn: u8) -> Team {
    if turn % 2 == 1 {
        Team::ONE
    } else {
        Team::TWO
    }
}

/// The game ends after a move of team `ONE` once a team has two points, or at turn 60.
pub open spec fn over(turn: u8, ambers: [u8; 2]) -> bool {
    (turn % 2 == 0 && (ambers[0] >= 2 || ambers[1] >= 2)) || turn >= 60
}

/// The score pair after `team` earns `points`.
pub open spec fn add_points(ambers: [u8; 2], team: Team, points: u8) -> [u8; 2] {
    if team == Team::ONE {
        [(ambers[0] + points) as u8, ambers[1]]
    } else {
        [ambers[0], (ambers[1] + points) as u8]
    }
}

/// The light pieces of `team` on rank `r`, counted.
pub open spec fn light_on_rank(b: Board, team: Team, r: u64) -> nat {
    let light = b.moewen.bits | b.seesterne.bits | b.muscheln.bits;
    popcount(((light & b.team_mask(team)) >> (8 * r) as u64) & 0xFF)
}

/// The light pieces of `team` on the `i`-th rank counted from the opponent's side.
pub open spec fn advanced(b: Board, team: Team, i: u64) -> nat {
    if team == Team::ONE {
        light_on_rank(b, team, (7 - i) as u64)
    } else {
        light_on_rank(b, team, i)
    }
}

/// The tie-break of equal scores: going from the opponent's side rank by rank, the first
/// rank where one team has more light pieces than the other decides.
pub open spec fn draw_winner_from(b: Board, i: u64) -> Option<Team>
    decreases 8 - i,
{
    if i >= 8 {
        None
    } else if advanced(b, Team::ONE, i) > advanced(b, Team::TWO, i) {
        Some(Team::ONE)
    } else if advanced(b, Team::ONE, i) < advanced(b, Team::TWO, i) {
        Some(Team::TWO)
    } else {
        draw_winner_from(b, (i + 1) as u64)
    }
}

/// The state after the move `m` of the team to move.
pub open spec fn state_after(g: Gamestate, m: Move) -> Gamestate {
    let team = player_at(g.turn);
    let board = board_after(g.board, m, team);
    let ambers = add_points(g.ambers, team, move_points(g.board.view(), m, team));
    Gamestate {
        board,
        turn: (g.turn + 1) as u8,
        ambers,
        hash: position_hash(board.view(), ambers),
    }
}

/// A game state: the board, the turn counter, the points of both teams (team `ONE` first),
/// and the hash of board and points, kept up to date move by move.
#[derive(Clone, Copy, Debug)]
pub struct Gamestate {
    pub board: Board,
    pub turn: u8,
    pub ambers: [u8; 2],
    pub hash: u64,
}

impl PartialEq for Gamestate {
    fn eq(&self, o: &Gamestate) -> (r: bool) {
        self.board == o.board && self.turn == o.turn && self.ambers[0] == o.ambers[0]
            && self.ambers[1] == o.ambers[1] && self.hash == o.hash
    }
}

impl vstd::std_specs::cmp::PartialEqSpecImpl for Gamestate {
    open spec fn obeys_eq_spec() -> bool {
        true
    }

    open spec fn eq_spec(&self, o: &Gamestate) -> bool {
        self.board == o.board && self.turn == o.turn && self.ambers[0] == o.ambers[0]
            && self.ambers[1] == o.ambers[1] && self.hash == o.hash
    }
}

impl Gamestate {
    pub open spec fn wf(self) -> bool {
        &&& self.board.wf()
        &&& self.hash == position_hash(self.board.view(), self.ambers)
    }

    pub open spec fn to_move(self) -> Team {
        player_at(self.turn)
    }

    pub open spec fn is_over(self) -> bool {
        over(self.turn, self.ambers)
    }

    /// A state at turn 1 with no points on `board`.
    pub fn new(board: Board) -> (r: Self)
        requires
            board.wf(),
        ensures
            r.wf(),
            r.board == board,
            r.turn == 1,
            r.ambers == [0u8, 0u8],
    {
        Self::new_with(board, 1, [0, 0])
    }

    /// A state with the given board, turn and points.
    pub fn new_with(board: Board, turn: u8, ambers: [u8; 2]) -> (r: Self)
        requires
            board.wf(),
        ensures
            r.wf(),
            r.board == board,
            r.turn == turn,
            r.ambers == ambers,
    {
        let mut g = Gamestate { board, turn, ambers, hash: 0 };
        g.hash = g.recalculate_hash();
        g
    }

    /// The hash of board and points, computed from scratch.
    pub fn recalculate_hash(&self) -> (r: u64)
        ensures
            r == position_hash(self.board.view(), self.ambers),
    {
        let ghost v = self.board.view();
        let mut h: u64 = 0;
        let mut s: u8 = 0;
        while s < 64
            invariant
                s <= 64,
                v == self.board.view(),
                h == board_hash(v, s as nat),
            decreases 64 - s,
        {
            let k = hash_for_square(self.board.piece_at(s), s);
            h = h ^ k;
            s = s + 1;
        }
        h ^ hash_for_score(self.ambers)
    }

    /// The team to move: team `ONE` on odd turns.
    pub fn current_player(&self) -> (r: Team)
        ensures
            r == self.to_move(),
    {
        if self.turn % 2 == 1 {
            Team::ONE
        } else {
            Team::TWO
        }
    }

    /// Whether the game has ended.
    pub fn game_over(&self) -> (r: bool)
        ensures
            r == self.is_over(),
    {
        (self.turn % 2 == 0 && (self.ambers[0] >= 2 || self.ambers[1] >= 2)) || self.turn >= 60
    }

    /// The moves of `team`.
    pub fn available_moves(&self, team: Team) -> (r: ThinVec<Move>)
        ensures
            thin_moves(r) == self.board.legal_moves(team),
    {
        self.board.available_moves(team)
    }

    /// The moves of the team to move.
    pub fn available_moves_current_player(&self) -> (r: ThinVec<Move>)
        ensures
            thin_moves(r) == self.board.legal_moves(self.to_move()),
    {
        self.board.available_moves(self.current_player())
    }

    /// Number of moves of `team`.
    pub fn count_moves(&self, team: Team) -> (r: u32)
        ensures
            r == self.board.legal_moves(team).len(),
            r <= 16384,
    {
        self.board.count_moves(team)
    }

    /// Number of moves of the team to move (`friendly`) or of its opponent.
    pub fn legal_moves_count(&self, friendly: bool) -> (r: i32)
        ensures
            r == self.board.legal_moves(
                if friendly {
                    self.to_move()
                } else {
                    crate::pieces::opponent_spec(self.to_move())
                },
            ).len(),
    {
        let team = if friendly {
            self.current_player()
        } else {
            self.current_player().opponent()
        };
        self.board.count_moves(team) as i32
    }

    /// Hands each move of `team` to `f`.
    pub fn for_each_move<V: MoveVisitor>(&self, team: Team, f: &mut V)
        requires
            old(f).visited().len() + 16384 < usize::MAX,
        ensures
            final(f).visited() == old(f).visited() + self.board.legal_moves(team),
    {
        self.board.for_each_move(team, f)
    }

    /// Applies a move of the team to move: the board changes, the points it earns go to that
    /// team, the turn advances, and the hash follows by updating only the two squares and the
    /// points that changed.
    pub fn apply_move(&mut self, game_move: &Move)
        requires
            old(self).wf(),
            can_move(old(self).board.view(), *game_move, old(self).to_move()),
            old(self).turn < 255,
            old(self).ambers[team_slot(old(self).to_move())] <= 253,
        ensures
            final(self).wf(),
            final(self).hash == position_hash(final(self).board.view(), final(self).ambers),
            *final(self) == state_after(*old(self), *game_move),
            final(self).board.view() == after_move(
                old(self).board.view(),
                *game_move,
                old(self).to_move(),
            ),
    {
        let ghost old_state = *self;
        let ghost v = self.board.view();
        let team = self.current_player();
        let from = game_move.from;
        let to = game_move.to;
        let before = hash_for_square(self.board.piece_at(from), from) ^ hash_for_square(
            self.board.piece_at(to),
            to,
        ) ^ hash_for_score(self.ambers);
        let points = self.board.apply_move(game_move, team);
        let i = team.index();
        if i == 0 {
            self.ambers = [self.ambers[0] + points, self.ambers[1]];
        } else {
            self.ambers = [self.ambers[0], self.ambers[1] + points];
        }
        self.turn = self.turn + 1;
        let after = hash_for_square(self.board.piece_at(from), from) ^ hash_for_square(
            self.board.piece_at(to),
            to,
        ) ^ hash_for_score(self.ambers);
        self.hash = self.hash ^ before ^ after;
        proof {
            let w = self.board.view();
            let a_old = old_state.ambers;
            let a_new = self.ambers;
            let f = from as int;
            let t = to as int;
            let v1 = v.update(f, None::<crate::pieces::Piece>);
            assert(w == v1.update(t, w[t]));
            lemma_board_hash_update(v, f, None, 64);
            lemma_board_hash_update(v1, t, w[t], 64);
            assert(v1[t] == if f == t { None } else { v[t] });
            assert(w[f] == if f == t { w[t] } else { None });
            let hv = board_hash(v, 64);
            let kf = square_key(v[f], f as u64);
            let kt = square_key(v[t], t as u64);
            let nf = square_key(w[f], f as u64);
            let nt = square_key(w[t], t as u64);
            let so = crate::zobrist::score_key(a_old);
            let sn = crate::zobrist::score_key(a_new);
            assert(f != t);
            assert(board_hash(w, 64) == hv ^ (kf ^ 0u64) ^ (kt ^ nt));
            assert(self.hash == (hv ^ so) ^ (kf ^ kt ^ so) ^ (nf ^ nt ^ sn));
            assert(nf == 0u64);
            assert((hv ^ so) ^ (kf ^ kt ^ so) ^ (0u64 ^ nt ^ sn) == hv ^ (kf ^ 0u64) ^ (kt ^ nt) ^ sn)
                by (bit_vector);
            assert(self.ambers =~= add_points(a_old, team, points));
        }
    }

    /// The winner of a finished game: the team with more points, else the tie-break of
    /// `wins_draw`. `None` while the game runs or when even the tie-break is equal.
    pub fn winner(&self) -> (r: Option<Team>)
        ensures
            r == (if !self.is_over() {
                None
            } else if self.ambers[0] > self.ambers[1] {
                Some(Team::ONE)
            } else if self.ambers[0] < self.ambers[1] {
                Some(Team::TWO)
            } else {
                draw_winner_from(self.board, 0)
            }),
    {
        if !self.game_over() {
            None
        } else if self.ambers[0] > self.ambers[1] {
            Some(Team::ONE)
        } else if self.ambers[0] < self.ambers[1] {
            Some(Team::TWO)
        } else {
            self.wins_draw()
        }
    }

    /// The tie-break of equal points: each team's light pieces are counted rank by rank,
    /// starting on the opponent's back rank; the first rank with different counts decides.
    pub fn wins_draw(&self) -> (r: Option<Team>)
        ensures
            r == draw_winner_from(self.board, 0),
    {
        let light = self.board.moewen.bits | self.board.seesterne.bits | self.board.muscheln.bits;
        let red = light & self.board.red.bits;
        let blue = light & self.board.blue.bits;
        let mut i: u64 = 0;
        while i < 8
            invariant
                i <= 8,
                red == (self.board.moewen.bits | self.board.seesterne.bits | self.board.muscheln.bits)
                    & self.board.team_mask(Team::ONE),
                blue == (self.board.moewen.bits | self.board.seesterne.bits | self.board.muscheln.bits)
                    & self.board.team_mask(Team::TWO),
                draw_winner_from(self.board, 0) == draw_winner_from(self.board, i),
            decreases 8 - i,
        {
            let ones_r = count_ones((red >> (8 * (7 - i))) & 0xFF);
            let ones_b = count_ones((blue >> (8 * i)) & 0xFF);
            if ones_r > ones_b {
                return Some(Team::ONE);
            } else if ones_r < ones_b {
                return Some(Team::TWO);
            }
            i = i + 1;
        }
        None
    }
}

/// Position of a team in the score pair.
pub open spec fn team_slot(t: Team) -> int {
    if t == Team::ONE {
        0
    } else {
        1
    }
}

/// The board seen from the other side: colours swapped and every mask turned by half a
/// revolution.
pub open spec fn swapped(b: Board) -> Board {
    Board {
        red: Bitboard { bits: rotate180_spec(b.blue.bits) },
        blue: Bitboard { bits: rotate180_spec(b.red.bits) },
        seesterne: Bitboard { bits: rotate180_spec(b.seesterne.bits) },
        muscheln: Bitboard { bits: rotate180_spec(b.muscheln.bits) },
        moewen: Bitboard { bits: rotate180_spec(b.moewen.bits) },
        robben: Bitboard { bits: rotate180_spec(b.robben.bits) },
        double: Bitboard { bits: rotate180_spec(b.double.bits) },
    }
}

/// The rank `7 - i` of a turned word holds the bits of rank `i` in reverse order, so as
/// many of them.
proof fn lemma_turned_rank(x: u64, i: u64)
    requires
        i < 8,
    ensures
        popcount((rotate180_spec(x) >> (8 * (7 - i)) as u64) & 0xFF) == popcount((x >> (8 * i) as u64)
            & 0xFF),
{
    let y = (x >> (8 * i) as u64) & 0xFF;
    let z = (rotate180_spec(x) >> (8 * (7 - i)) as u64) & 0xFF;
    assert(y < 256 && z < 256 && bit(z, 0) == bit(y, 7) && bit(z, 1) == bit(y, 6) && bit(z, 2) == bit(y, 5)
        && bit(z, 3) == bit(y, 4) && bit(z, 4) == bit(y, 3) && bit(z, 5) == bit(y, 2) && bit(z, 6) == bit(y, 1)
        && bit(z, 7) == bit(y, 0)) by (bit_vector)
        requires
            i < 8,
            y == (x >> (8 * i) as u64) & 0xFF,
            z == (rotate180_spec(x) >> (8 * (7 - i)) as u64) & 0xFF,
    ;
    vstd::arithmetic::power2::lemma2_to64();
    lemma_bits_below_popcount(y, 8);
    lemma_bits_below_popcount(z, 8);
    reveal_with_fuel(bits_below, 9);
}

/// Turning words by half a revolution commutes with `and` and `or`.
proof fn lemma_turn_ops(a: u64, b: u64)
    ensures
        rotate180_spec(a & b) == rotate180_spec(a) & rotate180_spec(b),
        rotate180_spec(a | b) == rotate180_spec(a) | rotate180_spec(b),
{
    assert(rotate180_spec(a & b) == rotate180_spec(a) & rotate180_spec(b) && rotate180_spec(a | b)
        == rotate180_spec(a) | rotate180_spec(b)) by (bit_vector);
}

proof fn lemma_swapped_advanced(b: Board, i: u64)
    requires
        i < 8,
    ensures
        advanced(swapped(b), Team::ONE, i) == advanced(b, Team::TWO, i),
        advanced(swapped(b), Team::TWO, i) == advanced(b, Team::ONE, i),
{
    let light = b.moewen.bits | b.seesterne.bits | b.muscheln.bits;
    lemma_turn_ops(b.moewen.bits, b.seesterne.bits);
    lemma_turn_ops(b.moewen.bits | b.seesterne.bits, b.muscheln.bits);
    lemma_turn_ops(light, b.blue.bits);
    lemma_turn_ops(light, b.red.bits);
    lemma_turned_rank(light & b.blue.bits, i);
    lemma_turned_rank(light & b.red.bits, (7 - i) as u64);
    assert((7 - (7 - i) as u64) as u64 == i);
}

proof fn lemma_swapped_draw_from(b: Board, i: u64)
    requires
        i <= 8,
    ensures
        draw_winner_from(swapped(b), i) == match draw_winner_from(b, i) {
            Some(t) => Some(opponent_spec(t)),
            None => None,
        },
    decreases 8 - i,
{
    if i < 8 {
        lemma_swapped_advanced(b, i);
        lemma_swapped_draw_from(b, (i + 1) as u64);
    }
}

/// The tie-break picks the same physical side from either point of view: on the board seen
/// from the other side (colours swapped, turned by half a revolution) it names the other
/// colour.
pub proof fn lemma_tie_break_symmetric(b: Board)
    ensures
        draw_winner_from(swapped(b), 0) == match draw_winner_from(b, 0) {
            Some(t) => Some(opponent_spec(t)),
            None => None,
        },
{
    lemma_swapped_draw_from(b, 0);
}

} // verus!
