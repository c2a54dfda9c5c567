use vstd::prelude::*;

use crate::bitboard::{
    bit, count_ones, lemma_bit_ops, lemma_bits_equal, lemma_moved_mask_bit,
    lemma_rotate180_square, moved_mask, popcount, rotate180_spec, Bitboard,
};
use crate::rng::shuffle_kinds;
use rand::rngs::StdRng;
use crate::move_generation::{
    moewe_lookup_moves, moewe_reach, muschel_lookup_moves, muschel_reach, robbe_lookup_moves,
    robbe_reach, seestern_lookup_moves, seestern_reach,
};
use crate::pieces::{is_light_spec, opponent_spec, Move, Piece, PieceType, Team};
use crate::thin::{new_move_list, push_move, thin_moves};
use thincollections::thin_vec::ThinVec;

verus! {

/// The squares of rank 7, the finish line of team `ONE`.
pub const TOP_RANK: u64 = 0xFF00000000000000;

/// The squares of rank 0, the finish line of team `TWO`.
pub const BOTTOM_RANK: u64 = 0xFF;

/// What stands on each of the 64 squares.
pub type Position = Seq<Option<Piece>>;

/// Whether square `s` lies on the rank farthest from the start of `team`.
pub open spec fn on_finish_rank(team: Team, s: u64) -> bool {
    if team == Team::ONE {
        56 <= s < 64
    } else {
        s < 8
    }
}

/// Whether `m` is a move that `team` can make in `v`: a piece of the team and of the
/// move's kind stands on `from`, and `to` is a square not held by the team.
pub open spec fn can_move(v: Position, m: Move, team: Team) -> bool {
    &&& v.len() == 64
    &&& m.from < 64
    &&& m.to < 64
    &&& v[m.from as int] is Some
    &&& v[m.from as int].unwrap().team == team
    &&& v[m.from as int].unwrap().piece_type == m.piece
    &&& (v[m.to as int] is Some ==> v[m.to as int].unwrap().team != team)
}

/// The move captures an opponent piece while the mover or the captured piece is a stack:
/// both leave the board.
pub open spec fn stack_capture(v: Position, m: Move) -> bool {
    v[m.to as int] is Some && (v[m.from as int].unwrap().stacked || v[m.to as int].unwrap().stacked)
}

/// A light piece arriving on its finish rank leaves the board.
pub open spec fn reaches_finish(m: Move, team: Team) -> bool {
    is_light_spec(m.piece) && on_finish_rank(team, m.to as u64)
}

/// What stands on the destination after the move.
pub open spec fn landing(v: Position, m: Move, team: Team) -> Option<Piece> {
    if stack_capture(v, m) || reaches_finish(m, team) {
        None
    } else {
        Some(
            Piece {
                piece_type: m.piece,
                team,
                stacked: v[m.to as int] is Some || v[m.from as int].unwrap().stacked,
            },
        )
    }
}

/// The position after `team` makes the move `m`.
pub open spec fn after_move(v: Position, m: Move, team: Team) -> Position {
    v.update(m.from as int, None).update(m.to as int, landing(v, m, team))
}

/// The points the move earns: one for a capture involving a stack, one for reaching the
/// finish rank with a light piece.
pub open spec fn move_points(v: Position, m: Move, team: Team) -> u8 {
    ((if stack_capture(v, m) { 1int } else { 0int }) + (if reaches_finish(m, team) { 1int } else { 0int })) as u8
}

proof fn lemma_square_bits(a: Board, b: Board, s: u64)
    requires
        s < 64,
        a.square_ok(s),
        b.square_ok(s),
        a.occupant(s) == b.occupant(s),
    ensures
        bit(a.red.bits, s) == bit(b.red.bits, s),
        bit(a.blue.bits, s) == bit(b.blue.bits, s),
        bit(a.robben.bits, s) == bit(b.robben.bits, s),
        bit(a.muscheln.bits, s) == bit(b.muscheln.bits, s),
        bit(a.moewen.bits, s) == bit(b.moewen.bits, s),
        bit(a.seesterne.bits, s) == bit(b.seesterne.bits, s),
        bit(a.double.bits, s) == bit(b.double.bits, s),
{
}

/// Two well-formed boards with the same pieces on every square are the same board.
pub proof fn lemma_view_determines_board(a: Board, b: Board)
    requires
        a.wf(),
        b.wf(),
        a.view() == b.view(),
    ensures
        a == b,
{
    assert forall|s: u64| s < 64 implies #[trigger] a.occupant(s) == b.occupant(s) by {
        assert(a.view()[s as int] == b.view()[s as int]);
    }
    assert forall|s: u64| s < 64 implies #[trigger] bit(a.red.bits, s) == bit(b.red.bits, s) by {
        lemma_square_bits(a, b, s);
    }
    assert forall|s: u64| s < 64 implies #[trigger] bit(a.blue.bits, s) == bit(b.blue.bits, s) by {
        lemma_square_bits(a, b, s);
    }
    assert forall|s: u64| s < 64 implies #[trigger] bit(a.robben.bits, s) == bit(b.robben.bits, s) by {
        lemma_square_bits(a, b, s);
    }
    assert forall|s: u64| s < 64 implies #[trigger] bit(a.muscheln.bits, s) == bit(b.muscheln.bits, s) by {
        lemma_square_bits(a, b, s);
    }
    assert forall|s: u64| s < 64 implies #[trigger] bit(a.moewen.bits, s) == bit(b.moewen.bits, s) by {
        lemma_square_bits(a, b, s);
    }
    assert forall|s: u64| s < 64 implies #[trigger] bit(a.seesterne.bits, s) == bit(b.seesterne.bits, s) by {
        lemma_square_bits(a, b, s);
    }
    assert forall|s: u64| s < 64 implies #[trigger] bit(a.double.bits, s) == bit(b.double.bits, s) by {
        lemma_square_bits(a, b, s);
    }
    lemma_bits_equal(a.red.bits, b.red.bits);
    lemma_bits_equal(a.blue.bits, b.blue.bits);
    lemma_bits_equal(a.robben.bits, b.robben.bits);
    lemma_bits_equal(a.muscheln.bits, b.muscheln.bits);
    lemma_bits_equal(a.moewen.bits, b.moewen.bits);
    lemma_bits_equal(a.seesterne.bits, b.seesterne.bits);
    lemma_bits_equal(a.double.bits, b.double.bits);
}

/// A move earns two points exactly when it captures with a stack involved and reaches the
/// finish rank, one point when exactly one of the two happens, and none otherwise; in
/// particular a quiet move earns nothing.
pub proof fn lemma_move_points_cases(v: Position, m: Move, team: Team)
    ensures
        move_points(v, m, team) <= 2,
        move_points(v, m, team) == 2 <==> (stack_capture(v, m) && reaches_finish(m, team)),
        move_points(v, m, team) == 1 <==> (stack_capture(v, m) != reaches_finish(m, team)),
        move_points(v, m, team) == 0 <==> (!stack_capture(v, m) && !reaches_finish(m, team)),
        v[m.to as int] is None && !reaches_finish(m, team) ==> move_points(v, m, team) == 0,
{
}

pub open spec fn flag(b: bool) -> int {
    if b {
        1
    } else {
        0
    }
}

/// The squares a piece of `kind` and `team` on square `s` reaches on an empty board.
pub open spec fn reach(kind: PieceType, team: Team, s: u64) -> u64 {
    match kind {
        PieceType::Robbe => robbe_reach(1u64 << s),
        PieceType::Moewe => moewe_reach(1u64 << s),
        PieceType::Seestern => seestern_reach(1u64 << s, team),
        PieceType::Herzmuschel => muschel_reach(1u64 << s, team),
    }
}

/// The moves of the piece of `kind` on `from` to the squares of `mask` below `n`, in
/// ascending order of destination.
pub open spec fn dest_moves(from: u8, kind: PieceType, mask: u64, n: nat) -> Seq<Move>
    decreases n,
{
    if n == 0 {
        Seq::empty()
    } else {
        let prev = dest_moves(from, kind, mask, (n - 1) as nat);
        if bit(mask, (n - 1) as u64) {
            prev.push(Move { from, to: (n - 1) as u8, piece: kind })
        } else {
            prev
        }
    }
}

/// Number of set bits of `x` below bit `n`.
pub open spec fn bits_below(x: u64, n: nat) -> nat
    decreases n,
{
    if n == 0 {
        0
    } else {
        bits_below(x, (n - 1) as nat) + (if bit(x, (n - 1) as u64) { 1nat } else { 0nat })
    }
}

pub proof fn lemma_dest_moves_facts(from: u8, kind: PieceType, mask: u64, n: nat)
    requires
        n <= 64,
    ensures
        forall|i: int|
            0 <= i < dest_moves(from, kind, mask, n).len() ==> {
                let m = #[trigger] dest_moves(from, kind, mask, n)[i];
                &&& m.from == from
                &&& m.piece == kind
                &&& m.to < n
                &&& bit(mask, m.to as u64)
            },
    decreases n,
{
    if n > 0 {
        lemma_dest_moves_facts(from, kind, mask, (n - 1) as nat);
    }
}

pub proof fn lemma_dest_moves_len(from: u8, kind: PieceType, mask: u64, n: nat)
    ensures
        dest_moves(from, kind, mask, n).len() == bits_below(mask, n),
        bits_below(mask, n) <= n,
    decreases n,
{
    if n > 0 {
        lemma_dest_moves_len(from, kind, mask, (n - 1) as nat);
    }
}

proof fn lemma_bit_half(x: u64, n: u64)
    requires
        n < 63,
    ensures
        bit(x, (n + 1) as u64) == bit(x / 2, n),
        bit(x, 0) == (x % 2 == 1),
{
    assert(bit(x, (n + 1) as u64) == bit(x / 2, n) && bit(x, 0) == (x % 2 == 1)) by (bit_vector)
        requires
            n < 63,
    ;
}

proof fn lemma_bits_below_shift(x: u64, n: nat)
    requires
        n < 64,
    ensures
        bits_below(x, n + 1) == (if bit(x, 0) { 1nat } else { 0nat }) + bits_below(x / 2, n),
    decreases n,
{
    if n > 0 {
        let m = (n - 1) as nat;
        lemma_bits_below_shift(x, m);
        lemma_bit_half(x, m as u64);
        assert((m as u64 + 1) as u64 == n as u64);
        assert(bits_below(x, n + 1) == bits_below(x, n) + (if bit(x, n as u64) { 1nat } else { 0nat }));
        assert(bits_below(x / 2, n) == bits_below(x / 2, m) + (if bit(x / 2, m as u64) { 1nat } else { 0nat }));
        assert(bit(x, n as u64) == bit(x / 2, m as u64));
    } else {
        assert(bits_below(x, 0) == 0);
        assert(bits_below(x, 1) == (if bit(x, 0) { 1nat } else { 0nat }));
        assert(bits_below(x / 2, 0) == 0);
    }
}

/// Counting the set bits one by one gives the population count.
pub proof fn lemma_bits_below_popcount(x: u64, n: nat)
    requires
        n <= 64,
        x < vstd::arithmetic::power2::pow2(n),
    ensures
        bits_below(x, n) == popcount(x),
    decreases n,
{
    if n == 0 {
        vstd::arithmetic::power2::lemma2_to64();
    } else {
        vstd::arithmetic::power2::lemma_pow2_unfold(n);
        lemma_bits_below_popcount(x / 2, (n - 1) as nat);
        lemma_bits_below_shift(x, (n - 1) as nat);
        lemma_bit_half(x, 0);
        if x == 0 {
            assert(bits_below(x / 2, (n - 1) as nat) == 0);
        }
    }
}

/// One of the move-generation strategies' callbacks: receives the moves one by one.
pub trait MoveVisitor {
    /// The moves received so far.
    spec fn visited(&self) -> Seq<Move>;

    fn visit(&mut self, m: Move)
        requires
            old(self).visited().len() < usize::MAX,
        ensures
            final(self).visited() == old(self).visited().push(m),
    ;
}

/// The masks after `team` makes the move `m`, as `Board::apply_move` computes them.
pub open spec fn board_after(b: Board, m: Move, team: Team) -> Board {
    let f = m.from as u64;
    let t = m.to as u64;
    let friendly = b.team_mask(team);
    let enemy = b.team_mask(opponent_spec(team));
    let captured = bit(enemy, t);
    let from_stacked = bit(b.double.bits, f);
    let stacks_capture = captured && (from_stacked || bit(b.double.bits, t));
    let stays = !stacks_capture && !(is_light_spec(m.piece) && on_finish_rank(team, t));
    let nf = Bitboard { bits: moved_mask(friendly, f, t, stays) };
    let ne = Bitboard { bits: moved_mask(enemy, f, t, false) };
    Board {
        red: if team == Team::ONE { nf } else { ne },
        blue: if team == Team::ONE { ne } else { nf },
        robben: Bitboard { bits: moved_mask(b.robben.bits, f, t, stays && m.piece == PieceType::Robbe) },
        muscheln: Bitboard {
            bits: moved_mask(b.muscheln.bits, f, t, stays && m.piece == PieceType::Herzmuschel),
        },
        moewen: Bitboard { bits: moved_mask(b.moewen.bits, f, t, stays && m.piece == PieceType::Moewe) },
        seesterne: Bitboard {
            bits: moved_mask(b.seesterne.bits, f, t, stays && m.piece == PieceType::Seestern),
        },
        double: Bitboard { bits: moved_mask(b.double.bits, f, t, stays && (captured || from_stacked)) },
    }
}

/// Whether team `team` has a light piece on rank `r`.
pub open spec fn light_on(b: Board, team: Team, r: u64) -> bool {
    (((b.moewen.bits | b.seesterne.bits | b.muscheln.bits) & b.team_mask(team)) >> (8 * r) as u64)
        & 0xFF != 0
}

/// Searching from the opponent's back rank (the `i`-th rank from that side first), the
/// distance from the team's own back rank of the first rank holding a light piece of `team`.
pub open spec fn progress_from(b: Board, team: Team, i: u64) -> u8
    decreases 8 - i,
{
    if i >= 8 {
        0
    } else if light_on(b, team, if team == Team::ONE { (7 - i) as u64 } else { i }) {
        (7 - i) as u8
    } else {
        progress_from(b, team, (i + 1) as u64)
    }
}

/// The kinds of a start position's rank 0: two of each.
pub open spec fn start_kinds() -> Seq<PieceType> {
    seq![
        PieceType::Herzmuschel,
        PieceType::Herzmuschel,
        PieceType::Moewe,
        PieceType::Moewe,
        PieceType::Seestern,
        PieceType::Seestern,
        PieceType::Robbe,
        PieceType::Robbe,
    ]
}

/// The kinds of the pieces on rank 0, file 0 first.
pub open spec fn rank_kinds(v: Position) -> Seq<PieceType> {
    Seq::new(8, |s: int| v[s].unwrap().piece_type)
}

/// Collects the moves it receives.
pub struct MoveList {
    pub moves: ThinVec<Move>,
}

impl MoveVisitor for MoveList {
    open spec fn visited(&self) -> Seq<Move> {
        thin_moves(self.moves)
    }

    fn visit(&mut self, m: Move) {
        push_move(&mut self.moves, m);
    }
}

/// A board: two masks of team occupancy, four of piece kinds, one of stacks.
#[derive(Clone, Copy, Debug, PartialEq, Eq, Structural)]
pub struct Board {
    pub blue: Bitboard,
    pub red: Bitboard,
    pub seesterne: Bitboard,
    pub muscheln: Bitboard,
    pub moewen: Bitboard,
    pub robben: Bitboard,
    pub double: Bitboard,
}

impl Board {
    /// The mask of the pieces of `kind`, of both teams.
    pub open spec fn kind_mask(self, kind: PieceType) -> u64 {
        match kind {
            PieceType::Herzmuschel => self.muscheln.bits,
            PieceType::Moewe => self.moewen.bits,
            PieceType::Seestern => self.seesterne.bits,
            PieceType::Robbe => self.robben.bits,
        }
    }

    /// The mask of the pieces of `team`.
    pub open spec fn team_mask(self, team: Team) -> u64 {
        match team {
            Team::ONE => self.red.bits,
            Team::TWO => self.blue.bits,
        }
    }

    /// The piece on square `s`, read from the masks: its kind from the first kind mask that
    /// holds the square, its team from the mask of team `ONE`.
    pub open spec fn occupant(self, s: u64) -> Option<Piece> {
        let kind = if bit(self.robben.bits, s) {
            Some(PieceType::Robbe)
        } else if bit(self.muscheln.bits, s) {
            Some(PieceType::Herzmuschel)
        } else if bit(self.moewen.bits, s) {
            Some(PieceType::Moewe)
        } else if bit(self.seesterne.bits, s) {
            Some(PieceType::Seestern)
        } else {
            None
        };
        match kind {
            None => None,
            Some(k) => Some(
                Piece {
                    piece_type: k,
                    team: if bit(self.red.bits, s) { Team::ONE } else { Team::TWO },
                    stacked: bit(self.double.bits, s),
                },
            ),
        }
    }

    pub open spec fn view(self) -> Position {
        Seq::new(64, |i: int| self.occupant(i as u64))
    }

    /// Square `s` is held by at most one team, holds exactly one kind when it is held and
    /// none when it is not, and is a stack only when it is held.
    pub open spec fn square_ok(self, s: u64) -> bool {
        let r = bit(self.red.bits, s);
        let b = bit(self.blue.bits, s);
        let kinds = flag(bit(self.robben.bits, s)) + flag(bit(self.muscheln.bits, s)) + flag(
            bit(self.moewen.bits, s),
        ) + flag(bit(self.seesterne.bits, s));
        &&& !(r && b)
        &&& kinds == (if r || b { 1int } else { 0int })
        &&& (bit(self.double.bits, s) ==> r || b)
    }

    pub open spec fn wf(self) -> bool {
        forall|s: u64| s < 64 ==> #[trigger] self.square_ok(s)
    }

    /// Whether a piece of `kind` and `team` stands on square `s`.
    pub open spec fn holds(self, kind: PieceType, team: Team, s: u64) -> bool {
        bit(self.kind_mask(kind) & self.team_mask(team), s)
    }

    /// The destinations of the piece of `kind` and `team` on `s`: the squares it reaches that
    /// its own team does not hold.
    pub open spec fn targets(self, kind: PieceType, team: Team, s: u64) -> u64 {
        reach(kind, team, s) & !self.team_mask(team)
    }

    /// The moves of the pieces of `kind` and `team` on the squares below `n`, by square and
    /// then by destination.
    pub open spec fn kind_moves(self, kind: PieceType, team: Team, n: nat) -> Seq<Move>
        decreases n,
    {
        if n == 0 {
            Seq::empty()
        } else {
            let prev = self.kind_moves(kind, team, (n - 1) as nat);
            let s = (n - 1) as u64;
            if self.holds(kind, team, s) {
                prev + dest_moves(s as u8, kind, self.targets(kind, team, s), 64)
            } else {
                prev
            }
        }
    }

    /// The moves of `team`: those of the Moewen, then the Robben, then the Seesterne, then the
    /// Herzmuscheln.
    pub open spec fn legal_moves(self, team: Team) -> Seq<Move> {
        self.kind_moves(PieceType::Moewe, team, 64) + self.kind_moves(PieceType::Robbe, team, 64)
            + self.kind_moves(PieceType::Seestern, team, 64) + self.kind_moves(
            PieceType::Herzmuschel,
            team,
            64,
        )
    }

    pub proof fn lemma_kind_moves_len(self, kind: PieceType, team: Team, n: nat)
        ensures
            self.kind_moves(kind, team, n).len() <= 64 * n,
        decreases n,
    {
        if n > 0 {
            self.lemma_kind_moves_len(kind, team, (n - 1) as nat);
            let s = (n - 1) as u64;
            lemma_dest_moves_len(s as u8, kind, self.targets(kind, team, s), 64);
        }
    }

    pub proof fn lemma_kind_moves_facts(self, kind: PieceType, team: Team, n: nat)
        requires
            n <= 64,
        ensures
            forall|i: int|
                0 <= i < self.kind_moves(kind, team, n).len() ==> {
                    let m = #[trigger] self.kind_moves(kind, team, n)[i];
                    &&& m.from < n
                    &&& m.to < 64
                    &&& m.piece == kind
                    &&& self.holds(kind, team, m.from as u64)
                    &&& bit(self.targets(kind, team, m.from as u64), m.to as u64)
                },
        decreases n,
    {
        if n > 0 {
            let k = (n - 1) as nat;
            self.lemma_kind_moves_facts(kind, team, k);
            let s = k as u64;
            let prev = self.kind_moves(kind, team, k);
            if self.holds(kind, team, s) {
                let dm = dest_moves(s as u8, kind, self.targets(kind, team, s), 64);
                lemma_dest_moves_facts(s as u8, kind, self.targets(kind, team, s), 64);
                assert forall|i: int| 0 <= i < self.kind_moves(kind, team, n).len() implies {
                    let m = #[trigger] self.kind_moves(kind, team, n)[i];
                    &&& m.from < n
                    &&& m.to < 64
                    &&& m.piece == kind
                    &&& self.holds(kind, team, m.from as u64)
                    &&& bit(self.targets(kind, team, m.from as u64), m.to as u64)
                } by {
                    if i >= prev.len() {
                        assert(self.kind_moves(kind, team, n)[i] == dm[i - prev.len()]);
                    } else {
                        assert(self.kind_moves(kind, team, n)[i] == prev[i]);
                    }
                }
            }
        }
    }

    /// Every generated move is one the team can make.
    pub proof fn lemma_legal_moves_can_move(self, team: Team)
        requires
            self.wf(),
        ensures
            forall|i: int|
                0 <= i < self.legal_moves(team).len() ==> can_move(
                    self.view(),
                    #[trigger] self.legal_moves(team)[i],
                    team,
                ),
    {
        let a = self.kind_moves(PieceType::Moewe, team, 64);
        let b = self.kind_moves(PieceType::Robbe, team, 64);
        let c = self.kind_moves(PieceType::Seestern, team, 64);
        let d = self.kind_moves(PieceType::Herzmuschel, team, 64);
        self.lemma_kind_moves_facts(PieceType::Moewe, team, 64);
        self.lemma_kind_moves_facts(PieceType::Robbe, team, 64);
        self.lemma_kind_moves_facts(PieceType::Seestern, team, 64);
        self.lemma_kind_moves_facts(PieceType::Herzmuschel, team, 64);
        let all = self.legal_moves(team);
        assert forall|i: int| 0 <= i < all.len() implies can_move(self.view(), #[trigger] all[i], team) by {
            let m = all[i];
            let kind = if i < a.len() {
                assert(all[i] == a[i]);
                PieceType::Moewe
            } else if i < a.len() + b.len() {
                assert(all[i] == b[i - a.len()]);
                PieceType::Robbe
            } else if i < a.len() + b.len() + c.len() {
                assert(all[i] == c[i - a.len() - b.len()]);
                PieceType::Seestern
            } else {
                assert(all[i] == d[i - a.len() - b.len() - c.len()]);
                PieceType::Herzmuschel
            };
            let f = m.from as u64;
            let t = m.to as u64;
            assert(self.holds(kind, team, f));
            assert(bit(self.targets(kind, team, f), t));
            assert(self.square_ok(f));
            assert(self.square_ok(t));
            lemma_bit_ops(self.kind_mask(kind), self.team_mask(team), f);
            lemma_bit_ops(reach(kind, team, f), !self.team_mask(team), t);
            lemma_bit_ops(self.team_mask(team), 0, t);
            assert(self.view()[m.from as int] == self.occupant(f));
            assert(self.view()[m.to as int] == self.occupant(t));
        }
    }

    /// Constructs an empty board, with no pieces on it.
    pub fn empty() -> (r: Self)
        ensures
            r.wf(),
            r.view() == Seq::new(64, |i: int| None::<Piece>),
    {
        let b = Board {
            blue: Bitboard::new(),
            red: Bitboard::new(),
            seesterne: Bitboard::new(),
            muscheln: Bitboard::new(),
            moewen: Bitboard::new(),
            robben: Bitboard::new(),
            double: Bitboard::new(),
        };
        proof {
            assert forall|s: u64| #![trigger b.occupant(s)] #![trigger b.square_ok(s)] s < 64 implies b.square_ok(s) && b.occupant(s).is_none() by {
                lemma_bit_ops(0, 0, s);
            }
            assert(b.view() =~= Seq::new(64, |i: int| None::<Piece>));
        }
        b
    }

    /// The pieces of a team.
    pub fn player_pieces(&self, team: Team) -> (r: Bitboard)
        ensures
            r.bits == self.team_mask(team),
    {
        match team {
            Team::ONE => self.red,
            Team::TWO => self.blue,
        }
    }

    /// The piece at a square, or `None` if the square is empty.
    pub fn piece_at(&self, pos: u8) -> (r: Option<Piece>)
        requires
            pos < 64,
        ensures
            r == self.occupant(pos as u64),
    {
        let piece_type = if self.robben.get_bit(pos) {
            PieceType::Robbe
        } else if self.muscheln.get_bit(pos) {
            PieceType::Herzmuschel
        } else if self.moewen.get_bit(pos) {
            PieceType::Moewe
        } else if self.seesterne.get_bit(pos) {
            PieceType::Seestern
        } else {
            return None;
        };
        let stacked = self.double.get_bit(pos);
        let team = if self.red.get_bit(pos) {
            Team::ONE
        } else {
            Team::TWO
        };
        Some(Piece { piece_type, team, stacked })
    }

    /// Whether the set `leichtfigur` meets the finish rank of `piece_team`.
    pub fn on_finish_line(leichtfigur: Bitboard, piece_team: Team) -> (r: bool)
        ensures
            r == (leichtfigur.bits & (if piece_team == Team::ONE { TOP_RANK } else { BOTTOM_RANK })
                != 0),
    {
        match piece_team {
            Team::ONE => (leichtfigur.bits & TOP_RANK) != 0,
            Team::TWO => (leichtfigur.bits & BOTTOM_RANK) != 0,
        }
    }

    /// Puts a piece onto a square, replacing what stood there.
    pub fn set_piece(&mut self, pos: u8, piece: Piece)
        requires
            pos < 64,
        ensures
            final(self).view() == old(self).view().update(pos as int, Some(piece)),
            old(self).wf() ==> final(self).wf(),
    {
        let k = piece.piece_type;
        let one = match piece.team {
            Team::ONE => true,
            Team::TWO => false,
        };
        let old_board = *self;
        self.robben = Bitboard { bits: moved(self.robben.bits, pos, pos, k == PieceType::Robbe) };
        self.muscheln = Bitboard {
            bits: moved(self.muscheln.bits, pos, pos, k == PieceType::Herzmuschel),
        };
        self.moewen = Bitboard { bits: moved(self.moewen.bits, pos, pos, k == PieceType::Moewe) };
        self.seesterne = Bitboard {
            bits: moved(self.seesterne.bits, pos, pos, k == PieceType::Seestern),
        };
        self.red = Bitboard { bits: moved(self.red.bits, pos, pos, one) };
        self.blue = Bitboard { bits: moved(self.blue.bits, pos, pos, !one) };
        self.double = Bitboard { bits: moved(self.double.bits, pos, pos, piece.stacked) };
        proof {
            let p = pos as u64;
            let new_board = *self;
            assert forall|s: u64| #![trigger new_board.occupant(s)] #![trigger new_board.square_ok(s)] s < 64 implies new_board.occupant(s) == (if s == p {
                Some(piece)
            } else {
                old_board.occupant(s)
            }) && (old_board.square_ok(s) ==> new_board.square_ok(s)) by {
                lemma_moved_mask_bit(old_board.robben.bits, p, p, k == PieceType::Robbe, s);
                lemma_moved_mask_bit(old_board.muscheln.bits, p, p, k == PieceType::Herzmuschel, s);
                lemma_moved_mask_bit(old_board.moewen.bits, p, p, k == PieceType::Moewe, s);
                lemma_moved_mask_bit(old_board.seesterne.bits, p, p, k == PieceType::Seestern, s);
                lemma_moved_mask_bit(old_board.red.bits, p, p, one, s);
                lemma_moved_mask_bit(old_board.blue.bits, p, p, !one, s);
                lemma_moved_mask_bit(old_board.double.bits, p, p, piece.stacked, s);
            }
            assert(new_board.view() =~= old_board.view().update(pos as int, Some(piece)));
        }
    }

    /// Applies the move for `team` and returns the points it earns.
    ///
    /// The origin is emptied. A capture where the mover or the captured piece is a stack
    /// removes both and earns a point; any other capture turns the mover into a stack. A light
    /// piece reaching its finish rank earns a point and leaves the board.
    pub fn apply_move(&mut self, game_move: &Move, team: Team) -> (points: u8)
        requires
            old(self).wf(),
            can_move(old(self).view(), *game_move, team),
        ensures
            final(self).wf(),
            final(self).view() == after_move(old(self).view(), *game_move, team),
            points == move_points(old(self).view(), *game_move, team),
            *final(self) == board_after(*old(self), *game_move, team),
    {
        let from = game_move.from;
        let to = game_move.to;
        let kind = game_move.piece;
        let old_board = *self;
        let ghost v = old_board.view();
        let ghost f = from as u64;
        let ghost t = to as u64;
        proof {
            assert(v[from as int] == old_board.occupant(f));
            assert(v[to as int] == old_board.occupant(t));
            assert(old_board.square_ok(f));
            assert(old_board.square_ok(t));
        }

        let (friendly, enemy) = match team {
            Team::ONE => (self.red, self.blue),
            Team::TWO => (self.blue, self.red),
        };
        let captured = enemy.get_bit(to);
        let from_stacked = self.double.get_bit(from);
        let to_stacked = self.double.get_bit(to);
        let stacks_capture = captured && (from_stacked || to_stacked);
        let finish = kind.is_light() && Self::on_finish_line(Bitboard { bits: 1u64 << to }, team);
        proof {
            assert(Self::finish_bit(t, team) == on_finish_rank(team, t)) by {
                lemma_finish_rank(t);
            }
            assert(captured == (v[to as int] is Some));
            assert(stacks_capture == stack_capture(v, *game_move));
        }
        let stays = !stacks_capture && !finish;

        let new_friendly = moved(friendly.bits, from, to, stays);
        let new_enemy = moved(enemy.bits, from, to, false);
        match team {
            Team::ONE => {
                self.red = Bitboard { bits: new_friendly };
                self.blue = Bitboard { bits: new_enemy };
            },
            Team::TWO => {
                self.blue = Bitboard { bits: new_friendly };
                self.red = Bitboard { bits: new_enemy };
            },
        }
        self.robben = Bitboard {
            bits: moved(self.robben.bits, from, to, stays && kind == PieceType::Robbe),
        };
        self.muscheln = Bitboard {
            bits: moved(self.muscheln.bits, from, to, stays && kind == PieceType::Herzmuschel),
        };
        self.moewen = Bitboard {
            bits: moved(self.moewen.bits, from, to, stays && kind == PieceType::Moewe),
        };
        self.seesterne = Bitboard {
            bits: moved(self.seesterne.bits, from, to, stays && kind == PieceType::Seestern),
        };
        self.double = Bitboard {
            bits: moved(self.double.bits, from, to, stays && (captured || from_stacked)),
        };

        let points: u8 = (if stacks_capture { 1u8 } else { 0u8 }) + (if finish { 1u8 } else { 0u8 });
        proof {
            let nb = *self;
            let one = team == Team::ONE;
            assert forall|s: u64| #![trigger nb.occupant(s)] #![trigger nb.square_ok(s)] s < 64 implies nb.square_ok(s) && nb.occupant(s) == (if s
                == t {
                landing(v, *game_move, team)
            } else if s == f {
                None
            } else {
                old_board.occupant(s)
            }) by {
                assert(old_board.square_ok(s));
                lemma_moved_mask_bit(old_board.red.bits, f, t, one && stays, s);
                lemma_moved_mask_bit(old_board.blue.bits, f, t, !one && stays, s);
                lemma_moved_mask_bit(old_board.robben.bits, f, t, stays && kind == PieceType::Robbe, s);
                lemma_moved_mask_bit(
                    old_board.muscheln.bits,
                    f,
                    t,
                    stays && kind == PieceType::Herzmuschel,
                    s,
                );
                lemma_moved_mask_bit(old_board.moewen.bits, f, t, stays && kind == PieceType::Moewe, s);
                lemma_moved_mask_bit(
                    old_board.seesterne.bits,
                    f,
                    t,
                    stays && kind == PieceType::Seestern,
                    s,
                );
                lemma_moved_mask_bit(old_board.double.bits, f, t, stays && (captured || from_stacked), s);
            }
            assert(nb.view() =~= after_move(v, *game_move, team));
        }
        points
    }

    /// Same as `empty`.
    pub fn new() -> (r: Self)
        ensures
            r.wf(),
            r.view() == Seq::new(64, |i: int| None::<Piece>),
    {
        Self::empty()
    }

    /// A start position: a random order of two pieces of each kind on rank 0 for team `ONE`,
    /// mirrored through the centre for team `TWO` on rank 7.
    pub fn new_random(rng: &mut StdRng) -> (r: Self)
        ensures
            r.wf(),
            forall|s: int|
                0 <= s < 8 ==> {
                    &&& #[trigger] r.view()[s] is Some
                    &&& r.view()[s].unwrap().team == Team::ONE
                    &&& !r.view()[s].unwrap().stacked
                    &&& r.view()[63 - s] == Some(
                        Piece { team: Team::TWO, ..r.view()[s].unwrap() },
                    )
                },
            forall|s: int| 8 <= s < 56 ==> #[trigger] r.view()[s] is None,
            rank_kinds(r.view()).to_multiset() == start_kinds().to_multiset(),
    {
        let mut kinds: Vec<PieceType> = vec![
            PieceType::Herzmuschel,
            PieceType::Herzmuschel,
            PieceType::Moewe,
            PieceType::Moewe,
            PieceType::Seestern,
            PieceType::Seestern,
            PieceType::Robbe,
            PieceType::Robbe,
        ];
        proof {
            assert(kinds@ =~= start_kinds());
        }
        shuffle_kinds(&mut kinds, rng);
        let mut board = Self::empty();
        let ghost empty_view = board.view();
        let mut f: usize = 0;
        while f < 8
            invariant
                f <= 8,
                kinds@.len() == 8,
                board.wf(),
                forall|s: int| 0 <= s < f ==> #[trigger] board.view()[s] == Some(
                    Piece { piece_type: kinds@[s], team: Team::ONE, stacked: false },
                ),
                forall|s: int| 0 <= s < f ==> #[trigger] board.view()[63 - s] == Some(
                    Piece { piece_type: kinds@[s], team: Team::TWO, stacked: false },
                ),
                forall|s: int| f <= s < 64 - f ==> #[trigger] board.view()[s] is None,
            decreases 8 - f,
        {
            let kind = kinds[f];
            board.set_piece(f as u8, Piece { piece_type: kind, team: Team::ONE, stacked: false });
            board.set_piece(
                (63 - f) as u8,
                Piece { piece_type: kind, team: Team::TWO, stacked: false },
            );
            f = f + 1;
        }
        proof {
            assert(rank_kinds(board.view()) =~= kinds@);
        }
        board
    }

    /// How far the most advanced light piece of `team` has come: its rank counted from the
    /// team's own back rank, or 0 when the team has no light piece.
    pub fn leichtfigur_fortschritt(&self, team: Team) -> (r: u8)
        ensures
            r == progress_from(*self, team, 0),
    {
        let light = self.moewen.bits | self.seesterne.bits | self.muscheln.bits;
        let player = light & self.player_pieces(team).bits;
        let mut i: u64 = 0;
        while i < 8
            invariant
                i <= 8,
                player == (self.moewen.bits | self.seesterne.bits | self.muscheln.bits) & self.team_mask(team),
                progress_from(*self, team, 0) == progress_from(*self, team, i),
            decreases 8 - i,
        {
            let rank = match team {
                Team::ONE => 7 - i,
                Team::TWO => i,
            };
            if (player >> (8 * rank)) & 0xFF != 0 {
                return (7 - i) as u8;
            }
            i = i + 1;
        }
        0
    }

    /// Turns every mask of the board by half a revolution.
    pub fn rotate180(&mut self)
        ensures
            final(self).red.bits == rotate180_spec(old(self).red.bits),
            final(self).blue.bits == rotate180_spec(old(self).blue.bits),
            final(self).robben.bits == rotate180_spec(old(self).robben.bits),
            final(self).muscheln.bits == rotate180_spec(old(self).muscheln.bits),
            final(self).moewen.bits == rotate180_spec(old(self).moewen.bits),
            final(self).seesterne.bits == rotate180_spec(old(self).seesterne.bits),
            final(self).double.bits == rotate180_spec(old(self).double.bits),
            forall|s: int| 0 <= s < 64 ==> #[trigger] final(self).view()[s] == old(self).view()[63 - s],
            old(self).wf() ==> final(self).wf(),
    {
        let ghost b = *self;
        self.blue.rotate180();
        self.red.rotate180();
        self.seesterne.rotate180();
        self.muscheln.rotate180();
        self.moewen.rotate180();
        self.robben.rotate180();
        self.double.rotate180();
        proof {
            let nb = *self;
            assert forall|s: u64| #![trigger nb.occupant(s)] #![trigger nb.square_ok(s)] s < 64 implies nb.occupant(s)
                == b.occupant((63 - s) as u64) && (b.square_ok((63 - s) as u64) ==> nb.square_ok(s)) by {
                lemma_rotate180_square(b.red.bits, s);
                lemma_rotate180_square(b.blue.bits, s);
                lemma_rotate180_square(b.robben.bits, s);
                lemma_rotate180_square(b.muscheln.bits, s);
                lemma_rotate180_square(b.moewen.bits, s);
                lemma_rotate180_square(b.seesterne.bits, s);
                lemma_rotate180_square(b.double.bits, s);
            }
            assert forall|s: int| 0 <= s < 64 implies #[trigger] nb.view()[s] == b.view()[63 - s] by {
                assert(nb.view()[s] == nb.occupant(s as u64));
                assert(b.view()[63 - s] == b.occupant((63 - s) as u64));
            }
            if b.wf() {
                assert forall|s: u64| s < 64 implies #[trigger] nb.square_ok(s) by {
                    assert(b.square_ok((63 - s) as u64));
                }
            }
        }
    }

    /// The destinations of the piece of `kind` and `team` on `pos`, ignoring the board.
    pub fn reach_of(kind: PieceType, team: Team, pos: u8) -> (r: Bitboard)
        requires
            pos < 64,
        ensures
            r.bits == reach(kind, team, pos as u64),
    {
        match kind {
            PieceType::Robbe => robbe_lookup_moves(pos),
            PieceType::Moewe => moewe_lookup_moves(pos),
            PieceType::Seestern => seestern_lookup_moves(pos, team),
            PieceType::Herzmuschel => muschel_lookup_moves(pos, team),
        }
    }

    fn visit_kind<V: MoveVisitor>(&self, kind: PieceType, team: Team, f: &mut V)
        requires
            old(f).visited().len() + 4096 < usize::MAX,
        ensures
            final(f).visited() == old(f).visited() + self.kind_moves(kind, team, 64),
    {
        let ghost start = f.visited();
        let player = self.player_pieces(team).bits;
        let pieces = match kind {
            PieceType::Robbe => self.robben.bits,
            PieceType::Moewe => self.moewen.bits,
            PieceType::Seestern => self.seesterne.bits,
            PieceType::Herzmuschel => self.muscheln.bits,
        } & player;
        let unoccupied = !player;
        let mut s: u8 = 0;
        while s < 64
            invariant
                s <= 64,
                start.len() + 4096 < usize::MAX,
                pieces == self.kind_mask(kind) & self.team_mask(team),
                unoccupied == !self.team_mask(team),
                f.visited() == start + self.kind_moves(kind, team, s as nat),
            decreases 64 - s,
        {
            proof {
                self.lemma_kind_moves_len(kind, team, s as nat);
            }
            let ghost before = f.visited();
            if (pieces >> s) & 1u64 == 1u64 {
                let targets = Self::reach_of(kind, team, s).bits & unoccupied;
                let mut d: u8 = 0;
                while d < 64
                    invariant
                        s < 64,
                        d <= 64,
                        before.len() <= start.len() + 64 * s,
                        start.len() + 4096 < usize::MAX,
                        targets == self.targets(kind, team, s as u64),
                        f.visited() == before + dest_moves(s, kind, targets, d as nat),
                    decreases 64 - d,
                {
                    proof {
                        lemma_dest_moves_len(s, kind, targets, d as nat);
                    }
                    if (targets >> d) & 1u64 == 1u64 {
                        f.visit(Move { from: s, to: d, piece: kind });
                        proof {
                            assert(f.visited() =~= before + dest_moves(s, kind, targets, (d + 1) as nat));
                        }
                    }
                    d = d + 1;
                }
            }
            s = s + 1;
            proof {
                assert(f.visited() =~= start + self.kind_moves(kind, team, s as nat));
            }
        }
    }

    /// Hands each move of `team` to `f`, in the order of `legal_moves`, without storing them.
    pub fn for_each_move<V: MoveVisitor>(&self, team: Team, f: &mut V)
        requires
            old(f).visited().len() + 16384 < usize::MAX,
        ensures
            final(f).visited() == old(f).visited() + self.legal_moves(team),
    {
        let ghost start = f.visited();
        proof {
            self.lemma_kind_moves_len(PieceType::Moewe, team, 64);
            self.lemma_kind_moves_len(PieceType::Robbe, team, 64);
            self.lemma_kind_moves_len(PieceType::Seestern, team, 64);
        }
        self.visit_kind(PieceType::Moewe, team, f);
        self.visit_kind(PieceType::Robbe, team, f);
        self.visit_kind(PieceType::Seestern, team, f);
        self.visit_kind(PieceType::Herzmuschel, team, f);
        proof {
            assert(f.visited() =~= start + self.legal_moves(team));
        }
    }

    /// The moves of `team`, in the order of `legal_moves`.
    pub fn available_moves(&self, team: Team) -> (r: ThinVec<Move>)
        ensures
            thin_moves(r) == self.legal_moves(team),
    {
        let mut list = MoveList { moves: new_move_list(25) };
        self.for_each_move(team, &mut list);
        proof {
            assert(thin_moves(list.moves) =~= self.legal_moves(team));
        }
        list.moves
    }

    /// Number of moves `team` has.
    pub fn count_moves(&self, team: Team) -> (r: u32)
        ensures
            r == self.legal_moves(team).len(),
            r <= 16384,
    {
        let a = self.count_kind(PieceType::Moewe, team);
        let b = self.count_kind(PieceType::Robbe, team);
        let c = self.count_kind(PieceType::Seestern, team);
        let d = self.count_kind(PieceType::Herzmuschel, team);
        a + b + c + d
    }

    fn count_kind(&self, kind: PieceType, team: Team) -> (r: u32)
        ensures
            r == self.kind_moves(kind, team, 64).len(),
            r <= 4096,
    {
        let player = self.player_pieces(team).bits;
        let pieces = match kind {
            PieceType::Robbe => self.robben.bits,
            PieceType::Moewe => self.moewen.bits,
            PieceType::Seestern => self.seesterne.bits,
            PieceType::Herzmuschel => self.muscheln.bits,
        } & player;
        let unoccupied = !player;
        let mut count: u32 = 0;
        let mut s: u8 = 0;
        while s < 64
            invariant
                s <= 64,
                pieces == self.kind_mask(kind) & self.team_mask(team),
                unoccupied == !self.team_mask(team),
                count == self.kind_moves(kind, team, s as nat).len(),
            decreases 64 - s,
        {
            proof {
                self.lemma_kind_moves_len(kind, team, s as nat);
            }
            if (pieces >> s) & 1u64 == 1u64 {
                let targets = Self::reach_of(kind, team, s).bits & unoccupied;
                let n = count_ones(targets);
                proof {
                    vstd::arithmetic::power2::lemma2_to64();
                    lemma_bits_below_popcount(targets, 64);
                    lemma_dest_moves_len(s, kind, targets, 64);
                }
                count = count + n;
            }
            s = s + 1;
        }
        proof {
            self.lemma_kind_moves_len(kind, team, 64);
        }
        count
    }

    pub open spec fn finish_bit(t: u64, team: Team) -> bool {
        (1u64 << t) & (if team == Team::ONE { TOP_RANK } else { BOTTOM_RANK }) != 0
    }
}

/// A finish rank as a mask agrees with the finish rank as a range of squares.
pub proof fn lemma_finish_rank(t: u64)
    requires
        t < 64,
    ensures
        ((1u64 << t) & TOP_RANK != 0) == (56 <= t),
        ((1u64 << t) & BOTTOM_RANK != 0) == (t < 8),
{
    assert(((1u64 << t) & TOP_RANK != 0) == (56 <= t) && ((1u64 << t) & BOTTOM_RANK != 0) == (t < 8))
        by (bit_vector)
        requires
            t < 64,
    ;
}

/// The mask `m` with square `from` emptied and square `to` set to `put`.
fn moved(m: u64, from: u8, to: u8, put: bool) -> (r: u64)
    requires
        from < 64,
        to < 64,
    ensures
        r == moved_mask(m, from as u64, to as u64, put),
{
    (m & !((1u64 << from) | (1u64 << to))) | (if put {
        1u64 << to
    } else {
        0u64
    })
}

} // verus!
