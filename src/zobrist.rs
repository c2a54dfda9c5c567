use vstd::prelude::*;

use crate::board::Position;
use crate::pieces::{kind_index, team_index, Piece};

verus! {

pub const MIX_1: u64 = 0xbf58476d1ce4e5b9;

pub const MIX_2: u64 = 0x94d049bb133111eb;

/// Offset of the keys of score values behind the 1024 keys of pieces.
pub const SCORE_KEYS_START: u64 = 1024;

/// A fixed pseudo-random 64-bit key for each index: the splitmix64 output function.
#[verifier::opaque]
pub open spec fn mix64(z: u64) -> u64 {
    let a = vstd::wrapping::u64_specs::wrapping_mul(z ^ (z >> 30u64), MIX_1);
    let b = vstd::wrapping::u64_specs::wrapping_mul(a ^ (a >> 27u64), MIX_2);
    b ^ (b >> 31u64)
}

/// Index of a (square, kind, team, stacked) combination among the 1024 piece keys.
pub open spec fn piece_index(p: Piece, pos: u64) -> int {
    ((pos * 4 + kind_index(p.piece_type)) * 2 + team_index(p.team)) * 2 + (if p.stacked {
        1int
    } else {
        0int
    })
}

/// The key of a piece standing on square `pos`.
pub open spec fn piece_key(p: Piece, pos: u64) -> u64 {
    mix64(piece_index(p, pos) as u64)
}

/// The key of what stands on square `pos`: nothing adds no key.
pub open spec fn square_key(o: Option<Piece>, pos: u64) -> u64 {
    match o {
        None => 0,
        Some(p) => piece_key(p, pos),
    }
}

/// The key of a score pair, one key per team and value.
pub open spec fn score_key(score: [u8; 2]) -> u64 {
    mix64((SCORE_KEYS_START + score[0] as u64) as u64) ^ mix64(
        (SCORE_KEYS_START + 256 + score[1] as u64) as u64,
    )
}

/// The xor of the keys of the squares below `n`.
pub open spec fn board_hash(v: Position, n: nat) -> u64
    decreases n,
{
    if n == 0 {
        0
    } else {
        board_hash(v, (n - 1) as nat) ^ square_key(v[n - 1], (n - 1) as u64)
    }
}

/// The hash of a position with its score.
pub open spec fn position_hash(v: Position, score: [u8; 2]) -> u64 {
    board_hash(v, 64) ^ score_key(score)
}

/// Associativity, commutativity, unit and self-inverse of xor.
pub proof fn lemma_xor(a: u64, b: u64, c: u64)
    ensures
        (a ^ b) ^ c == a ^ (b ^ c),
        a ^ b == b ^ a,
        a ^ 0 == a,
        a ^ a == 0,
{
    assert((a ^ b) ^ c == a ^ (b ^ c) && a ^ b == b ^ a && a ^ 0 == a && a ^ a == 0) by (bit_vector);
}

/// Changing what stands on one square changes the hash by the xor of the old and the new
/// key of that square.
pub proof fn lemma_board_hash_update(v: Position, i: int, o: Option<Piece>, n: nat)
    requires
        0 <= i < v.len(),
        n <= v.len(),
    ensures
        board_hash(v.update(i, o), n) == board_hash(v, n) ^ (if i < n {
            square_key(v[i], i as u64) ^ square_key(o, i as u64)
        } else {
            0u64
        }),
    decreases n,
{
    let w = v.update(i, o);
    if n == 0 {
        lemma_xor(0, 0, 0);
    } else {
        let m = (n - 1) as nat;
        lemma_board_hash_update(v, i, o, m);
        let h = board_hash(v, m);
        let kv = square_key(v[m as int], m as u64);
        let d = square_key(v[i], i as u64) ^ square_key(o, i as u64);
        lemma_xor(h, 0, 0);
        assert(w[m as int] == if i == m { o } else { v[m as int] });
        if i == m {
            let ko = square_key(o, i as u64);
            assert(board_hash(w, n) == h ^ ko);
            assert(board_hash(v, n) == h ^ kv);
            assert((h ^ ko) == (h ^ kv) ^ (kv ^ ko)) by (bit_vector);
        } else if i < m {
            assert(board_hash(w, n) == (h ^ d) ^ kv);
            assert(board_hash(v, n) == h ^ kv);
            assert((h ^ d) ^ kv == (h ^ kv) ^ d) by (bit_vector);
        } else {
            lemma_xor(h ^ kv, 0, 0);
        }
    }
}

/// The key of a piece on a square.
pub fn hash_for_piece(piece: Piece, pos: u8) -> (r: u64)
    requires
        pos < 64,
    ensures
        r == piece_key(piece, pos as u64),
{
    let stacked: u64 = if piece.stacked {
        1
    } else {
        0
    };
    let index: u64 = ((pos as u64 * 4 + piece.piece_type.index() as u64) * 2
        + piece.team.index() as u64) * 2 + stacked;
    mix(index)
}

/// The key of a score pair.
pub fn hash_for_score(score: [u8; 2]) -> (r: u64)
    ensures
        r == score_key(score),
{
    mix(SCORE_KEYS_START + score[0] as u64) ^ mix(SCORE_KEYS_START + 256 + score[1] as u64)
}

/// The key of what stands on a square.
pub fn hash_for_square(o: Option<Piece>, pos: u8) -> (r: u64)
    requires
        pos < 64,
    ensures
        r == square_key(o, pos as u64),
{
    match o {
        None => 0,
        Some(p) => hash_for_piece(p, pos),
    }
}

fn mix(z: u64) -> (r: u64)
    ensures
        r == mix64(z),
{
    proof {
        reveal(mix64);
    }
    let a = (z ^ (z >> 30)).wrapping_mul(MIX_1);
    let b = (a ^ (a >> 27)).wrapping_mul(MIX_2);
    b ^ (b >> 31)
}

} // verus!
