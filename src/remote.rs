use vstd::prelude::*;

use crate::board::{Board, Position};
use crate::pieces::{Move, Piece};

verus! {

/// A piece as the game server lists it: the column `x`, the row `y` and the piece.
#[derive(Clone, Copy, Debug, PartialEq, Eq, Structural)]
pub struct RemotePiece {
    pub x: u8,
    pub y: u8,
    pub piece: Piece,
}

/// The square of the server's coordinates `(x, y)`.
pub open spec fn remote_square(x: u8, y: u8) -> int {
    8 * x + y
}

/// The position after placing `pieces[..n]` in order on an empty board.
pub open spec fn placed(pieces: Seq<RemotePiece>, n: nat) -> Position
    decreases n,
{
    if n == 0 {
        Seq::new(64, |i: int| None::<Piece>)
    } else {
        let p = pieces[n - 1];
        placed(pieces, (n - 1) as nat).update(remote_square(p.x, p.y), Some(p.piece))
    }
}

/// The square of the server's coordinates `(x, y)`.
pub fn square_of_coordinates(x: u8, y: u8) -> (r: u8)
    requires
        x < 8,
        y < 8,
    ensures
        r == remote_square(x, y),
{
    8 * x + y
}

/// The server's coordinates of both ends of a move, as `(from_x, from_y, to_x, to_y)`.
pub fn remote_move(m: Move) -> (r: (u8, u8, u8, u8))
    requires
        m.from < 64,
        m.to < 64,
    ensures
        remote_square(r.0, r.1) == m.from,
        remote_square(r.2, r.3) == m.to,
        r.0 < 8 && r.1 < 8 && r.2 < 8 && r.3 < 8,
{
    (m.from / 8, m.from % 8, m.to / 8, m.to % 8)
}

impl Board {
    /// The board holding the pieces the server lists; a square listed twice keeps the later
    /// piece.
    pub fn from_remote(pieces: &Vec<RemotePiece>) -> (r: Board)
        requires
            forall|k: int| 0 <= k < pieces@.len() ==> #[trigger] pieces@[k].x < 8 && pieces@[k].y < 8,
        ensures
            r.wf(),
            r.view() == placed(pieces@, pieces@.len()),
    {
        let mut board = Board::empty();
        let mut k: usize = 0;
        proof {
            assert(board.view() =~= placed(pieces@, 0));
        }
        while k < pieces.len()
            invariant
                0 <= k <= pieces@.len(),
                forall|j: int| 0 <= j < pieces@.len() ==> #[trigger] pieces@[j].x < 8 && pieces@[j].y < 8,
                board.wf(),
                board.view() == placed(pieces@, k as nat),
            decreases pieces@.len() - k,
        {
            let p = pieces[k];
            let square = square_of_coordinates(p.x, p.y);
            board.set_piece(square, p.piece);
            k = k + 1;
        }
        board
    }
}

} // verus!
