//! Engine for the two-player stacking board game: bit-packed boards, move
//! generation, incremental position hashing, evaluation and game-tree search.

pub mod bitboard;
pub mod pieces;
pub mod move_generation;
pub mod board;
pub mod thin;
pub mod rng;
pub mod clock;
pub mod zobrist;
pub mod gamestate;
pub mod evaluation;
pub mod minmax;
pub mod fen;
pub mod mcts;
pub mod perft;
pub mod random_pick;
pub mod game_result;
pub mod remote;

pub use bitboard::Bitboard;
pub use board::Board;
pub use gamestate::Gamestate;
pub use pieces::{Move, Piece, PieceType, Team};
