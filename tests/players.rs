use std::time::Instant;

use ostseeschach::evaluation::EvalWeights;
use ostseeschach::mcts::play_draws;
use ostseeschach::minmax::{best_index, MinMax};
use ostseeschach::random_pick::RandomPick;
use ostseeschach::remote::{remote_move, square_of_coordinates, RemotePiece};
use ostseeschach::{Board, Gamestate, Move, Piece, PieceType, Team};
use rand::rngs::StdRng;
use rand::SeedableRng;

#[test]
fn timed_search_returns_a_best_move_of_some_depth() {
    let g = Gamestate::load_fen("hrrmssmh/8/8/8/8/8/8/HMSSMRRH 1 0/0").unwrap();
    let mut searcher = MinMax::new(3, EvalWeights::classic());
    let start = Instant::now();
    let m = searcher.best_move_timed(&g, Team::ONE, &start, 10_000);
    let candidates: Vec<Move> = (1..=3u8)
        .map(|d| MinMax::new(d, EvalWeights::classic()).recommend_move(&g, Team::ONE))
        .collect();
    assert!(candidates.contains(&m));
    // with no time at all only the first depth is searched
    let quick = searcher.best_move_timed(&g, Team::ONE, &start, 0);
    assert_eq!(quick, MinMax::new(1, EvalWeights::classic()).recommend_move(&g, Team::ONE));
}

#[test]
fn random_pick_plays_legal_moves() {
    let g = Gamestate::new(Board::new_random(&mut StdRng::seed_from_u64(4)));
    let mut rng = StdRng::seed_from_u64(9);
    let legal: Vec<Move> = g.available_moves(Team::ONE).iter().copied().collect();
    let mut seen = Vec::new();
    for _ in 0..40 {
        let m = RandomPick.best_move(&g, Team::ONE, &mut rng);
        assert!(legal.contains(&m));
        if !seen.contains(&m) {
            seen.push(m);
        }
    }
    assert!(seen.len() > 1);
}

#[test]
fn server_coordinates() {
    assert_eq!(square_of_coordinates(3, 5), 29);
    assert_eq!(remote_move(Move { from: 29, to: 63, piece: PieceType::Robbe }), (3, 5, 7, 7));
    let pieces = vec![
        RemotePiece { x: 0, y: 1, piece: Piece::new(PieceType::Moewe, Team::ONE, false) },
        RemotePiece { x: 7, y: 0, piece: Piece::new(PieceType::Robbe, Team::TWO, true) },
        RemotePiece { x: 0, y: 1, piece: Piece::new(PieceType::Seestern, Team::TWO, false) },
    ];
    let board = Board::from_remote(&pieces);
    assert_eq!(board.piece_at(1), Some(Piece::new(PieceType::Seestern, Team::TWO, false)));
    assert_eq!(board.piece_at(56), Some(Piece::new(PieceType::Robbe, Team::TWO, true)));
    assert_eq!(board.red.bits, 0);
}

#[test]
fn timed_alpha_beta() {
    let g = Gamestate::load_fen("hrrmssmh/8/8/8/8/8/8/HMSSMRRH 1 0/0").unwrap();
    let searcher = MinMax::new(2, EvalWeights::classic());
    let start = Instant::now();
    let (value, complete) = searcher.min_max_timed(&g, 2, i64::MIN, i64::MAX, &start, 60_000);
    assert!(complete);
    assert_eq!(value, searcher.min_max(&g, 2, i64::MIN, i64::MAX));
    // out of time at the root: the bound of the maximizing side comes back, marked incomplete
    assert_eq!(searcher.min_max_timed(&g, 2, -5, 5, &start, 0), (-5, false));
    // a leaf needs no time
    let (leaf, done) = searcher.min_max_timed(&g, 0, -5, 5, &start, 0);
    assert!(done);
    assert_eq!(leaf, ostseeschach::evaluation::evaluate(&g, Team::ONE, &EvalWeights::classic()));
}

#[test]
fn playing_drawn_indices() {
    let g = Gamestate::load_fen("hrrmssmh/8/8/8/8/8/8/HMSSMRRH 1 0/0").unwrap();
    let first = g.available_moves(Team::ONE)[0];
    let mut expected = g;
    expected.apply_move(&first);
    assert_eq!(play_draws(&g, &vec![0]), expected);
    // an index beyond the move count wraps around
    let n = g.count_moves(Team::ONE) as usize;
    assert_eq!(play_draws(&g, &vec![n]), expected);
    assert_eq!(play_draws(&g, &vec![]), g);
    let long = play_draws(&g, &vec![3; 200]);
    assert!(long.game_over() || long.count_moves(long.current_player()) == 0);
}

#[test]
fn first_best_value() {
    assert_eq!(best_index(&vec![3, 7, 7, -1]), 1);
    assert_eq!(best_index(&vec![i64::MIN]), 0);
    assert_eq!(best_index(&vec![-5, -2, -9]), 1);
}

#[test]
fn cutoff_answers_the_bound_of_the_side_to_move() {
    let g = Gamestate::load_fen("hrrmssmh/8/8/8/8/8/8/HMSSMRRH 1 0/0").unwrap();
    let mut searcher = MinMax::new(2, EvalWeights::classic());
    searcher.my_team = Team::ONE;
    assert_eq!(searcher.cutoff(&g, 5, 10, -3, 3), None);
    assert_eq!(searcher.cutoff(&g, 10, 10, -3, 3), Some(-3));
    searcher.my_team = Team::TWO;
    assert_eq!(searcher.cutoff(&g, 11, 10, -3, 3), Some(3));
}
