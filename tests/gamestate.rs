use ostseeschach::evaluation::{evaluate, EvalWeights};
use ostseeschach::fen::FenError;
use ostseeschach::game_result::{Cause, GameResult, Score};
use ostseeschach::mcts::{rollout, MonteCarloTree};
use ostseeschach::minmax::MinMax;
use ostseeschach::perft::perft_up_to;
use ostseeschach::zobrist::{hash_for_piece, hash_for_score};
use ostseeschach::{Board, Gamestate, Move, Piece, PieceType, Team};
use rand::rngs::StdRng;
use rand::seq::SliceRandom;
use rand::SeedableRng;

#[test]
fn test_points_system() {
    let mut rng = StdRng::seed_from_u64(2);
    let board = Board::new_random(&mut rng);
    let mut gamestate = Gamestate::new(board);

    let m = Move {
        from: 0,
        to: 6,
        piece: PieceType::Herzmuschel,
    };
    gamestate.board.double.set_bit(0);
    gamestate.apply_move(&m);

    let m = Move {
        from: 6,
        to: 7,
        piece: PieceType::Herzmuschel,
    };
    gamestate.apply_move(&m);

    let m = Move {
        from: 63,
        to: 17,
        piece: PieceType::Herzmuschel,
    };
    gamestate.apply_move(&m);

    let m = Move {
        from: 17,
        to: 16,
        piece: PieceType::Herzmuschel,
    };
    gamestate.apply_move(&m);
}

#[test]
fn test_init() {
    let mut g = Gamestate::load_fen("mrshmsrh/8/8/8/8/8/8/HRSMHSRM 0 0/0").unwrap();
    let mut rng = StdRng::seed_from_u64(7);

    for _ in 0..20 {
        while !g.game_over() {
            let moves = g.available_moves_current_player();
            if moves.is_empty() {
                break;
            }
            let m = moves.choose(&mut rng).unwrap();
            g.apply_move(m);
            let h1 = g.hash;
            let h2 = g.recalculate_hash();
            assert_eq!(h1, h2);
        }
        println!("Sucessfully one game");
        g = Gamestate::new(Board::new_random(&mut rng));
    }
}

#[test]
fn fen_round_trip() {
    let start = "hrrmssmh/8/8/8/8/8/8/HMSSMRRH 1 0/0";
    let g = Gamestate::load_fen(start).unwrap();
    assert_eq!(g.to_fen(), start);
    assert_eq!(Gamestate::load_fen(&g.to_fen()).unwrap(), g);

    let mut rng = StdRng::seed_from_u64(11);
    let mut g = Gamestate::new(Board::new_random(&mut rng));
    while !g.game_over() {
        let moves = g.available_moves_current_player();
        if moves.is_empty() {
            break;
        }
        let m = *moves.choose(&mut rng).unwrap();
        g.apply_move(&m);
        assert!(g.ambers[0] <= 3 && g.ambers[1] <= 3 && g.turn <= 60);
        let text = g.to_fen();
        assert_eq!(Gamestate::load_fen(&text).unwrap(), g, "{}", text);
    }
}

#[test]
fn fen_of_stacks_and_gaps() {
    let mut board = Board::empty();
    board.set_piece(0, Piece::new(PieceType::Robbe, Team::ONE, true));
    board.set_piece(7, Piece::new(PieceType::Moewe, Team::TWO, false));
    board.set_piece(60, Piece::new(PieceType::Seestern, Team::TWO, true));
    let g = Gamestate::new_with(board, 12, [2, 3]);
    assert_eq!(g.to_fen(), "4s*3/8/8/8/8/8/8/R*6m 12 2/3");
    assert_eq!(Gamestate::load_fen("4s*3/8/8/8/8/8/8/R*6m 12 2/3").unwrap(), g);
}

#[test]
fn malformed_fen_is_refused() {
    for text in [
        "hrrmssmh/8/8/8/8/8/8/HMSSMRRH 1 0/0 ",
        "hrrmssmh/8/8/8/8/8/8/HMSSMRR 1 0/0",
        "hrrmssmh/8/8/8/8/8/8/HMSSMRRHH 1 0/0",
        "hrrmssmh/8/8/8/8/8/8 1 0/0",
        "hrrmssmh/8/8/8/8/8/8/HMSSMRRH 256 0/0",
        "hrrmssmh/8/8/8/8/8/8/HMSSMRRH 01 0/0",
        "hrrmssmh/8/8/8/8/8/8/HMSSMRRH 1 0/1000",
        "hrrmssmh/8/8/8/8/8/8/HMSSMRRH 1 0 0",
        "hrrmssmh/8/8/8/8/9/8/HMSSMRRH 1 0/0",
        "hrrmssmx/8/8/8/8/8/8/HMSSMRRH 1 0/0",
        "",
    ] {
        assert_eq!(Gamestate::load_fen(text), Err(FenError::Malformed(text.to_string())));
    }
    assert!(Gamestate::load_fen("hrrmssmh/44/8/8/8/8/8/HMSSMRRH 60 3/3").is_ok());
    for text in ["8/8/8/8/8/8/8/8 61 4/0", "8/8/8/8/8/8/8/8 1 0/4", "8/8/8/8/8/8/8/8 255 5/120"] {
        assert_eq!(Gamestate::load_fen(text), Err(FenError::Malformed(text.to_string())));
    }
    assert!(Gamestate::load_fen("8/8/8/8/8/8/8/8 60 3/3").is_ok());
}

#[test]
fn first_rank_step_scores_nothing() {
    let mut g = Gamestate::load_fen("hrrmssmh/8/8/8/8/8/8/HMSSMRRH 1 0/0").unwrap();
    assert_eq!(g.current_player(), Team::ONE);
    let m = Move { from: 1, to: 9, piece: PieceType::Moewe };
    let mut board = g.board;
    assert_eq!(board.apply_move(&m, Team::ONE), 0);
    g.apply_move(&m);
    assert_eq!(g.ambers, [0, 0]);
    assert_eq!(g.board.piece_at(9), Some(Piece::new(PieceType::Moewe, Team::ONE, false)));
    assert_eq!(g.board.piece_at(1), None);
    assert_eq!(g.turn, 2);
    assert_eq!(g.hash, g.recalculate_hash());
}

#[test]
fn incremental_hash_follows_many_games() {
    let mut rng = StdRng::seed_from_u64(3);
    for _ in 0..30 {
        let mut g = Gamestate::new(Board::new_random(&mut rng));
        while !g.game_over() {
            let moves = g.available_moves_current_player();
            if moves.is_empty() {
                break;
            }
            let m = *moves.choose(&mut rng).unwrap();
            let before = g.hash;
            g.apply_move(&m);
            assert_eq!(g.hash, g.recalculate_hash());
            assert_ne!(g.hash, before);
        }
    }
}

#[test]
fn keys_differ() {
    let a = hash_for_piece(Piece::new(PieceType::Robbe, Team::ONE, false), 0);
    let b = hash_for_piece(Piece::new(PieceType::Robbe, Team::ONE, true), 0);
    let c = hash_for_piece(Piece::new(PieceType::Robbe, Team::TWO, false), 0);
    let d = hash_for_piece(Piece::new(PieceType::Robbe, Team::ONE, false), 1);
    assert!(a != b && a != c && a != d && b != c && b != d && c != d);
    assert_ne!(hash_for_score([0, 1]), hash_for_score([1, 0]));
}

#[test]
fn winner_and_tie_break() {
    // equal points at the end; team ONE has a light piece further forward
    let g = Gamestate::load_fen("8/2M5/8/8/8/3s4/8/8 60 1/1").unwrap();
    assert!(g.game_over());
    assert_eq!(g.wins_draw(), Some(Team::ONE));
    assert_eq!(g.winner(), Some(Team::ONE));
    let w = EvalWeights::classic();
    assert_eq!(evaluate(&g, Team::ONE, &w), -evaluate(&g, Team::TWO, &w));
    assert!(evaluate(&g, Team::ONE, &w) > 0);

    // the mirrored position goes to team TWO, seen the same way from both sides
    let h = Gamestate::load_fen("8/8/3S4/8/8/8/2m5/8 60 1/1").unwrap();
    assert_eq!(h.winner(), Some(Team::TWO));
    assert_eq!(evaluate(&h, Team::ONE, &w), -evaluate(&h, Team::TWO, &w));
    assert!(evaluate(&h, Team::TWO, &w) > 0);

    let level = Gamestate::load_fen("8/8/3S4/8/8/3m4/8/8 60 2/2").unwrap();
    assert_eq!(level.winner(), None);

    let running = Gamestate::load_fen("8/8/3S4/8/8/3m4/8/8 7 3/0").unwrap();
    assert_eq!(running.winner(), None);
    let decided = Gamestate::load_fen("8/8/3S4/8/8/3m4/8/8 8 3/0").unwrap();
    assert_eq!(decided.winner(), Some(Team::ONE));
}

#[test]
fn evaluation_of_a_start_position() {
    let g = Gamestate::load_fen("hrrmssmh/8/8/8/8/8/8/HMSSMRRH 1 0/0").unwrap();
    let w = EvalWeights::classic();
    // everything is balanced but the moves: each side has the same material
    let diff = g.count_moves(Team::ONE) as i64 - g.count_moves(Team::TWO) as i64;
    assert_eq!(evaluate(&g, Team::ONE, &w), diff);
    let up = Gamestate::load_fen("hrrmssmh/8/8/8/8/8/8/HMSSMRRH 5 2/0").unwrap();
    assert_eq!(evaluate(&up, Team::ONE, &w), 20000 + diff);
}

#[test]
fn pruned_search_matches_exhaustive_search() {
    let w = EvalWeights::classic();
    for seed in 0..3 {
        let g = Gamestate::new(Board::new_random(&mut StdRng::seed_from_u64(seed)));
        for depth in 1..=3u8 {
            let mut searcher = MinMax::new(depth, w);
            searcher.my_team = Team::ONE;
            let pruned = searcher.min_max(&g, depth, i64::MIN, i64::MAX);
            let full = searcher.exhaustive(&g, depth);
            assert_eq!(pruned, full);
        }
    }
    let g = Gamestate::load_fen("8/2M5/3r4/8/8/2S5/3s4/8 20 1/1").unwrap();
    let mut searcher = MinMax::new(3, w);
    searcher.my_team = Team::TWO;
    assert_eq!(
        searcher.min_max(&g, 3, i64::MIN, i64::MAX),
        searcher.exhaustive(&g, 3)
    );
}

#[test]
fn recommended_move_is_legal() {
    let g = Gamestate::load_fen("hrrmssmh/8/8/8/8/8/8/HMSSMRRH 1 0/0").unwrap();
    let mut searcher = MinMax::new(2, EvalWeights::classic());
    let m = searcher.recommend_move(&g, Team::ONE);
    assert!(g.available_moves(Team::ONE).iter().any(|x| *x == m));
    assert_eq!(searcher.my_team, Team::ONE);
}

#[test]
fn monte_carlo_tree_grows() {
    let g = Gamestate::load_fen("hrrmssmh/8/8/8/8/8/8/HMSSMRRH 1 0/0").unwrap();
    let mut rng = StdRng::seed_from_u64(5);
    let w = EvalWeights::classic();
    let mut tree = MonteCarloTree::from(g);
    let mut path = Vec::new();
    tree.iterate(&mut path, &mut rng, Team::ONE, &w);
    assert_eq!(tree.nodes[0].visits, 1);
    let mut path = Vec::new();
    tree.iterate(&mut path, &mut rng, Team::ONE, &w);
    assert_eq!(tree.nodes.len(), 1 + g.count_moves(Team::ONE) as usize);
    assert_eq!(path, vec![1]);
    assert_eq!(tree.nodes[0].visits, 2);
    assert_eq!(tree.nodes[1].visits, 1);
    let best = tree.best_move();
    assert!(g.available_moves(Team::ONE).iter().any(|x| *x == best));
    let v = rollout(&g, &mut rng, Team::ONE, &w);
    assert!(v.abs() < 1 << 62);
}

#[test]
fn perft_counts() {
    let g = Gamestate::load_fen("hrrmssmh/8/8/8/8/8/8/HMSSMRRH 1 0/0").unwrap();
    assert_eq!(perft_up_to(g, 0), 0);
    assert_eq!(perft_up_to(g, 1), g.count_moves(Team::ONE) as u64);
    let mut two = 0;
    for m in g.available_moves(Team::ONE).iter() {
        let mut child = g;
        child.apply_move(m);
        two += child.count_moves(Team::TWO) as u64;
    }
    assert_eq!(perft_up_to(g, 2), two);
}

#[test]
fn legal_move_counts_by_side() {
    let g = Gamestate::load_fen("8/8/8/8/8/8/8/M6r 1 0/0").unwrap();
    assert_eq!(g.legal_moves_count(true), 2);
    assert_eq!(g.legal_moves_count(false), 2);
}

#[test]
fn results_and_causes() {
    assert_eq!(GameResult::from_points(2, 1).score, Score::WIN(2, 1));
    assert_eq!(GameResult::from_points(0, 1).score, Score::LOSS(0, 1));
    assert_eq!(GameResult::from_points(1, 1).score, Score::DRAW(1));
    assert!(matches!(Cause::from_str("LEFT", "gone"), Ok(Cause::Left("gone"))));
    assert!(matches!(Cause::from_str("REGULAR", ""), Ok(Cause::Regular)));
    assert!(matches!(Cause::from_str("HARD_TIMEOUT", "x"), Ok(Cause::HardTimeout("x"))));
}

#[test]
fn pieces_and_teams() {
    assert_eq!(PieceType::piece_type_from_name("Seestern"), Some(PieceType::Seestern));
    assert_eq!(PieceType::piece_type_from_name("Möwe"), None);
    assert!(!PieceType::Robbe.is_light());
    assert!(PieceType::Moewe.is_light());
    assert_eq!(Team::ONE.opponent(), Team::TWO);
    assert_eq!(Team::TWO.next(), Team::ONE);
    assert_eq!(Team::TWO.direction(), -1);
    assert_eq!(Team::current(Team::ONE, 3), Team::ONE);
    assert_eq!(Team::current(Team::ONE, 4), Team::TWO);
}

#[test]
fn test() {
    let k = 32f32;

    let bonus = 0f32;

    let r1 = 1400f32;
    let r2 = 1100f32;

    let e1 = 10f32.powf(r1 / 400f32);
    let e2 = 10f32.powf(r2 / 400f32);

    let r1_ = r1 + k * (bonus - (e1 / (e1 + e2)));
    let r2_ = r2 + k * ((1f32 - bonus) - (e2 / (e1 + e2)));

    println!("{}", r1_);
    println!("{}", r2_);
}

#[test]
fn tie_break_from_the_other_side() {
    for text in ["8/2M5/8/8/8/3s4/8/8 60 1/1", "8/8/3S4/8/8/8/2m5/8 60 1/1", "hrrmssmh/8/8/8/8/8/8/HMSSMRRH 60 0/0"] {
        let g = Gamestate::load_fen(text).unwrap();
        let b = g.board;
        let turn = |x: ostseeschach::Bitboard| {
            let mut y = x;
            y.rotate180();
            y
        };
        let other = Board {
            red: turn(b.blue),
            blue: turn(b.red),
            seesterne: turn(b.seesterne),
            muscheln: turn(b.muscheln),
            moewen: turn(b.moewen),
            robben: turn(b.robben),
            double: turn(b.double),
        };
        let h = Gamestate::new_with(other, g.turn, [g.ambers[1], g.ambers[0]]);
        assert_eq!(h.wins_draw(), g.wins_draw().map(|t| t.opponent()));
        assert_eq!(h.winner(), g.winner().map(|t| t.opponent()));
    }
}
