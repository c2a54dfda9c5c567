use ostseeschach::{Bitboard, Board, Move, Piece, PieceType, Team};
use rand::rngs::StdRng;
use rand::SeedableRng;

#[test]
fn test_frontmost_piece() {
    let mut board = Board::empty();

    board.set_piece(
        45,
        Piece {
            piece_type: PieceType::Herzmuschel,
            team: Team::ONE,
            stacked: false,
        },
    );
    assert_eq!(board.leichtfigur_fortschritt(Team::ONE), 5);

    board.set_piece(
        61,
        Piece {
            piece_type: PieceType::Seestern,
            team: Team::TWO,
            stacked: false,
        },
    );
    assert_eq!(board.leichtfigur_fortschritt(Team::TWO), 0);
}

#[test]
fn test_on_finish_line() {
    let mut board = Board::empty();
    board.set_piece(
        7,
        Piece {
            piece_type: PieceType::Herzmuschel,
            team: Team::ONE,
            stacked: false,
        },
    );
}

#[test]
fn test_board_points() {
    let mut rng = StdRng::seed_from_u64(2);
    let mut board = Board::new_random(&mut rng);

    let mut points = board.apply_move(
        &Move {
            from: 6,
            to: 52,
            piece: PieceType::Robbe,
        },
        Team::ONE,
    );
    assert_eq!(points, 0);

    points = board.apply_move(
        &Move {
            from: 60,
            to: 52,
            piece: PieceType::Seestern,
        },
        Team::TWO,
    );
    assert_eq!(points, 0);

    points = board.apply_move(
        &Move {
            from: 1,
            to: 52,
            piece: PieceType::Moewe,
        },
        Team::ONE,
    );
    assert_eq!(points, 1);

    points = board.apply_move(
        &Move {
            from: 0,
            to: 62,
            piece: PieceType::Herzmuschel,
        },
        Team::ONE,
    );
    assert_eq!(points, 1);

    points = board.apply_move(
        &Move {
            from: 56,
            to: 11,
            piece: PieceType::Herzmuschel,
        },
        Team::TWO,
    );
    assert_eq!(points, 0);

    board.double.set_bit(11);
    points = board.apply_move(
        &Move {
            from: 11,
            to: 2,
            piece: PieceType::Herzmuschel,
        },
        Team::TWO,
    );
    assert_eq!(points, 2);
}

#[test]
fn test_double_board() {
    let mut board = Board::empty();
    board.set_piece(
        34,
        Piece {
            piece_type: PieceType::Robbe,
            team: Team::ONE,
            stacked: true,
        },
    );

    assert_eq!(board.double, Bitboard { bits: 1 << 34 });

    let m = Move {
        from: 34,
        to: 44,
        piece: PieceType::Robbe,
    };

    assert_eq!(board.apply_move(&m, Team::ONE), 0);
    assert_eq!(board.double, Bitboard { bits: 1 << 44 })
}

#[test]
fn test_board_piece_interactions() {
    let mut board = Board::empty();
    board.set_piece(
        34,
        Piece {
            piece_type: PieceType::Robbe,
            team: Team::ONE,
            stacked: true,
        },
    );

    board.set_piece(
        24,
        Piece {
            piece_type: PieceType::Moewe,
            team: Team::TWO,
            stacked: true,
        },
    );

    let m = Move {
        from: 24,
        to: 34,
        piece: PieceType::Moewe,
    };

    assert_eq!(board.apply_move(&m, Team::TWO), 1);
}

fn piece(piece_type: PieceType, team: Team, stacked: bool) -> Piece {
    Piece::new(piece_type, team, stacked)
}

#[test]
fn plain_capture_makes_a_stack() {
    let mut board = Board::empty();
    board.set_piece(27, piece(PieceType::Moewe, Team::ONE, false));
    board.set_piece(35, piece(PieceType::Robbe, Team::TWO, false));
    let points = board.apply_move(&Move { from: 27, to: 35, piece: PieceType::Moewe }, Team::ONE);
    assert_eq!(points, 0);
    assert_eq!(board.piece_at(27), None);
    assert_eq!(board.piece_at(35), Some(piece(PieceType::Moewe, Team::ONE, true)));
    assert_eq!(board.blue.bits, 0);
}

#[test]
fn quiet_move_scores_nothing() {
    let mut board = Board::empty();
    board.set_piece(10, piece(PieceType::Seestern, Team::TWO, false));
    let points = board.apply_move(&Move { from: 10, to: 9, piece: PieceType::Seestern }, Team::TWO);
    assert_eq!(points, 0);
    assert_eq!(board.piece_at(9), Some(piece(PieceType::Seestern, Team::TWO, false)));
}

#[test]
fn finish_rank_scores_and_removes() {
    let mut board = Board::empty();
    board.set_piece(54, piece(PieceType::Herzmuschel, Team::ONE, false));
    let points = board.apply_move(&Move { from: 54, to: 63, piece: PieceType::Herzmuschel }, Team::ONE);
    assert_eq!(points, 1);
    assert_eq!(board.piece_at(63), None);
    assert_eq!(board.red.bits | board.muscheln.bits | board.double.bits, 0);
}

#[test]
fn robbe_on_finish_rank_stays() {
    let mut board = Board::empty();
    board.set_piece(46, piece(PieceType::Robbe, Team::ONE, false));
    let points = board.apply_move(&Move { from: 46, to: 63, piece: PieceType::Robbe }, Team::ONE);
    assert_eq!(points, 0);
    assert_eq!(board.piece_at(63), Some(piece(PieceType::Robbe, Team::ONE, false)));
}

#[test]
fn set_piece_replaces() {
    let mut board = Board::new();
    board.set_piece(20, piece(PieceType::Robbe, Team::ONE, true));
    board.set_piece(20, piece(PieceType::Moewe, Team::TWO, false));
    assert_eq!(board.piece_at(20), Some(piece(PieceType::Moewe, Team::TWO, false)));
    assert_eq!(board.robben.bits | board.red.bits | board.double.bits, 0);
}

#[test]
fn random_start_is_mirrored() {
    for seed in 0..5 {
        let mut rng = StdRng::seed_from_u64(seed);
        let board = Board::new_random(&mut rng);
        assert_eq!(board.red.bits, 0xFF);
        assert_eq!(board.blue.bits, 0xFF00000000000000);
        for s in 0..8u8 {
            let low = board.piece_at(s).unwrap();
            let high = board.piece_at(63 - s).unwrap();
            assert_eq!(low.piece_type, high.piece_type);
            assert_eq!((low.team, high.team), (Team::ONE, Team::TWO));
        }
        assert_eq!(board.robben.count(), 4);
        assert_eq!(board.muscheln.count(), 4);
    }
}

#[test]
fn random_start_depends_on_the_seed() {
    let unshuffled = [
        PieceType::Herzmuschel,
        PieceType::Herzmuschel,
        PieceType::Moewe,
        PieceType::Moewe,
        PieceType::Seestern,
        PieceType::Seestern,
        PieceType::Robbe,
        PieceType::Robbe,
    ];
    let mut shuffled = 0;
    for seed in 0..10 {
        let board = Board::new_random(&mut StdRng::seed_from_u64(seed));
        let kinds: Vec<PieceType> = (0..8u8).map(|s| board.piece_at(s).unwrap().piece_type).collect();
        if kinds != unshuffled {
            shuffled += 1;
        }
    }
    assert!(shuffled > 0);
}

#[test]
fn rotation_of_the_board() {
    let mut board = Board::empty();
    board.set_piece(0, piece(PieceType::Seestern, Team::ONE, true));
    board.rotate180();
    assert_eq!(board.piece_at(63), Some(piece(PieceType::Seestern, Team::ONE, true)));
    assert_eq!(board.piece_at(0), None);
}

#[test]
fn counting_and_listing_moves_agree() {
    for seed in 0..5 {
        let board = Board::new_random(&mut StdRng::seed_from_u64(seed));
        for team in [Team::ONE, Team::TWO] {
            let moves = board.available_moves(team);
            assert_eq!(moves.len() as u32, board.count_moves(team));
            for m in moves.iter() {
                assert_eq!(board.piece_at(m.from).unwrap().team, team);
                assert_eq!(board.piece_at(m.from).unwrap().piece_type, m.piece);
            }
        }
    }
}

#[test]
fn moves_come_in_kind_then_square_order() {
    let mut board = Board::empty();
    board.set_piece(0, piece(PieceType::Robbe, Team::ONE, false));
    board.set_piece(9, piece(PieceType::Moewe, Team::ONE, false));
    let moves = board.available_moves(Team::ONE);
    let listed: Vec<(u8, u8, PieceType)> = moves.iter().map(|m| (m.from, m.to, m.piece)).collect();
    assert_eq!(
        listed,
        vec![
            (9, 1, PieceType::Moewe),
            (9, 8, PieceType::Moewe),
            (9, 10, PieceType::Moewe),
            (9, 17, PieceType::Moewe),
            (0, 10, PieceType::Robbe),
            (0, 17, PieceType::Robbe),
        ]
    );
}
