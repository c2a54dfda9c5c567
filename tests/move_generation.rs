use ostseeschach::move_generation::{
    moewe_gen_moves, moewe_lookup_moves, muschel_gen_moves, muschel_lookup_moves,
    robbe_gen_moves, robbe_lookup_moves, seestern_gen_moves, seestern_lookup_moves,
};
use ostseeschach::{Bitboard, Team};

const CRITICAL_POSITIONS: [Bitboard; 3] = [
    Bitboard { bits: 0x800000000 },   //Center
    Bitboard { bits: 0x20 },          //Bottom edge
    Bitboard { bits: 0x10000000000 }, //Left edge
];

fn bb(bits: u64) -> Bitboard {
    Bitboard { bits }
}

#[test]
fn test_robbe_gen_moves_center() {
    assert_eq!(robbe_gen_moves(CRITICAL_POSITIONS[0]), bb(0x14220022140000));
}

#[test]
fn test_robbe_gen_moves_edge() {
    assert_eq!(robbe_gen_moves(CRITICAL_POSITIONS[1]), bb(0x508800));
}

#[test]
fn test_robbe_gen_moves_below() {
    assert_eq!(robbe_gen_moves(CRITICAL_POSITIONS[2]), bb(0x204000402000000));
}

#[test]
fn test_moewe_gen_moves_center() {
    assert_eq!(moewe_gen_moves(CRITICAL_POSITIONS[0]), bb(0x81408000000));
}

#[test]
fn test_moewe_gen_moves_edge() {
    assert_eq!(moewe_gen_moves(CRITICAL_POSITIONS[1]), bb(0x2050));
}

#[test]
fn test_moewe_gen_moves_below() {
    assert_eq!(moewe_gen_moves(CRITICAL_POSITIONS[2]), bb(0x1020100000000));
}

#[test]
fn test_seestern_gen_moves_center() {
    assert_eq!(seestern_gen_moves(CRITICAL_POSITIONS[0], Team::ONE), bb(0x141014000000));
    assert_eq!(seestern_gen_moves(CRITICAL_POSITIONS[0], Team::TWO), bb(0x140414000000));
}

#[test]
fn test_seestern_gen_moves_edge() {
    assert_eq!(seestern_gen_moves(CRITICAL_POSITIONS[1], Team::ONE), bb(0x5040));
    assert_eq!(seestern_gen_moves(CRITICAL_POSITIONS[1], Team::TWO), bb(0x5010));
}

#[test]
fn test_seestern_gen_moves_below() {
    assert_eq!(seestern_gen_moves(CRITICAL_POSITIONS[2], Team::ONE), bb(0x2020200000000));
    assert_eq!(seestern_gen_moves(CRITICAL_POSITIONS[2], Team::TWO), bb(0x2000200000000));
}

#[test]
fn test_muschel_gen_moves_center() {
    assert_eq!(muschel_gen_moves(CRITICAL_POSITIONS[0], Team::ONE), bb(0x100010000000));
    assert_eq!(muschel_gen_moves(CRITICAL_POSITIONS[0], Team::TWO), bb(0x40004000000));
}

#[test]
fn test_muschel_gen_moves_edge() {
    assert_eq!(muschel_gen_moves(CRITICAL_POSITIONS[1], Team::ONE), bb(0x4000));
    assert_eq!(muschel_gen_moves(CRITICAL_POSITIONS[1], Team::TWO), bb(0x1000));
}

#[test]
fn test_muschel_gen_moves_below() {
    assert_eq!(muschel_gen_moves(CRITICAL_POSITIONS[2], Team::ONE), bb(0x2000200000000));
    assert_eq!(muschel_gen_moves(CRITICAL_POSITIONS[2], Team::TWO), bb(0x0));
}

#[test]
fn test_lookups_moewe() {
    for i in 0..64 {
        assert_eq!(moewe_gen_moves(bb(1 << i)), moewe_lookup_moves(i))
    }
}

#[test]
fn test_lookups_robbe() {
    for i in 0..64 {
        assert_eq!(robbe_gen_moves(bb(1 << i)), robbe_lookup_moves(i))
    }
}

#[test]
fn test_lookups_seestern() {
    for i in 0..64 {
        assert_eq!(
            seestern_gen_moves(bb(1 << i), Team::ONE),
            seestern_lookup_moves(i, Team::ONE)
        );
        assert_eq!(
            seestern_gen_moves(bb(1 << i), Team::TWO),
            seestern_lookup_moves(i, Team::TWO)
        );
    }
}

#[test]
fn test_lookups_muschel() {
    for i in 0..64 {
        assert_eq!(
            muschel_gen_moves(bb(1 << i), Team::ONE),
            muschel_lookup_moves(i, Team::ONE)
        );
        assert_eq!(
            muschel_gen_moves(bb(1 << i), Team::TWO),
            muschel_lookup_moves(i, Team::TWO)
        );
    }
}

#[test]
fn knight_in_the_corner_has_two_squares() {
    assert_eq!(robbe_lookup_moves(0).bits, (1 << 10) | (1 << 17));
    assert_eq!(robbe_lookup_moves(63).bits, (1 << 53) | (1 << 46));
}
