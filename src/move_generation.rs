use vstd::prelude::*;

use crate::bitboard::{bit, Bitboard};
use crate::pieces::Team;

verus! {

pub const NOT_FILE_A: u64 = 0xFEFEFEFEFEFEFEFE;
pub const NOT_FILE_B: u64 = 0xFDFDFDFDFDFDFDFD;
pub const NOT_FILE_G: u64 = 0xBFBFBFBFBFBFBFBF;
pub const NOT_FILE_H: u64 = 0x7F7F7F7F7F7F7F7F;

/// The squares a knight-like Robbe on any square of `x` reaches on an empty board.
pub open spec fn robbe_reach(x: u64) -> u64 {
    ((x & (NOT_FILE_A & NOT_FILE_B)) << 6u64) | ((x & NOT_FILE_A) << 15u64) | ((x & NOT_FILE_H)
        << 17u64) | ((x & (NOT_FILE_H & NOT_FILE_G)) << 10u64) | ((x & (NOT_FILE_H & NOT_FILE_G))
        >> 6u64) | ((x & NOT_FILE_H) >> 15u64) | ((x & NOT_FILE_A) >> 17u64) | ((x & (NOT_FILE_A
        & NOT_FILE_B)) >> 10u64)
}

/// The orthogonal neighbours of the squares of `x`.
pub open spec fn moewe_reach(x: u64) -> u64 {
    (x << 8u64) | ((x & NOT_FILE_H) << 1u64) | (x >> 8u64) | ((x & NOT_FILE_A) >> 1u64)
}

/// The diagonal neighbours of the squares of `x`, and the neighbour one file forward in the
/// direction of `team`.
pub open spec fn seestern_reach(x: u64, team: Team) -> u64 {
    let a = x & NOT_FILE_H;
    let h = x & NOT_FILE_A;
    (a << 9u64) | (h << 7u64) | (h >> 9u64) | (a >> 7u64) | (if team == Team::TWO {
        h >> 1u64
    } else {
        a << 1u64
    })
}

/// The two diagonal neighbours of the squares of `x` one file forward in the direction of
/// `team`.
pub open spec fn muschel_reach(x: u64, team: Team) -> u64 {
    if team == Team::ONE {
        ((x & NOT_FILE_H) << 9u64) | ((x & NOT_FILE_H) >> 7u64)
    } else {
        ((x & NOT_FILE_A) << 7u64) | ((x & NOT_FILE_A) >> 9u64)
    }
}

/// Robbe destinations of each square.
pub const LOOKUP_ROBBEN: [u64; 64] = [
    0x20400, 0x50800, 0xA1100, 0x142200,
    0x284400, 0x508800, 0xA01000, 0x402000,
    0x2040004, 0x5080008, 0xA110011, 0x14220022,
    0x28440044, 0x50880088, 0xA0100010, 0x40200020,
    0x204000402, 0x508000805, 0xA1100110A, 0x1422002214,
    0x2844004428, 0x5088008850, 0xA0100010A0, 0x4020002040,
    0x20400040200, 0x50800080500, 0xA1100110A00, 0x142200221400,
    0x284400442800, 0x508800885000, 0xA0100010A000, 0x402000204000,
    0x2040004020000, 0x5080008050000, 0xA1100110A0000, 0x14220022140000,
    0x28440044280000, 0x50880088500000, 0xA0100010A00000, 0x40200020400000,
    0x204000402000000, 0x508000805000000, 0xA1100110A000000, 0x1422002214000000,
    0x2844004428000000, 0x5088008850000000, 0xA0100010A0000000, 0x4020002040000000,
    0x400040200000000, 0x800080500000000, 0x1100110A00000000, 0x2200221400000000,
    0x4400442800000000, 0x8800885000000000, 0x100010A000000000, 0x2000204000000000,
    0x4020000000000, 0x8050000000000, 0x110A0000000000, 0x22140000000000,
    0x44280000000000, 0x88500000000000, 0x10A00000000000, 0x20400000000000,
];

/// Moewe destinations of each square.
pub const LOOKUP_MOEWEN: [u64; 64] = [
    0x102, 0x205, 0x40A, 0x814,
    0x1028, 0x2050, 0x40A0, 0x8040,
    0x10201, 0x20502, 0x40A04, 0x81408,
    0x102810, 0x205020, 0x40A040, 0x804080,
    0x1020100, 0x2050200, 0x40A0400, 0x8140800,
    0x10281000, 0x20502000, 0x40A04000, 0x80408000,
    0x102010000, 0x205020000, 0x40A040000, 0x814080000,
    0x1028100000, 0x2050200000, 0x40A0400000, 0x8040800000,
    0x10201000000, 0x20502000000, 0x40A04000000, 0x81408000000,
    0x102810000000, 0x205020000000, 0x40A040000000, 0x804080000000,
    0x1020100000000, 0x2050200000000, 0x40A0400000000, 0x8140800000000,
    0x10281000000000, 0x20502000000000, 0x40A04000000000, 0x80408000000000,
    0x102010000000000, 0x205020000000000, 0x40A040000000000, 0x814080000000000,
    0x1028100000000000, 0x2050200000000000, 0x40A0400000000000, 0x8040800000000000,
    0x201000000000000, 0x502000000000000, 0xA04000000000000, 0x1408000000000000,
    0x2810000000000000, 0x5020000000000000, 0xA040000000000000, 0x4080000000000000,
];

/// Seestern destinations of each square, team ONE first, then team TWO.
pub const LOOKUP_SEESTERN: [u64; 128] = [
    0x202, 0x504, 0xA08, 0x1410,
    0x2820, 0x5040, 0xA080, 0x4000,
    0x20202, 0x50405, 0xA080A, 0x141014,
    0x282028, 0x504050, 0xA080A0, 0x400040,
    0x2020200, 0x5040500, 0xA080A00, 0x14101400,
    0x28202800, 0x50405000, 0xA080A000, 0x40004000,
    0x202020000, 0x504050000, 0xA080A0000, 0x1410140000,
    0x2820280000, 0x5040500000, 0xA080A00000, 0x4000400000,
    0x20202000000, 0x50405000000, 0xA080A000000, 0x141014000000,
    0x282028000000, 0x504050000000, 0xA080A0000000, 0x400040000000,
    0x2020200000000, 0x5040500000000, 0xA080A00000000, 0x14101400000000,
    0x28202800000000, 0x50405000000000, 0xA080A000000000, 0x40004000000000,
    0x202020000000000, 0x504050000000000, 0xA080A0000000000, 0x1410140000000000,
    0x2820280000000000, 0x5040500000000000, 0xA080A00000000000, 0x4000400000000000,
    0x202000000000000, 0x405000000000000, 0x80A000000000000, 0x1014000000000000,
    0x2028000000000000, 0x4050000000000000, 0x80A0000000000000, 0x40000000000000,
    0x200, 0x501, 0xA02, 0x1404,
    0x2808, 0x5010, 0xA020, 0x4040,
    0x20002, 0x50105, 0xA020A, 0x140414,
    0x280828, 0x501050, 0xA020A0, 0x404040,
    0x2000200, 0x5010500, 0xA020A00, 0x14041400,
    0x28082800, 0x50105000, 0xA020A000, 0x40404000,
    0x200020000, 0x501050000, 0xA020A0000, 0x1404140000,
    0x2808280000, 0x5010500000, 0xA020A00000, 0x4040400000,
    0x20002000000, 0x50105000000, 0xA020A000000, 0x140414000000,
    0x280828000000, 0x501050000000, 0xA020A0000000, 0x404040000000,
    0x2000200000000, 0x5010500000000, 0xA020A00000000, 0x14041400000000,
    0x28082800000000, 0x50105000000000, 0xA020A000000000, 0x40404000000000,
    0x200020000000000, 0x501050000000000, 0xA020A0000000000, 0x1404140000000000,
    0x2808280000000000, 0x5010500000000000, 0xA020A00000000000, 0x4040400000000000,
    0x2000000000000, 0x105000000000000, 0x20A000000000000, 0x414000000000000,
    0x828000000000000, 0x1050000000000000, 0x20A0000000000000, 0x4040000000000000,
];

/// Herzmuschel destinations of each square, team ONE first, then team TWO.
pub const LOOKUP_MUSCHELN: [u64; 128] = [
    0x200, 0x400, 0x800, 0x1000,
    0x2000, 0x4000, 0x8000, 0x0,
    0x20002, 0x40004, 0x80008, 0x100010,
    0x200020, 0x400040, 0x800080, 0x0,
    0x2000200, 0x4000400, 0x8000800, 0x10001000,
    0x20002000, 0x40004000, 0x80008000, 0x0,
    0x200020000, 0x400040000, 0x800080000, 0x1000100000,
    0x2000200000, 0x4000400000, 0x8000800000, 0x0,
    0x20002000000, 0x40004000000, 0x80008000000, 0x100010000000,
    0x200020000000, 0x400040000000, 0x800080000000, 0x0,
    0x2000200000000, 0x4000400000000, 0x8000800000000, 0x10001000000000,
    0x20002000000000, 0x40004000000000, 0x80008000000000, 0x0,
    0x200020000000000, 0x400040000000000, 0x800080000000000, 0x1000100000000000,
    0x2000200000000000, 0x4000400000000000, 0x8000800000000000, 0x0,
    0x2000000000000, 0x4000000000000, 0x8000000000000, 0x10000000000000,
    0x20000000000000, 0x40000000000000, 0x80000000000000, 0x0,
    0x0, 0x100, 0x200, 0x400,
    0x800, 0x1000, 0x2000, 0x4000,
    0x0, 0x10001, 0x20002, 0x40004,
    0x80008, 0x100010, 0x200020, 0x400040,
    0x0, 0x1000100, 0x2000200, 0x4000400,
    0x8000800, 0x10001000, 0x20002000, 0x40004000,
    0x0, 0x100010000, 0x200020000, 0x400040000,
    0x800080000, 0x1000100000, 0x2000200000, 0x4000400000,
    0x0, 0x10001000000, 0x20002000000, 0x40004000000,
    0x80008000000, 0x100010000000, 0x200020000000, 0x400040000000,
    0x0, 0x1000100000000, 0x2000200000000, 0x4000400000000,
    0x8000800000000, 0x10001000000000, 0x20002000000000, 0x40004000000000,
    0x0, 0x100010000000000, 0x200020000000000, 0x400040000000000,
    0x800080000000000, 0x1000100000000000, 0x2000200000000000, 0x4000400000000000,
    0x0, 0x1000000000000, 0x2000000000000, 0x4000000000000,
    0x8000000000000, 0x10000000000000, 0x20000000000000, 0x40000000000000,
];

pub fn robbe_gen_moves(robbe: Bitboard) -> (r: Bitboard)
    ensures
        r.bits == robbe_reach(robbe.bits),
{
    let loc = robbe.bits;
    let clip_file_ab = NOT_FILE_A & NOT_FILE_B;
    let clip_file_a = NOT_FILE_A;
    let clip_file_h = NOT_FILE_H;
    let clip_file_gh = NOT_FILE_H & NOT_FILE_G;

    let spot_1 = (loc & clip_file_ab) << 6;
    let spot_2 = (loc & clip_file_a) << 15;
    let spot_3 = (loc & clip_file_h) << 17;
    let spot_4 = (loc & clip_file_gh) << 10;
    let spot_5 = (loc & clip_file_gh) >> 6;
    let spot_6 = (loc & clip_file_h) >> 15;
    let spot_7 = (loc & clip_file_a) >> 17;
    let spot_8 = (loc & clip_file_ab) >> 10;

    Bitboard { bits: spot_1 | spot_2 | spot_3 | spot_4 | spot_5 | spot_6 | spot_7 | spot_8 }
}

pub fn moewe_gen_moves(moewe: Bitboard) -> (r: Bitboard)
    ensures
        r.bits == moewe_reach(moewe.bits),
{
    let loc = moewe.bits;
    let spot_2 = loc << 8;
    let spot_4 = (loc & NOT_FILE_H) << 1;
    let spot_6 = loc >> 8;
    let spot_8 = (loc & NOT_FILE_A) >> 1;
    Bitboard { bits: spot_2 | spot_4 | spot_6 | spot_8 }
}

pub fn seestern_gen_moves(seestern: Bitboard, player: Team) -> (r: Bitboard)
    ensures
        r.bits == seestern_reach(seestern.bits, player),
{
    let clip_file_h = seestern.bits & NOT_FILE_H;
    let clip_file_a = seestern.bits & NOT_FILE_A;
    let diagonal = (clip_file_h << 9) | (clip_file_a << 7) | (clip_file_a >> 9) | (clip_file_h >> 7);
    let forward = match player {
        Team::ONE => clip_file_h << 1,
        Team::TWO => clip_file_a >> 1,
    };
    Bitboard { bits: diagonal | forward }
}

pub fn muschel_gen_moves(muschel: Bitboard, player: Team) -> (r: Bitboard)
    ensures
        r.bits == muschel_reach(muschel.bits, player),
{
    let bits = match player {
        Team::ONE => {
            let clip_file_h = muschel.bits & NOT_FILE_H;
            (clip_file_h << 9) | (clip_file_h >> 7)
        },
        Team::TWO => {
            let clip_file_a = muschel.bits & NOT_FILE_A;
            (clip_file_a << 7) | (clip_file_a >> 9)
        },
    };
    Bitboard { bits }
}

/// The table of Robbe destinations agrees with the shifts square by square.
pub proof fn lemma_robbe_table()
    ensures
        forall|i: int| 0 <= i < 64 ==> #[trigger] LOOKUP_ROBBEN@[i] == robbe_reach(1u64 << i as u64),
{
    assert(robbe_reach(1u64 << 0u64) == 0x20400u64 &&
            robbe_reach(1u64 << 1u64) == 0x50800u64 &&
            robbe_reach(1u64 << 2u64) == 0xA1100u64 &&
            robbe_reach(1u64 << 3u64) == 0x142200u64 &&
            robbe_reach(1u64 << 4u64) == 0x284400u64 &&
            robbe_reach(1u64 << 5u64) == 0x508800u64 &&
            robbe_reach(1u64 << 6u64) == 0xA01000u64 &&
            robbe_reach(1u64 << 7u64) == 0x402000u64 &&
            robbe_reach(1u64 << 8u64) == 0x2040004u64 &&
            robbe_reach(1u64 << 9u64) == 0x5080008u64 &&
            robbe_reach(1u64 << 10u64) == 0xA110011u64 &&
            robbe_reach(1u64 << 11u64) == 0x14220022u64 &&
            robbe_reach(1u64 << 12u64) == 0x28440044u64 &&
            robbe_reach(1u64 << 13u64) == 0x50880088u64 &&
            robbe_reach(1u64 << 14u64) == 0xA0100010u64 &&
            robbe_reach(1u64 << 15u64) == 0x40200020u64 &&
            robbe_reach(1u64 << 16u64) == 0x204000402u64 &&
            robbe_reach(1u64 << 17u64) == 0x508000805u64 &&
            robbe_reach(1u64 << 18u64) == 0xA1100110Au64 &&
            robbe_reach(1u64 << 19u64) == 0x1422002214u64 &&
            robbe_reach(1u64 << 20u64) == 0x2844004428u64 &&
            robbe_reach(1u64 << 21u64) == 0x5088008850u64 &&
            robbe_reach(1u64 << 22u64) == 0xA0100010A0u64 &&
            robbe_reach(1u64 << 23u64) == 0x4020002040u64 &&
            robbe_reach(1u64 << 24u64) == 0x20400040200u64 &&
            robbe_reach(1u64 << 25u64) == 0x50800080500u64 &&
            robbe_reach(1u64 << 26u64) == 0xA1100110A00u64 &&
            robbe_reach(1u64 << 27u64) == 0x142200221400u64 &&
            robbe_reach(1u64 << 28u64) == 0x284400442800u64 &&
            robbe_reach(1u64 << 29u64) == 0x508800885000u64 &&
            robbe_reach(1u64 << 30u64) == 0xA0100010A000u64 &&
            robbe_reach(1u64 << 31u64) == 0x402000204000u64 &&
            robbe_reach(1u64 << 32u64) == 0x2040004020000u64 &&
            robbe_reach(1u64 << 33u64) == 0x5080008050000u64 &&
            robbe_reach(1u64 << 34u64) == 0xA1100110A0000u64 &&
            robbe_reach(1u64 << 35u64) == 0x14220022140000u64 &&
            robbe_reach(1u64 << 36u64) == 0x28440044280000u64 &&
            robbe_reach(1u64 << 37u64) == 0x50880088500000u64 &&
            robbe_reach(1u64 << 38u64) == 0xA0100010A00000u64 &&
            robbe_reach(1u64 << 39u64) == 0x40200020400000u64 &&
            robbe_reach(1u64 << 40u64) == 0x204000402000000u64 &&
            robbe_reach(1u64 << 41u64) == 0x508000805000000u64 &&
            robbe_reach(1u64 << 42u64) == 0xA1100110A000000u64 &&
            robbe_reach(1u64 << 43u64) == 0x1422002214000000u64 &&
            robbe_reach(1u64 << 44u64) == 0x2844004428000000u64 &&
            robbe_reach(1u64 << 45u64) == 0x5088008850000000u64 &&
            robbe_reach(1u64 << 46u64) == 0xA0100010A0000000u64 &&
            robbe_reach(1u64 << 47u64) == 0x4020002040000000u64 &&
            robbe_reach(1u64 << 48u64) == 0x400040200000000u64 &&
            robbe_reach(1u64 << 49u64) == 0x800080500000000u64 &&
            robbe_reach(1u64 << 50u64) == 0x1100110A00000000u64 &&
            robbe_reach(1u64 << 51u64) == 0x2200221400000000u64 &&
            robbe_reach(1u64 << 52u64) == 0x4400442800000000u64 &&
            robbe_reach(1u64 << 53u64) == 0x8800885000000000u64 &&
            robbe_reach(1u64 << 54u64) == 0x100010A000000000u64 &&
            robbe_reach(1u64 << 55u64) == 0x2000204000000000u64 &&
            robbe_reach(1u64 << 56u64) == 0x4020000000000u64 &&
            robbe_reach(1u64 << 57u64) == 0x8050000000000u64 &&
            robbe_reach(1u64 << 58u64) == 0x110A0000000000u64 &&
            robbe_reach(1u64 << 59u64) == 0x22140000000000u64 &&
            robbe_reach(1u64 << 60u64) == 0x44280000000000u64 &&
            robbe_reach(1u64 << 61u64) == 0x88500000000000u64 &&
            robbe_reach(1u64 << 62u64) == 0x10A00000000000u64 &&
            robbe_reach(1u64 << 63u64) == 0x20400000000000u64) by (bit_vector);
}

/// The table of Moewe destinations agrees with the shifts square by square.
pub proof fn lemma_moewe_table()
    ensures
        forall|i: int| 0 <= i < 64 ==> #[trigger] LOOKUP_MOEWEN@[i] == moewe_reach(1u64 << i as u64),
{
    assert(moewe_reach(1u64 << 0u64) == 0x102u64 &&
            moewe_reach(1u64 << 1u64) == 0x205u64 &&
            moewe_reach(1u64 << 2u64) == 0x40Au64 &&
            moewe_reach(1u64 << 3u64) == 0x814u64 &&
            moewe_reach(1u64 << 4u64) == 0x1028u64 &&
            moewe_reach(1u64 << 5u64) == 0x2050u64 &&
            moewe_reach(1u64 << 6u64) == 0x40A0u64 &&
            moewe_reach(1u64 << 7u64) == 0x8040u64 &&
            moewe_reach(1u64 << 8u64) == 0x10201u64 &&
            moewe_reach(1u64 << 9u64) == 0x20502u64 &&
            moewe_reach(1u64 << 10u64) == 0x40A04u64 &&
            moewe_reach(1u64 << 11u64) == 0x81408u64 &&
            moewe_reach(1u64 << 12u64) == 0x102810u64 &&
            moewe_reach(1u64 << 13u64) == 0x205020u64 &&
            moewe_reach(1u64 << 14u64) == 0x40A040u64 &&
            moewe_reach(1u64 << 15u64) == 0x804080u64 &&
            moewe_reach(1u64 << 16u64) == 0x1020100u64 &&
            moewe_reach(1u64 << 17u64) == 0x2050200u64 &&
            moewe_reach(1u64 << 18u64) == 0x40A0400u64 &&
            moewe_reach(1u64 << 19u64) == 0x8140800u64 &&
            moewe_reach(1u64 << 20u64) == 0x10281000u64 &&
            moewe_reach(1u64 << 21u64) == 0x20502000u64 &&
            moewe_reach(1u64 << 22u64) == 0x40A04000u64 &&
            moewe_reach(1u64 << 23u64) == 0x80408000u64 &&
            moewe_reach(1u64 << 24u64) == 0x102010000u64 &&
            moewe_reach(1u64 << 25u64) == 0x205020000u64 &&
            moewe_reach(1u64 << 26u64) == 0x40A040000u64 &&
            moewe_reach(1u64 << 27u64) == 0x814080000u64 &&
            moewe_reach(1u64 << 28u64) == 0x1028100000u64 &&
            moewe_reach(1u64 << 29u64) == 0x2050200000u64 &&
            moewe_reach(1u64 << 30u64) == 0x40A0400000u64 &&
            moewe_reach(1u64 << 31u64) == 0x8040800000u64 &&
            moewe_reach(1u64 << 32u64) == 0x10201000000u64 &&
            moewe_reach(1u64 << 33u64) == 0x20502000000u64 &&
            moewe_reach(1u64 << 34u64) == 0x40A04000000u64 &&
            moewe_reach(1u64 << 35u64) == 0x81408000000u64 &&
            moewe_reach(1u64 << 36u64) == 0x102810000000u64 &&
            moewe_reach(1u64 << 37u64) == 0x205020000000u64 &&
            moewe_reach(1u64 << 38u64) == 0x40A040000000u64 &&
            moewe_reach(1u64 << 39u64) == 0x804080000000u64 &&
            moewe_reach(1u64 << 40u64) == 0x1020100000000u64 &&
            moewe_reach(1u64 << 41u64) == 0x2050200000000u64 &&
            moewe_reach(1u64 << 42u64) == 0x40A0400000000u64 &&
            moewe_reach(1u64 << 43u64) == 0x8140800000000u64 &&
            moewe_reach(1u64 << 44u64) == 0x10281000000000u64 &&
            moewe_reach(1u64 << 45u64) == 0x20502000000000u64 &&
            moewe_reach(1u64 << 46u64) == 0x40A04000000000u64 &&
            moewe_reach(1u64 << 47u64) == 0x80408000000000u64 &&
            moewe_reach(1u64 << 48u64) == 0x102010000000000u64 &&
            moewe_reach(1u64 << 49u64) == 0x205020000000000u64 &&
            moewe_reach(1u64 << 50u64) == 0x40A040000000000u64 &&
            moewe_reach(1u64 << 51u64) == 0x814080000000000u64 &&
            moewe_reach(1u64 << 52u64) == 0x1028100000000000u64 &&
            moewe_reach(1u64 << 53u64) == 0x2050200000000000u64 &&
            moewe_reach(1u64 << 54u64) == 0x40A0400000000000u64 &&
            moewe_reach(1u64 << 55u64) == 0x8040800000000000u64 &&
            moewe_reach(1u64 << 56u64) == 0x201000000000000u64 &&
            moewe_reach(1u64 << 57u64) == 0x502000000000000u64 &&
            moewe_reach(1u64 << 58u64) == 0xA04000000000000u64 &&
            moewe_reach(1u64 << 59u64) == 0x1408000000000000u64 &&
            moewe_reach(1u64 << 60u64) == 0x2810000000000000u64 &&
            moewe_reach(1u64 << 61u64) == 0x5020000000000000u64 &&
            moewe_reach(1u64 << 62u64) == 0xA040000000000000u64 &&
            moewe_reach(1u64 << 63u64) == 0x4080000000000000u64) by (bit_vector);
}

/// The table of Seestern destinations agrees with the shifts square by square, for both teams.
pub proof fn lemma_seestern_table()
    ensures
        forall|i: int| 0 <= i < 64 ==> #[trigger] LOOKUP_SEESTERN@[i] == seestern_reach(1u64 << i as u64, Team::ONE),
        forall|i: int| 0 <= i < 64 ==> #[trigger] LOOKUP_SEESTERN@[64 + i] == seestern_reach(1u64 << i as u64, Team::TWO),
{
    assert(seestern_reach(1u64 << 0u64, Team::ONE) == 0x202u64 &&
            seestern_reach(1u64 << 1u64, Team::ONE) == 0x504u64 &&
            seestern_reach(1u64 << 2u64, Team::ONE) == 0xA08u64 &&
            seestern_reach(1u64 << 3u64, Team::ONE) == 0x1410u64 &&
            seestern_reach(1u64 << 4u64, Team::ONE) == 0x2820u64 &&
            seestern_reach(1u64 << 5u64, Team::ONE) == 0x5040u64 &&
            seestern_reach(1u64 << 6u64, Team::ONE) == 0xA080u64 &&
            seestern_reach(1u64 << 7u64, Team::ONE) == 0x4000u64 &&
            seestern_reach(1u64 << 8u64, Team::ONE) == 0x20202u64 &&
            seestern_reach(1u64 << 9u64, Team::ONE) == 0x50405u64 &&
            seestern_reach(1u64 << 10u64, Team::ONE) == 0xA080Au64 &&
            seestern_reach(1u64 << 11u64, Team::ONE) == 0x141014u64 &&
            seestern_reach(1u64 << 12u64, Team::ONE) == 0x282028u64 &&
            seestern_reach(1u64 << 13u64, Team::ONE) == 0x504050u64 &&
            seestern_reach(1u64 << 14u64, Team::ONE) == 0xA080A0u64 &&
            seestern_reach(1u64 << 15u64, Team::ONE) == 0x400040u64 &&
            seestern_reach(1u64 << 16u64, Team::ONE) == 0x2020200u64 &&
            seestern_reach(1u64 << 17u64, Team::ONE) == 0x5040500u64 &&
            seestern_reach(1u64 << 18u64, Team::ONE) == 0xA080A00u64 &&
            seestern_reach(1u64 << 19u64, Team::ONE) == 0x14101400u64 &&
            seestern_reach(1u64 << 20u64, Team::ONE) == 0x28202800u64 &&
            seestern_reach(1u64 << 21u64, Team::ONE) == 0x50405000u64 &&
            seestern_reach(1u64 << 22u64, Team::ONE) == 0xA080A000u64 &&
            seestern_reach(1u64 << 23u64, Team::ONE) == 0x40004000u64 &&
            seestern_reach(1u64 << 24u64, Team::ONE) == 0x202020000u64 &&
            seestern_reach(1u64 << 25u64, Team::ONE) == 0x504050000u64 &&
            seestern_reach(1u64 << 26u64, Team::ONE) == 0xA080A0000u64 &&
            seestern_reach(1u64 << 27u64, Team::ONE) == 0x1410140000u64 &&
            seestern_reach(1u64 << 28u64, Team::ONE) == 0x2820280000u64 &&
            seestern_reach(1u64 << 29u64, Team::ONE) == 0x5040500000u64 &&
            seestern_reach(1u64 << 30u64, Team::ONE) == 0xA080A00000u64 &&
            seestern_reach(1u64 << 31u64, Team::ONE) == 0x4000400000u64 &&
            seestern_reach(1u64 << 32u64, Team::ONE) == 0x20202000000u64 &&
            seestern_reach(1u64 << 33u64, Team::ONE) == 0x50405000000u64 &&
            seestern_reach(1u64 << 34u64, Team::ONE) == 0xA080A000000u64 &&
            seestern_reach(1u64 << 35u64, Team::ONE) == 0x141014000000u64 &&
            seestern_reach(1u64 << 36u64, Team::ONE) == 0x282028000000u64 &&
            seestern_reach(1u64 << 37u64, Team::ONE) == 0x504050000000u64 &&
            seestern_reach(1u64 << 38u64, Team::ONE) == 0xA080A0000000u64 &&
            seestern_reach(1u64 << 39u64, Team::ONE) == 0x400040000000u64 &&
            seestern_reach(1u64 << 40u64, Team::ONE) == 0x2020200000000u64 &&
            seestern_reach(1u64 << 41u64, Team::ONE) == 0x5040500000000u64 &&
            seestern_reach(1u64 << 42u64, Team::ONE) == 0xA080A00000000u64 &&
            seestern_reach(1u64 << 43u64, Team::ONE) == 0x14101400000000u64 &&
            seestern_reach(1u64 << 44u64, Team::ONE) == 0x28202800000000u64 &&
            seestern_reach(1u64 << 45u64, Team::ONE) == 0x50405000000000u64 &&
            seestern_reach(1u64 << 46u64, Team::ONE) == 0xA080A000000000u64 &&
            seestern_reach(1u64 << 47u64, Team::ONE) == 0x40004000000000u64 &&
            seestern_reach(1u64 << 48u64, Team::ONE) == 0x202020000000000u64 &&
            seestern_reach(1u64 << 49u64, Team::ONE) == 0x504050000000000u64 &&
            seestern_reach(1u64 << 50u64, Team::ONE) == 0xA080A0000000000u64 &&
            seestern_reach(1u64 << 51u64, Team::ONE) == 0x1410140000000000u64 &&
            seestern_reach(1u64 << 52u64, Team::ONE) == 0x2820280000000000u64 &&
            seestern_reach(1u64 << 53u64, Team::ONE) == 0x5040500000000000u64 &&
            seestern_reach(1u64 << 54u64, Team::ONE) == 0xA080A00000000000u64 &&
            seestern_reach(1u64 << 55u64, Team::ONE) == 0x4000400000000000u64 &&
            seestern_reach(1u64 << 56u64, Team::ONE) == 0x202000000000000u64 &&
            seestern_reach(1u64 << 57u64, Team::ONE) == 0x405000000000000u64 &&
            seestern_reach(1u64 << 58u64, Team::ONE) == 0x80A000000000000u64 &&
            seestern_reach(1u64 << 59u64, Team::ONE) == 0x1014000000000000u64 &&
            seestern_reach(1u64 << 60u64, Team::ONE) == 0x2028000000000000u64 &&
            seestern_reach(1u64 << 61u64, Team::ONE) == 0x4050000000000000u64 &&
            seestern_reach(1u64 << 62u64, Team::ONE) == 0x80A0000000000000u64 &&
            seestern_reach(1u64 << 63u64, Team::ONE) == 0x40000000000000u64) by (bit_vector);
    assert(seestern_reach(1u64 << 0u64, Team::TWO) == 0x200u64 &&
            seestern_reach(1u64 << 1u64, Team::TWO) == 0x501u64 &&
            seestern_reach(1u64 << 2u64, Team::TWO) == 0xA02u64 &&
            seestern_reach(1u64 << 3u64, Team::TWO) == 0x1404u64 &&
            seestern_reach(1u64 << 4u64, Team::TWO) == 0x2808u64 &&
            seestern_reach(1u64 << 5u64, Team::TWO) == 0x5010u64 &&
            seestern_reach(1u64 << 6u64, Team::TWO) == 0xA020u64 &&
            seestern_reach(1u64 << 7u64, Team::TWO) == 0x4040u64 &&
            seestern_reach(1u64 << 8u64, Team::TWO) == 0x20002u64 &&
            seestern_reach(1u64 << 9u64, Team::TWO) == 0x50105u64 &&
            seestern_reach(1u64 << 10u64, Team::TWO) == 0xA020Au64 &&
            seestern_reach(1u64 << 11u64, Team::TWO) == 0x140414u64 &&
            seestern_reach(1u64 << 12u64, Team::TWO) == 0x280828u64 &&
            seestern_reach(1u64 << 13u64, Team::TWO) == 0x501050u64 &&
            seestern_reach(1u64 << 14u64, Team::TWO) == 0xA020A0u64 &&
            seestern_reach(1u64 << 15u64, Team::TWO) == 0x404040u64 &&
            seestern_reach(1u64 << 16u64, Team::TWO) == 0x2000200u64 &&
            seestern_reach(1u64 << 17u64, Team::TWO) == 0x5010500u64 &&
            seestern_reach(1u64 << 18u64, Team::TWO) == 0xA020A00u64 &&
            seestern_reach(1u64 << 19u64, Team::TWO) == 0x14041400u64 &&
            seestern_reach(1u64 << 20u64, Team::TWO) == 0x28082800u64 &&
            seestern_reach(1u64 << 21u64, Team::TWO) == 0x50105000u64 &&
            seestern_reach(1u64 << 22u64, Team::TWO) == 0xA020A000u64 &&
            seestern_reach(1u64 << 23u64, Team::TWO) == 0x40404000u64 &&
            seestern_reach(1u64 << 24u64, Team::TWO) == 0x200020000u64 &&
            seestern_reach(1u64 << 25u64, Team::TWO) == 0x501050000u64 &&
            seestern_reach(1u64 << 26u64, Team::TWO) == 0xA020A0000u64 &&
            seestern_reach(1u64 << 27u64, Team::TWO) == 0x1404140000u64 &&
            seestern_reach(1u64 << 28u64, Team::TWO) == 0x2808280000u64 &&
            seestern_reach(1u64 << 29u64, Team::TWO) == 0x5010500000u64 &&
            seestern_reach(1u64 << 30u64, Team::TWO) == 0xA020A00000u64 &&
            seestern_reach(1u64 << 31u64, Team::TWO) == 0x4040400000u64 &&
            seestern_reach(1u64 << 32u64, Team::TWO) == 0x20002000000u64 &&
            seestern_reach(1u64 << 33u64, Team::TWO) == 0x50105000000u64 &&
            seestern_reach(1u64 << 34u64, Team::TWO) == 0xA020A000000u64 &&
            seestern_reach(1u64 << 35u64, Team::TWO) == 0x140414000000u64 &&
            seestern_reach(1u64 << 36u64, Team::TWO) == 0x280828000000u64 &&
            seestern_reach(1u64 << 37u64, Team::TWO) == 0x501050000000u64 &&
            seestern_reach(1u64 << 38u64, Team::TWO) == 0xA020A0000000u64 &&
            seestern_reach(1u64 << 39u64, Team::TWO) == 0x404040000000u64 &&
            seestern_reach(1u64 << 40u64, Team::TWO) == 0x2000200000000u64 &&
            seestern_reach(1u64 << 41u64, Team::TWO) == 0x5010500000000u64 &&
            seestern_reach(1u64 << 42u64, Team::TWO) == 0xA020A00000000u64 &&
            seestern_reach(1u64 << 43u64, Team::TWO) == 0x14041400000000u64 &&
            seestern_reach(1u64 << 44u64, Team::TWO) == 0x28082800000000u64 &&
            seestern_reach(1u64 << 45u64, Team::TWO) == 0x50105000000000u64 &&
            seestern_reach(1u64 << 46u64, Team::TWO) == 0xA020A000000000u64 &&
            seestern_reach(1u64 << 47u64, Team::TWO) == 0x40404000000000u64 &&
            seestern_reach(1u64 << 48u64, Team::TWO) == 0x200020000000000u64 &&
            seestern_reach(1u64 << 49u64, Team::TWO) == 0x501050000000000u64 &&
            seestern_reach(1u64 << 50u64, Team::TWO) == 0xA020A0000000000u64 &&
            seestern_reach(1u64 << 51u64, Team::TWO) == 0x1404140000000000u64 &&
            seestern_reach(1u64 << 52u64, Team::TWO) == 0x2808280000000000u64 &&
            seestern_reach(1u64 << 53u64, Team::TWO) == 0x5010500000000000u64 &&
            seestern_reach(1u64 << 54u64, Team::TWO) == 0xA020A00000000000u64 &&
            seestern_reach(1u64 << 55u64, Team::TWO) == 0x4040400000000000u64 &&
            seestern_reach(1u64 << 56u64, Team::TWO) == 0x2000000000000u64 &&
            seestern_reach(1u64 << 57u64, Team::TWO) == 0x105000000000000u64 &&
            seestern_reach(1u64 << 58u64, Team::TWO) == 0x20A000000000000u64 &&
            seestern_reach(1u64 << 59u64, Team::TWO) == 0x414000000000000u64 &&
            seestern_reach(1u64 << 60u64, Team::TWO) == 0x828000000000000u64 &&
            seestern_reach(1u64 << 61u64, Team::TWO) == 0x1050000000000000u64 &&
            seestern_reach(1u64 << 62u64, Team::TWO) == 0x20A0000000000000u64 &&
            seestern_reach(1u64 << 63u64, Team::TWO) == 0x4040000000000000u64) by (bit_vector);
}

/// The table of Herzmuschel destinations agrees with the shifts square by square, for both teams.
pub proof fn lemma_muschel_table()
    ensures
        forall|i: int| 0 <= i < 64 ==> #[trigger] LOOKUP_MUSCHELN@[i] == muschel_reach(1u64 << i as u64, Team::ONE),
        forall|i: int| 0 <= i < 64 ==> #[trigger] LOOKUP_MUSCHELN@[64 + i] == muschel_reach(1u64 << i as u64, Team::TWO),
{
    assert(muschel_reach(1u64 << 0u64, Team::ONE) == 0x200u64 &&
            muschel_reach(1u64 << 1u64, Team::ONE) == 0x400u64 &&
            muschel_reach(1u64 << 2u64, Team::ONE) == 0x800u64 &&
            muschel_reach(1u64 << 3u64, Team::ONE) == 0x1000u64 &&
            muschel_reach(1u64 << 4u64, Team::ONE) == 0x2000u64 &&
            muschel_reach(1u64 << 5u64, Team::ONE) == 0x4000u64 &&
            muschel_reach(1u64 << 6u64, Team::ONE) == 0x8000u64 &&
            muschel_reach(1u64 << 7u64, Team::ONE) == 0x0u64 &&
            muschel_reach(1u64 << 8u64, Team::ONE) == 0x20002u64 &&
            muschel_reach(1u64 << 9u64, Team::ONE) == 0x40004u64 &&
            muschel_reach(1u64 << 10u64, Team::ONE) == 0x80008u64 &&
            muschel_reach(1u64 << 11u64, Team::ONE) == 0x100010u64 &&
            muschel_reach(1u64 << 12u64, Team::ONE) == 0x200020u64 &&
            muschel_reach(1u64 << 13u64, Team::ONE) == 0x400040u64 &&
            muschel_reach(1u64 << 14u64, Team::ONE) == 0x800080u64 &&
            muschel_reach(1u64 << 15u64, Team::ONE) == 0x0u64 &&
            muschel_reach(1u64 << 16u64, Team::ONE) == 0x2000200u64 &&
            muschel_reach(1u64 << 17u64, Team::ONE) == 0x4000400u64 &&
            muschel_reach(1u64 << 18u64, Team::ONE) == 0x8000800u64 &&
            muschel_reach(1u64 << 19u64, Team::ONE) == 0x10001000u64 &&
            muschel_reach(1u64 << 20u64, Team::ONE) == 0x20002000u64 &&
            muschel_reach(1u64 << 21u64, Team::ONE) == 0x40004000u64 &&
            muschel_reach(1u64 << 22u64, Team::ONE) == 0x80008000u64 &&
            muschel_reach(1u64 << 23u64, Team::ONE) == 0x0u64 &&
            muschel_reach(1u64 << 24u64, Team::ONE) == 0x200020000u64 &&
            muschel_reach(1u64 << 25u64, Team::ONE) == 0x400040000u64 &&
            muschel_reach(1u64 << 26u64, Team::ONE) == 0x800080000u64 &&
            muschel_reach(1u64 << 27u64, Team::ONE) == 0x1000100000u64 &&
            muschel_reach(1u64 << 28u64, Team::ONE) == 0x2000200000u64 &&
            muschel_reach(1u64 << 29u64, Team::ONE) == 0x4000400000u64 &&
            muschel_reach(1u64 << 30u64, Team::ONE) == 0x8000800000u64 &&
            muschel_reach(1u64 << 31u64, Team::ONE) == 0x0u64 &&
            muschel_reach(1u64 << 32u64, Team::ONE) == 0x20002000000u64 &&
            muschel_reach(1u64 << 33u64, Team::ONE) == 0x40004000000u64 &&
            muschel_reach(1u64 << 34u64, Team::ONE) == 0x80008000000u64 &&
            muschel_reach(1u64 << 35u64, Team::ONE) == 0x100010000000u64 &&
            muschel_reach(1u64 << 36u64, Team::ONE) == 0x200020000000u64 &&
            muschel_reach(1u64 << 37u64, Team::ONE) == 0x400040000000u64 &&
            muschel_reach(1u64 << 38u64, Team::ONE) == 0x800080000000u64 &&
            muschel_reach(1u64 << 39u64, Team::ONE) == 0x0u64 &&
            muschel_reach(1u64 << 40u64, Team::ONE) == 0x2000200000000u64 &&
            muschel_reach(1u64 << 41u64, Team::ONE) == 0x4000400000000u64 &&
            muschel_reach(1u64 << 42u64, Team::ONE) == 0x8000800000000u64 &&
            muschel_reach(1u64 << 43u64, Team::ONE) == 0x10001000000000u64 &&
            muschel_reach(1u64 << 44u64, Team::ONE) == 0x20002000000000u64 &&
            muschel_reach(1u64 << 45u64, Team::ONE) == 0x40004000000000u64 &&
            muschel_reach(1u64 << 46u64, Team::ONE) == 0x80008000000000u64 &&
            muschel_reach(1u64 << 47u64, Team::ONE) == 0x0u64 &&
            muschel_reach(1u64 << 48u64, Team::ONE) == 0x200020000000000u64 &&
            muschel_reach(1u64 << 49u64, Team::ONE) == 0x400040000000000u64 &&
            muschel_reach(1u64 << 50u64, Team::ONE) == 0x800080000000000u64 &&
            muschel_reach(1u64 << 51u64, Team::ONE) == 0x1000100000000000u64 &&
            muschel_reach(1u64 << 52u64, Team::ONE) == 0x2000200000000000u64 &&
            muschel_reach(1u64 << 53u64, Team::ONE) == 0x4000400000000000u64 &&
            muschel_reach(1u64 << 54u64, Team::ONE) == 0x8000800000000000u64 &&
            muschel_reach(1u64 << 55u64, Team::ONE) == 0x0u64 &&
            muschel_reach(1u64 << 56u64, Team::ONE) == 0x2000000000000u64 &&
            muschel_reach(1u64 << 57u64, Team::ONE) == 0x4000000000000u64 &&
            muschel_reach(1u64 << 58u64, Team::ONE) == 0x8000000000000u64 &&
            muschel_reach(1u64 << 59u64, Team::ONE) == 0x10000000000000u64 &&
            muschel_reach(1u64 << 60u64, Team::ONE) == 0x20000000000000u64 &&
            muschel_reach(1u64 << 61u64, Team::ONE) == 0x40000000000000u64 &&
            muschel_reach(1u64 << 62u64, Team::ONE) == 0x80000000000000u64 &&
            muschel_reach(1u64 << 63u64, Team::ONE) == 0x0u64) by (bit_vector);
    assert(muschel_reach(1u64 << 0u64, Team::TWO) == 0x0u64 &&
            muschel_reach(1u64 << 1u64, Team::TWO) == 0x100u64 &&
            muschel_reach(1u64 << 2u64, Team::TWO) == 0x200u64 &&
            muschel_reach(1u64 << 3u64, Team::TWO) == 0x400u64 &&
            muschel_reach(1u64 << 4u64, Team::TWO) == 0x800u64 &&
            muschel_reach(1u64 << 5u64, Team::TWO) == 0x1000u64 &&
            muschel_reach(1u64 << 6u64, Team::TWO) == 0x2000u64 &&
            muschel_reach(1u64 << 7u64, Team::TWO) == 0x4000u64 &&
            muschel_reach(1u64 << 8u64, Team::TWO) == 0x0u64 &&
            muschel_reach(1u64 << 9u64, Team::TWO) == 0x10001u64 &&
            muschel_reach(1u64 << 10u64, Team::TWO) == 0x20002u64 &&
            muschel_reach(1u64 << 11u64, Team::TWO) == 0x40004u64 &&
            muschel_reach(1u64 << 12u64, Team::TWO) == 0x80008u64 &&
            muschel_reach(1u64 << 13u64, Team::TWO) == 0x100010u64 &&
            muschel_reach(1u64 << 14u64, Team::TWO) == 0x200020u64 &&
            muschel_reach(1u64 << 15u64, Team::TWO) == 0x400040u64 &&
            muschel_reach(1u64 << 16u64, Team::TWO) == 0x0u64 &&
            muschel_reach(1u64 << 17u64, Team::TWO) == 0x1000100u64 &&
            muschel_reach(1u64 << 18u64, Team::TWO) == 0x2000200u64 &&
            muschel_reach(1u64 << 19u64, Team::TWO) == 0x4000400u64 &&
            muschel_reach(1u64 << 20u64, Team::TWO) == 0x8000800u64 &&
            muschel_reach(1u64 << 21u64, Team::TWO) == 0x10001000u64 &&
            muschel_reach(1u64 << 22u64, Team::TWO) == 0x20002000u64 &&
            muschel_reach(1u64 << 23u64, Team::TWO) == 0x40004000u64 &&
            muschel_reach(1u64 << 24u64, Team::TWO) == 0x0u64 &&
            muschel_reach(1u64 << 25u64, Team::TWO) == 0x100010000u64 &&
            muschel_reach(1u64 << 26u64, Team::TWO) == 0x200020000u64 &&
            muschel_reach(1u64 << 27u64, Team::TWO) == 0x400040000u64 &&
            muschel_reach(1u64 << 28u64, Team::TWO) == 0x800080000u64 &&
            muschel_reach(1u64 << 29u64, Team::TWO) == 0x1000100000u64 &&
            muschel_reach(1u64 << 30u64, Team::TWO) == 0x2000200000u64 &&
            muschel_reach(1u64 << 31u64, Team::TWO) == 0x4000400000u64 &&
            muschel_reach(1u64 << 32u64, Team::TWO) == 0x0u64 &&
            muschel_reach(1u64 << 33u64, Team::TWO) == 0x10001000000u64 &&
            muschel_reach(1u64 << 34u64, Team::TWO) == 0x20002000000u64 &&
            muschel_reach(1u64 << 35u64, Team::TWO) == 0x40004000000u64 &&
            muschel_reach(1u64 << 36u64, Team::TWO) == 0x80008000000u64 &&
            muschel_reach(1u64 << 37u64, Team::TWO) == 0x100010000000u64 &&
            muschel_reach(1u64 << 38u64, Team::TWO) == 0x200020000000u64 &&
            muschel_reach(1u64 << 39u64, Team::TWO) == 0x400040000000u64 &&
            muschel_reach(1u64 << 40u64, Team::TWO) == 0x0u64 &&
            muschel_reach(1u64 << 41u64, Team::TWO) == 0x1000100000000u64 &&
            muschel_reach(1u64 << 42u64, Team::TWO) == 0x2000200000000u64 &&
            muschel_reach(1u64 << 43u64, Team::TWO) == 0x4000400000000u64 &&
            muschel_reach(1u64 << 44u64, Team::TWO) == 0x8000800000000u64 &&
            muschel_reach(1u64 << 45u64, Team::TWO) == 0x10001000000000u64 &&
            muschel_reach(1u64 << 46u64, Team::TWO) == 0x20002000000000u64 &&
            muschel_reach(1u64 << 47u64, Team::TWO) == 0x40004000000000u64 &&
            muschel_reach(1u64 << 48u64, Team::TWO) == 0x0u64 &&
            muschel_reach(1u64 << 49u64, Team::TWO) == 0x100010000000000u64 &&
            muschel_reach(1u64 << 50u64, Team::TWO) == 0x200020000000000u64 &&
            muschel_reach(1u64 << 51u64, Team::TWO) == 0x400040000000000u64 &&
            muschel_reach(1u64 << 52u64, Team::TWO) == 0x800080000000000u64 &&
            muschel_reach(1u64 << 53u64, Team::TWO) == 0x1000100000000000u64 &&
            muschel_reach(1u64 << 54u64, Team::TWO) == 0x2000200000000000u64 &&
            muschel_reach(1u64 << 55u64, Team::TWO) == 0x4000400000000000u64 &&
            muschel_reach(1u64 << 56u64, Team::TWO) == 0x0u64 &&
            muschel_reach(1u64 << 57u64, Team::TWO) == 0x1000000000000u64 &&
            muschel_reach(1u64 << 58u64, Team::TWO) == 0x2000000000000u64 &&
            muschel_reach(1u64 << 59u64, Team::TWO) == 0x4000000000000u64 &&
            muschel_reach(1u64 << 60u64, Team::TWO) == 0x8000000000000u64 &&
            muschel_reach(1u64 << 61u64, Team::TWO) == 0x10000000000000u64 &&
            muschel_reach(1u64 << 62u64, Team::TWO) == 0x20000000000000u64 &&
            muschel_reach(1u64 << 63u64, Team::TWO) == 0x40000000000000u64) by (bit_vector);
}

pub fn robbe_lookup_moves(pos: u8) -> (r: Bitboard)
    requires
        pos < 64,
    ensures
        r.bits == robbe_reach(1u64 << pos as u64),
{
    proof {
        lemma_robbe_table();
    }
    Bitboard { bits: LOOKUP_ROBBEN[pos as usize] }
}

pub fn moewe_lookup_moves(pos: u8) -> (r: Bitboard)
    requires
        pos < 64,
    ensures
        r.bits == moewe_reach(1u64 << pos as u64),
{
    proof {
        lemma_moewe_table();
    }
    Bitboard { bits: LOOKUP_MOEWEN[pos as usize] }
}

pub fn seestern_lookup_moves(pos: u8, player: Team) -> (r: Bitboard)
    requires
        pos < 64,
    ensures
        r.bits == seestern_reach(1u64 << pos as u64, player),
{
    proof {
        lemma_seestern_table();
    }
    let i: usize = player.index() * 64 + pos as usize;
    Bitboard { bits: LOOKUP_SEESTERN[i] }
}

pub fn muschel_lookup_moves(pos: u8, player: Team) -> (r: Bitboard)
    requires
        pos < 64,
    ensures
        r.bits == muschel_reach(1u64 << pos as u64, player),
{
    proof {
        lemma_muschel_table();
    }
    let i: usize = player.index() * 64 + pos as usize;
    Bitboard { bits: LOOKUP_MUSCHELN[i] }
}

/// The distance between two coordinates.
pub open spec fn gap(a: u64, b: u64) -> u64 {
    if a >= b {
        (a - b) as u64
    } else {
        (b - a) as u64
    }
}

/// A Moewe on rank `r`, file `f` reaches exactly the squares one step away along a rank or a
/// file, and none beyond the edge of the board.
pub proof fn lemma_moewe_offsets(r: u64, f: u64, r2: u64, f2: u64)
    requires
        r < 8,
        f < 8,
        r2 < 8,
        f2 < 8,
    ensures
        bit(moewe_reach(1u64 << ((8 * r + f) as u64)), (8 * r2 + f2) as u64) == (gap(r, r2) + gap(f, f2) == 1),
{
    assert(bit(moewe_reach(1u64 << ((8 * r + f) as u64)), (8 * r2 + f2) as u64) == (gap(r, r2) + gap(f, f2) == 1))
        by (bit_vector)
        requires
            r < 8,
            f < 8,
            r2 < 8,
            f2 < 8,
    ;
}

/// A Robbe on rank `r`, file `f` reaches exactly the squares a chess knight reaches: two
/// steps along one axis and one along the other, and none beyond the edge of the board.
pub proof fn lemma_robbe_offsets(r: u64, f: u64, r2: u64, f2: u64)
    requires
        r < 8,
        f < 8,
        r2 < 8,
        f2 < 8,
    ensures
        bit(robbe_reach(1u64 << ((8 * r + f) as u64)), (8 * r2 + f2) as u64) == ((gap(r, r2) == 1 && gap(f, f2) == 2)
            || (gap(r, r2) == 2 && gap(f, f2) == 1)),
{
    assert(bit(robbe_reach(1u64 << ((8 * r + f) as u64)), (8 * r2 + f2) as u64) == ((gap(r, r2) == 1 && gap(f, f2) == 2)
        || (gap(r, r2) == 2 && gap(f, f2) == 1))) by (bit_vector)
        requires
            r < 8,
            f < 8,
            r2 < 8,
            f2 < 8,
    ;
}

/// A Seestern on rank `r`, file `f` reaches the four diagonal neighbours and the neighbour one
/// file forward: up the files for team `ONE`, down for team `TWO`.
pub proof fn lemma_seestern_offsets(r: u64, f: u64, r2: u64, f2: u64)
    requires
        r < 8,
        f < 8,
        r2 < 8,
        f2 < 8,
    ensures
        bit(seestern_reach(1u64 << ((8 * r + f) as u64), Team::ONE), (8 * r2 + f2) as u64) == ((gap(r, r2) == 1
            && gap(f, f2) == 1) || (r == r2 && f2 == f + 1)),
        bit(seestern_reach(1u64 << ((8 * r + f) as u64), Team::TWO), (8 * r2 + f2) as u64) == ((gap(r, r2) == 1
            && gap(f, f2) == 1) || (r == r2 && f == f2 + 1)),
{
    assert(bit(seestern_reach(1u64 << ((8 * r + f) as u64), Team::ONE), (8 * r2 + f2) as u64) == ((gap(r, r2)
        == 1 && gap(f, f2) == 1) || (r == r2 && f2 == f + 1)) && bit(
        seestern_reach(1u64 << ((8 * r + f) as u64), Team::TWO),
        (8 * r2 + f2) as u64,
    ) == ((gap(r, r2) == 1 && gap(f, f2) == 1) || (r == r2 && f == f2 + 1))) by (bit_vector)
        requires
            r < 8,
            f < 8,
            r2 < 8,
            f2 < 8,
    ;
}

/// A Herzmuschel on rank `r`, file `f` reaches the two diagonal neighbours one file forward:
/// up the files for team `ONE`, down for team `TWO`.
pub proof fn lemma_muschel_offsets(r: u64, f: u64, r2: u64, f2: u64)
    requires
        r < 8,
        f < 8,
        r2 < 8,
        f2 < 8,
    ensures
        bit(muschel_reach(1u64 << ((8 * r + f) as u64), Team::ONE), (8 * r2 + f2) as u64) == (gap(r, r2) == 1
            && f2 == f + 1),
        bit(muschel_reach(1u64 << ((8 * r + f) as u64), Team::TWO), (8 * r2 + f2) as u64) == (gap(r, r2) == 1
            && f == f2 + 1),
{
    assert(bit(muschel_reach(1u64 << ((8 * r + f) as u64), Team::ONE), (8 * r2 + f2) as u64) == (gap(r, r2) == 1
        && f2 == f + 1) && bit(muschel_reach(1u64 << ((8 * r + f) as u64), Team::TWO), (8 * r2 + f2) as u64)
        == (gap(r, r2) == 1 && f == f2 + 1)) by (bit_vector)
        requires
            r < 8,
            f < 8,
            r2 < 8,
            f2 < 8,
    ;
}

} // verus!
