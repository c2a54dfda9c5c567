use ostseeschach::bitboard::{bit_loop, count_ones, square_of};
use ostseeschach::Bitboard;

#[test]
fn test_rotate_90_anticlockwise() {
    assert_eq!(
        Bitboard { bits: 0xff00000000000000 },
        Bitboard { bits: 0x8080808080808080 }.rotate90_anti_clockwise()
    )
}

#[test]
fn test_rotate_90_clockwise() {
    assert_eq!(
        Bitboard { bits: 0x8080808080808080 },
        Bitboard { bits: 0xff00000000000000 }.rotate90_clockwise()
    )
}

#[test]
fn test_rotate_180() {
    assert_eq!(
        Bitboard { bits: 0x101010101010101 },
        Bitboard { bits: 0x8080808080808080 }.rotate180()
    )
}

#[test]
fn rotations_are_involutions() {
    for x in [0u64, 1, 0x8000000000000001, 0x0123456789abcdef, u64::MAX, 0xf0f0f0f00f0f0f0f] {
        let mut b = Bitboard { bits: x };
        b.rotate180();
        b.rotate180();
        assert_eq!(b.bits, x);
        let mut c = Bitboard { bits: x };
        c.rotate90_anti_clockwise();
        c.rotate90_clockwise();
        assert_eq!(c.bits, x);
        let mut d = Bitboard { bits: x };
        d.flip_diagonal_a1_h8();
        d.flip_diagonal_a1_h8();
        assert_eq!(d.bits, x);
    }
}

#[test]
fn flips_move_single_squares() {
    // square 1 (b1) mirrored across the ranks is b8, across the files g1, across the diagonal a2
    assert_eq!(Bitboard { bits: 1 << 1 }.flip_vertical().bits, 1 << 57);
    assert_eq!(Bitboard { bits: 1 << 1 }.flip_horizontal().bits, 1 << 6);
    assert_eq!(Bitboard { bits: 1 << 1 }.flip_diagonal_a1_h8().bits, 1 << 8);
    assert_eq!(Bitboard { bits: 1 << 1 }.rotate180().bits, 1 << 62);
}

#[test]
fn reverse_is_bit_reversal() {
    let mut b = Bitboard { bits: 0x0123456789abcdef };
    b.reverse();
    assert_eq!(b.bits, 0x0123456789abcdefu64.reverse_bits());
}

#[test]
fn single_bit_operations() {
    let mut b = Bitboard::new();
    b.set_bit(5);
    assert!(b.get_bit(5));
    assert!(!b.get_bit(4));
    b.toggle_bit(4);
    assert_eq!(b.bits, 0b110000);
    b.clear_bit(5);
    assert_eq!(b.bits, 0b10000);
    b.flip_bit(4);
    assert_eq!(b.bits, 0);
    b.set_all();
    assert_eq!(b.bits, u64::MAX);
    b.clear_all();
    assert_eq!(b.bits, 0);
}

#[test]
fn swap_and_overlap() {
    let mut a = Bitboard { bits: 3 };
    let mut b = Bitboard { bits: 12 };
    a.swap_with(&mut b);
    assert_eq!((a.bits, b.bits), (12, 3));
    assert_eq!(a.overlaps(Bitboard { bits: 4 }).bits, u64::MAX);
    assert_eq!(a.overlaps(Bitboard { bits: 1 }).bits, 0);
}

#[test]
fn bits_one_by_one() {
    assert_eq!(bit_loop(0b1010_0001), vec![1, 0b10_0000, 0b1000_0000]);
    assert_eq!(bit_loop(0), Vec::<u64>::new());
    assert_eq!(square_of(1 << 37), 37);
    assert_eq!(square_of(0), 64);
    assert_eq!(count_ones(0xF0F0), 8);
    assert_eq!(Bitboard { bits: u64::MAX }.count(), 64);
}
