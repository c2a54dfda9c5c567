use vstd::prelude::*;

verus! {

/// Masks swapping neighbouring byte rows, then pairs of rows.
pub const K1: u64 = 0x00FF00FF00FF00FF;
pub const K2: u64 = 0x0000FFFF0000FFFF;

/// Masks of the three passes that transpose the board across the a1-h8 diagonal.
pub const D1: u64 = 0x5500550055005500;
pub const D2: u64 = 0x3333000033330000;
pub const D3: u64 = 0x0f0f0f0f00000000;

/// Masks swapping neighbouring files, then pairs and quadruples of files.
pub const H1: u64 = 0x5555555555555555;
pub const H2: u64 = 0x3333333333333333;
pub const H3: u64 = 0x0F0F0F0F0F0F0F0F;

/// Whether bit `i` of `x` is set.
pub open spec fn bit(x: u64, i: u64) -> bool {
    (x >> i) & 1u64 == 1u64
}

/// The order of the horizontal byte rows reversed.
pub open spec fn flip_vertical_spec(x: u64) -> u64 {
    let a = ((x >> 8u64) & K1) | ((x & K1) << 8u64);
    let b = ((a >> 16u64) & K2) | ((a & K2) << 16u64);
    (b >> 32u64) | (b << 32u64)
}

/// The order of the files inside each byte row reversed.
pub open spec fn flip_horizontal_spec(x: u64) -> u64 {
    let a = ((x >> 1u64) & H1) | ((x & H1) << 1u64);
    let b = ((a >> 2u64) & H2) | ((a & H2) << 2u64);
    ((b >> 4u64) & H3) | ((b & H3) << 4u64)
}

/// The board transposed across the a1-h8 diagonal by three masked xor-shift passes.
pub open spec fn flip_diagonal_spec(x: u64) -> u64 {
    let t1 = D3 & (x ^ (x << 28u64));
    let x1 = x ^ (t1 ^ (t1 >> 28u64));
    let t2 = D2 & (x1 ^ (x1 << 14u64));
    let x2 = x1 ^ (t2 ^ (t2 >> 14u64));
    let t3 = D1 & (x2 ^ (x2 << 7u64));
    x2 ^ (t3 ^ (t3 >> 7u64))
}

/// The board turned by half a revolution: square `i` goes to square `63 - i`.
pub open spec fn rotate180_spec(x: u64) -> u64 {
    flip_vertical_spec(flip_horizontal_spec(x))
}

pub open spec fn rotate90_clockwise_spec(x: u64) -> u64 {
    flip_vertical_spec(flip_diagonal_spec(x))
}

pub open spec fn rotate90_anti_clockwise_spec(x: u64) -> u64 {
    flip_diagonal_spec(flip_vertical_spec(x))
}

/// Number of set bits of `x`.
pub open spec fn popcount(x: u64) -> nat
    decreases x,
{
    if x == 0 {
        0
    } else {
        (x % 2) as nat + popcount(x / 2)
    }
}

pub proof fn lemma_flip_vertical_involution(x: u64)
    ensures
        flip_vertical_spec(flip_vertical_spec(x)) == x,
{
    assert(flip_vertical_spec(flip_vertical_spec(x)) == x) by (bit_vector);
}

pub proof fn lemma_flip_horizontal_involution(x: u64)
    ensures
        flip_horizontal_spec(flip_horizontal_spec(x)) == x,
{
    assert(flip_horizontal_spec(flip_horizontal_spec(x)) == x) by (bit_vector);
}

pub proof fn lemma_flip_diagonal_involution(x: u64)
    ensures
        flip_diagonal_spec(flip_diagonal_spec(x)) == x,
{
    assert(flip_diagonal_spec(flip_diagonal_spec(x)) == x) by (bit_vector);
}

/// Turning a board twice by half a revolution gives it back.
pub proof fn lemma_rotate180_involution(x: u64)
    ensures
        rotate180_spec(rotate180_spec(x)) == x,
{
    assert(rotate180_spec(rotate180_spec(x)) == x) by (bit_vector);
}

/// Turning a board a quarter anti-clockwise and then a quarter clockwise gives it back,
/// and so does the other order.
pub proof fn lemma_rotate90_inverse(x: u64)
    ensures
        rotate90_clockwise_spec(rotate90_anti_clockwise_spec(x)) == x,
        rotate90_anti_clockwise_spec(rotate90_clockwise_spec(x)) == x,
{
    lemma_flip_diagonal_involution(flip_vertical_spec(x));
    lemma_flip_vertical_involution(x);
    lemma_flip_vertical_involution(flip_diagonal_spec(x));
    lemma_flip_diagonal_involution(x);
}

/// Half a revolution sends square `i` to square `63 - i`.
pub proof fn lemma_rotate180_square(x: u64, i: u64)
    requires
        i < 64,
    ensures
        bit(rotate180_spec(x), i) == bit(x, (63 - i) as u64),
{
    assert(bit(rotate180_spec(x), i) == bit(x, (63 - i) as u64)) by (bit_vector)
        requires
            i < 64,
    ;
}

/// A set of board squares, one bit per square, square `8 * rank + file`.
#[derive(Clone, Copy, Debug, PartialEq, Eq, Structural)]
pub struct Bitboard {
    pub bits: u64,
}

impl Bitboard {
    /// The empty set of squares.
    pub fn new() -> (r: Self)
        ensures
            r.bits == 0,
    {
        Bitboard { bits: 0 }
    }

    pub fn from_bits(bits: u64) -> (r: Self)
        ensures
            r.bits == bits,
    {
        Bitboard { bits }
    }

    pub fn get_bit(&self, pos: u8) -> (r: bool)
        requires
            pos < 64,
        ensures
            r == bit(self.bits, pos as u64),
    {
        (self.bits >> pos) & 1u64 == 1u64
    }

    pub fn set_bit(&mut self, pos: u8)
        requires
            pos < 64,
        ensures
            final(self).bits == old(self).bits | (1u64 << pos as u64),
    {
        self.bits = self.bits | (1u64 << pos);
    }

    pub fn clear_bit(&mut self, pos: u8)
        requires
            pos < 64,
        ensures
            final(self).bits == old(self).bits & !(1u64 << pos as u64),
    {
        self.bits = self.bits & !(1u64 << pos);
    }

    pub fn toggle_bit(&mut self, pos: u8)
        requires
            pos < 64,
        ensures
            final(self).bits == old(self).bits ^ (1u64 << pos as u64),
    {
        self.bits = self.bits ^ (1u64 << pos);
    }

    /// Same as `toggle_bit`.
    pub fn flip_bit(&mut self, pos: u8)
        requires
            pos < 64,
        ensures
            final(self).bits == old(self).bits ^ (1u64 << pos as u64),
    {
        self.toggle_bit(pos);
    }

    pub fn clear_all(&mut self)
        ensures
            final(self).bits == 0,
    {
        self.bits = 0;
    }

    pub fn set_all(&mut self)
        ensures
            final(self).bits == u64::MAX,
    {
        self.bits = u64::MAX;
    }

    /// Reverses the order of the 64 bits: bit `i` moves to bit `63 - i`.
    pub fn reverse(&mut self)
        ensures
            final(self).bits == rotate180_spec(old(self).bits),
            forall|i: u64| i < 64 ==> bit(final(self).bits, i) == #[trigger] bit(old(self).bits, (63 - i) as u64),
    {
        self.rotate180();
        assert forall|i: u64| i < 64 implies bit(self.bits, i) == #[trigger] bit(old(self).bits, (63 - i) as u64) by {
            lemma_rotate180_square(old(self).bits, i);
        }
    }

    pub fn flip_vertical(&mut self) -> (r: Self)
        ensures
            final(self).bits == flip_vertical_spec(old(self).bits),
            r == *final(self),
    {
        let mut x = self.bits;
        x = ((x >> 8) & K1) | ((x & K1) << 8);
        x = ((x >> 16) & K2) | ((x & K2) << 16);
        x = (x >> 32) | (x << 32);
        self.bits = x;
        *self
    }

    pub fn flip_horizontal(&mut self) -> (r: Self)
        ensures
            final(self).bits == flip_horizontal_spec(old(self).bits),
            r == *final(self),
    {
        let mut x = self.bits;
        x = ((x >> 1) & H1) | ((x & H1) << 1);
        x = ((x >> 2) & H2) | ((x & H2) << 2);
        x = ((x >> 4) & H3) | ((x & H3) << 4);
        self.bits = x;
        *self
    }

    pub fn flip_diagonal_a1_h8(&mut self) -> (r: Self)
        ensures
            final(self).bits == flip_diagonal_spec(old(self).bits),
            r == *final(self),
    {
        let mut x = self.bits;
        let mut t: u64 = D3 & (x ^ (x << 28));
        x = x ^ (t ^ (t >> 28));
        t = D2 & (x ^ (x << 14));
        x = x ^ (t ^ (t >> 14));
        t = D1 & (x ^ (x << 7));
        x = x ^ (t ^ (t >> 7));
        self.bits = x;
        *self
    }

    pub fn rotate90_clockwise(&mut self) -> (r: Self)
        ensures
            final(self).bits == rotate90_clockwise_spec(old(self).bits),
            r == *final(self),
    {
        self.flip_diagonal_a1_h8();
        self.flip_vertical()
    }

    pub fn rotate90_anti_clockwise(&mut self) -> (r: Self)
        ensures
            final(self).bits == rotate90_anti_clockwise_spec(old(self).bits),
            r == *final(self),
    {
        self.flip_vertical();
        self.flip_diagonal_a1_h8()
    }

    pub fn rotate180(&mut self) -> (r: Self)
        ensures
            final(self).bits == rotate180_spec(old(self).bits),
            r == *final(self),
    {
        self.flip_horizontal();
        self.flip_vertical()
    }

    /// Exchanges the squares of two bitboards.
    pub fn swap_with(&mut self, other: &mut Bitboard)
        ensures
            *final(self) == *old(other),
            *final(other) == *old(self),
    {
        let a = self.bits;
        let b = other.bits;
        let x = a ^ b;
        let y = b ^ x;
        let z = x ^ y;
        proof {
            assert(y == a && z == b) by (bit_vector)
                requires
                    x == a ^ b,
                    y == b ^ x,
                    z == x ^ y,
            ;
        }
        self.bits = z;
        other.bits = y;
    }

    /// All squares when the two bitboards share a square, no square otherwise.
    pub fn overlaps(&self, rhs: Bitboard) -> (r: Bitboard)
        ensures
            r.bits == if self.bits & rhs.bits != 0 { u64::MAX } else { 0 },
    {
        if self.bits & rhs.bits != 0 {
            Bitboard { bits: u64::MAX }
        } else {
            Bitboard { bits: 0 }
        }
    }

    /// Number of squares in the set.
    pub fn count(&self) -> (r: u32)
        ensures
            r as nat == popcount(self.bits),
            r <= 64,
    {
        count_ones(self.bits)
    }
}

/// The squares of `x` below `n` as single-bit words, lowest first.
pub open spec fn isolated_bits(x: u64, n: nat) -> Seq<u64>
    decreases n,
{
    if n == 0 {
        Seq::empty()
    } else if bit(x, (n - 1) as u64) {
        isolated_bits(x, (n - 1) as nat).push(1u64 << (n - 1) as u64)
    } else {
        isolated_bits(x, (n - 1) as nat)
    }
}

/// The set bits of `x` one by one, each as a word of its own, lowest first.
pub fn bit_loop(x: u64) -> (r: Vec<u64>)
    ensures
        r@ == isolated_bits(x, 64),
{
    let mut out: Vec<u64> = Vec::new();
    let mut s: u64 = 0;
    while s < 64
        invariant
            s <= 64,
            out@ == isolated_bits(x, s as nat),
        decreases 64 - s,
    {
        if (x >> s) & 1u64 == 1u64 {
            out.push(1u64 << s);
        }
        s = s + 1;
    }
    out
}

/// The square of the lowest set bit of `bitboard` (64 when it is empty).
pub fn square_of(bitboard: u64) -> (r: u8)
    ensures
        r as u32 == bitboard.trailing_zeros(),
{
    proof {
        vstd::std_specs::bits::axiom_u64_trailing_zeros(bitboard);
    }
    bitboard.trailing_zeros() as u8
}

/// Number of set bits of `x`.
pub fn count_ones(x: u64) -> (r: u32)
    ensures
        r as nat == popcount(x),
        r <= 64,
{
    proof {
        vstd::arithmetic::power2::lemma2_to64();
        lemma_popcount_bound(x, 64);
    }
    let mut y = x;
    let mut n: u32 = 0;
    while y != 0
        invariant
            n as nat + popcount(y) == popcount(x),
            popcount(x) <= 64,
        decreases y,
    {
        n = n + (y % 2) as u32;
        y = y / 2;
    }
    n
}

/// A word below `2^k` has at most `k` set bits.
pub proof fn lemma_popcount_bound(x: u64, k: nat)
    requires
        x < vstd::arithmetic::power2::pow2(k),
    ensures
        popcount(x) <= k,
    decreases k,
{
    if x != 0 {
        if k == 0 {
            vstd::arithmetic::power2::lemma2_to64();
        } else {
            vstd::arithmetic::power2::lemma_pow2_unfold(k);
            lemma_popcount_bound(x / 2, (k - 1) as nat);
        }
    }
}

/// The word `m` with square `from` emptied and square `to` set to `put`.
pub open spec fn moved_mask(m: u64, from: u64, to: u64, put: bool) -> u64 {
    (m & !((1u64 << from) | (1u64 << to))) | (if put { 1u64 << to } else { 0u64 })
}

pub proof fn lemma_moved_mask_bit(m: u64, from: u64, to: u64, put: bool, s: u64)
    requires
        from < 64,
        to < 64,
        s < 64,
    ensures
        bit(moved_mask(m, from, to, put), s) == (if s == to { put } else { bit(m, s) && s != from }),
{
    assert(bit(moved_mask(m, from, to, put), s) == (if s == to { put } else { bit(m, s) && s != from }))
        by (bit_vector)
        requires
            from < 64,
            to < 64,
            s < 64,
    ;
}

/// Square by square, `and`, `or` and `not` of words are those of their bits.
pub proof fn lemma_bit_ops(a: u64, b: u64, s: u64)
    requires
        s < 64,
    ensures
        bit(a & b, s) == (bit(a, s) && bit(b, s)),
        bit(a | b, s) == (bit(a, s) || bit(b, s)),
        bit(!a, s) == !bit(a, s),
        bit(a ^ b, s) == (bit(a, s) != bit(b, s)),
        bit(1u64 << s, s),
        bit(0u64, s) == false,
        bit(u64::MAX, s),
{
    assert(bit(a & b, s) == (bit(a, s) && bit(b, s)) && bit(a | b, s) == (bit(a, s) || bit(b, s))
        && bit(!a, s) == !bit(a, s) && bit(a ^ b, s) == (bit(a, s) != bit(b, s)) && bit(1u64 << s, s)
        && bit(0u64, s) == false && bit(u64::MAX, s)) by (bit_vector)
        requires
            s < 64,
    ;
}

/// Two words with the same 64 bits are equal.
pub proof fn lemma_bits_equal(a: u64, b: u64)
    requires
        forall|s: u64| s < 64 ==> #[trigger] bit(a, s) == bit(b, s),
    ensures
        a == b,
{
    let x = a ^ b;
    assert forall|s: u64| s < 64 implies #[trigger] ((x >> s) & 1u64) == 0u64 by {
        assert(bit(a, s) == bit(b, s));
        assert(x == a ^ b && bit(a, s) == bit(b, s) ==> (x >> s) & 1u64 == 0u64) by (bit_vector)
            requires
                s < 64,
        ;
    }
    lemma_low_bits_zero(x, 64);
    assert(x & u64::MAX == 0u64 ==> a == b) by (bit_vector)
        requires
            x == a ^ b,
    ;
}

/// The bits of `x` below `k`.
pub open spec fn low_bits(x: u64, k: u64) -> u64 {
    if k >= 64 {
        x & u64::MAX
    } else {
        x & (((1u64 << k) - 1u64) as u64)
    }
}

proof fn lemma_low_bits_zero(x: u64, k: u64)
    requires
        k <= 64,
        forall|s: u64| s < 64 ==> #[trigger] ((x >> s) & 1u64) == 0u64,
    ensures
        low_bits(x, k) == 0u64,
    decreases k,
{
    if k == 0 {
        assert(low_bits(x, 0) == 0u64) by (bit_vector);
    } else {
        let j = (k - 1) as u64;
        lemma_low_bits_zero(x, j);
        assert((x >> j) & 1u64 == 0u64);
        assert(low_bits(x, k) == 0u64) by (bit_vector)
            requires
                k <= 64,
                j + 1 == k,
                low_bits(x, j) == 0u64,
                (x >> j) & 1u64 == 0u64,
        ;
    }
}

/// Mirroring the ranks: the square on rank `r`, file `f` takes what stood on rank `7 - r`.
pub proof fn lemma_flip_vertical_square(x: u64, r: u64, f: u64)
    requires
        r < 8,
        f < 8,
    ensures
        bit(flip_vertical_spec(x), (8 * r + f) as u64) == bit(x, (8 * (7 - r) + f) as u64),
{
    assert(bit(flip_vertical_spec(x), (8 * r + f) as u64) == bit(x, (8 * (7 - r) + f) as u64)) by (bit_vector)
        requires
            r < 8,
            f < 8,
    ;
}

/// Mirroring the files: the square on rank `r`, file `f` takes what stood on file `7 - f`.
pub proof fn lemma_flip_horizontal_square(x: u64, r: u64, f: u64)
    requires
        r < 8,
        f < 8,
    ensures
        bit(flip_horizontal_spec(x), (8 * r + f) as u64) == bit(x, (8 * r + (7 - f)) as u64),
{
    assert(bit(flip_horizontal_spec(x), (8 * r + f) as u64) == bit(x, (8 * r + (7 - f)) as u64)) by (bit_vector)
        requires
            r < 8,
            f < 8,
    ;
}

/// Transposing across the a1-h8 diagonal: the square on rank `r`, file `f` takes what stood
/// on rank `f`, file `r`.
pub proof fn lemma_flip_diagonal_square(x: u64, r: u64, f: u64)
    requires
        r < 8,
        f < 8,
    ensures
        bit(flip_diagonal_spec(x), (8 * r + f) as u64) == bit(x, (8 * f + r) as u64),
{
    assert(bit(flip_diagonal_spec(x), (8 * r + f) as u64) == bit(x, (8 * f + r) as u64)) by (bit_vector)
        requires
            r < 8,
            f < 8,
    ;
}

} // verus!
