//! Facts about masks and shifts of register-sized integers, stated once for every value
//! and proved by bit blasting.

use vstd::prelude::*;

verus! {

/// Low-bit masks and right shifts of a byte are remainders and quotients by powers of two.
pub proof fn lemma_u8_fields()
    by (bit_vector)
    ensures
        forall|v: u8| #[trigger] (v & 0x01u8) == v % 2,
        forall|v: u8| #[trigger] (v & 0x03u8) == v % 4,
        forall|v: u8| #[trigger] (v & 0x07u8) == v % 8,
        forall|v: u8| #[trigger] (v & 0x0Fu8) == v % 16,
        forall|v: u8| #[trigger] (v & 0x1Fu8) == v % 32,
        forall|v: u8| #[trigger] (v & 0x3Fu8) == v % 64,
        forall|v: u8| #[trigger] (v & 0x7Fu8) == v % 128,
        forall|v: u8| #[trigger] (v >> 1u8) == v / 2,
        forall|v: u8| #[trigger] (v >> 2u8) == v / 4,
        forall|v: u8| #[trigger] (v >> 3u8) == v / 8,
        forall|v: u8| #[trigger] (v >> 4u8) == v / 16,
        forall|v: u8| #[trigger] (v >> 5u8) == v / 32,
        forall|v: u8| #[trigger] (v >> 6u8) == v / 64,
        forall|v: u8| #[trigger] (v >> 7u8) == v / 128,
        forall|v: u8| #[trigger] ((v >> 3u8) & 7u8) == (v / 8) % 8,
        forall|v: u8| #[trigger] ((v >> 4u8) & 7u8) == (v / 16) % 8,
        forall|v: u8| #[trigger] ((v >> 5u8) & 3u8) == (v / 32) % 4,
        forall|v: u8| #[trigger] ((v >> 6u8) & 3u8) == (v / 64) % 4,
        forall|v: u8| #[trigger] ((v >> 2u8) & 3u8) == (v / 4) % 4,
        forall|v: u8| #[trigger] ((v >> 4u8) & 3u8) == (v / 16) % 4,
        forall|v: u8| #[trigger] (v & 0xFEu8) < 255u8,
        forall|v: u8, m: u8| #[trigger] (v & m) <= v,
        forall|v: u8| #[trigger] ((v & 0xBFu8) | (v & 0x80u8)) == v & 0xBFu8,
        forall|v: u8| #[trigger] (v & 0xF0u8) == v - v % 16,
        forall|v: u8| #[trigger] ((v & 0xF0u8) & 0xF0u8) == v & 0xF0u8,
        forall|v: u8| ((#[trigger] (v & 0x80u8)) != 0u8) == (v >= 128u8),
        0xBFu8 | 0x40u8 == 0xFFu8,
        0x80u8 | 0x7Fu8 == 0xFFu8,
        0xB0u8 & 0xF0u8 == 0xB0u8,
{
}

/// Masks and shifts of a 16-bit word.
pub proof fn lemma_u16_fields()
    by (bit_vector)
    ensures
        forall|v: u16| #[trigger] (v & 0x0Fu16) == v % 16,
        forall|v: u16| #[trigger] (v & 0x1Fu16) == v % 32,
        forall|v: u16| #[trigger] (v & 0xFFu16) == v % 256,
        forall|v: u16| #[trigger] (v & 0x7FFu16) == v % 2048,
        forall|v: u16| #[trigger] (v & 0xFFFu16) == v % 4096,
        forall|v: u16| #[trigger] (v & 0x1FFFu16) == v % 0x2000,
        forall|v: u16| #[trigger] (v >> 8u16) == v / 256,
        forall|v: u16| #[trigger] ((v >> 5u16) & 0x1Fu16) == (v / 32) % 32,
        forall|v: u16| #[trigger] ((v >> 10u16) & 0x1Fu16) == (v / 1024) % 32,
        forall|v: u16| v < 256 ==> #[trigger] (v << 8u16) == v * 256,
        forall|v: u16| v < 256 ==> #[trigger] (0xFF00u16 | v) == 0xFF00 + v,
{
}

/// Low-bit masks of a `usize`.
pub proof fn lemma_usize_fields()
    by (bit_vector)
    ensures
        forall|v: usize| #[trigger] (v & 1usize) == v % 2,
        forall|v: usize| #[trigger] (v & 3usize) == v % 4,
        forall|v: usize| #[trigger] (v & 7usize) == v % 8,
        forall|v: usize| #[trigger] (v & 31usize) == v % 32,
        forall|v: usize| #[trigger] (v & 0x1FFFusize) == v % 0x2000,
        forall|v: usize| #[trigger] (v & 0xFFusize) == v % 256,
        forall|v: usize| v < 4 ==> #[trigger] (v << 5usize) == v * 32,
        forall|v: usize, w: usize| v < 32 && w % 32 == 0 && w < 128 ==> #[trigger] (v | w) == v + w,
{
}

/// Rotations, shifts and the complement of a byte in arithmetic terms.
pub proof fn lemma_u8_rotates()
    by (bit_vector)
    ensures
        forall|v: u8| #[trigger] ((v << 1u8) | (v >> 7u8)) == ((v % 128) * 2 + v / 128) as u8,
        forall|v: u8| #[trigger] ((v >> 1u8) | (v << 7u8)) == (v / 2 + (v % 2) * 128) as u8,
        forall|v: u8, c: u8| c <= 1 ==> #[trigger] ((v << 1u8) | c) == ((v % 128) * 2 + c) as u8,
        forall|v: u8, c: u8| c <= 1 ==> #[trigger] ((v >> 1u8) | (c << 7u8)) == (v / 2 + c * 128) as u8,
        forall|v: u8| #[trigger] (v << 1u8) == ((v % 128) * 2) as u8,
        forall|v: u8| #[trigger] ((v >> 1u8) | (v & 0x80u8)) == (v / 2 + (v / 128) * 128) as u8,
        forall|v: u8| #[trigger] ((v << 4u8) | (v >> 4u8)) == ((v % 16) * 16 + v / 16) as u8,
        forall|v: u8| #[trigger] !v == (255 - v) as u8,
{
}

/// A high and a low byte side by side form the word `hi * 256 + lo`.
pub proof fn lemma_byte_pair()
    by (bit_vector)
    ensures
        forall|hi: u8, lo: u8| #[trigger] (((hi as u16) << 8u16) | (lo as u16)) == hi as int * 256
            + lo as int,
{
}

/// The low byte of a `u32`.
pub proof fn lemma_u32_low_byte()
    by (bit_vector)
    ensures
        forall|w: u32| #[trigger] (w & 0xFFu32) == w % 256,
{
}

/// `2^k` for a bit position of a byte.
pub open spec fn pow2_u8(k: int) -> int
    decreases k,
{
    if k <= 0 {
        1
    } else {
        2 * pow2_u8(k - 1)
    }
}

/// Bit `i` (value `2^i`) of the byte `x` is set.
pub open spec fn byte_bit(x: u8, i: int) -> bool {
    (x as int / pow2_u8(i)) % 2 == 1
}

/// Bit `i` of a byte, read by shifting.
pub proof fn lemma_byte_bit(x: u8, i: int)
    requires
        0 <= i < 8,
    ensures
        byte_bit(x, i) == ((x >> (i as u8)) & 1u8 == 1u8),
{
    reveal_with_fuel(pow2_u8, 8);
    lemma_u8_fields();
    assert(x >> 0u8 == x) by (bit_vector);
    assert(i == 0 || i == 1 || i == 2 || i == 3 || i == 4 || i == 5 || i == 6 || i == 7);
}

/// Bit `i` of AND, OR and XOR of two bytes.
pub proof fn lemma_bitwise_bits(a: u8, b: u8, i: u8)
    by (bit_vector)
    requires
        i < 8,
    ensures
        ((a & b) >> i) & 1u8 == 1u8 <==> ((a >> i) & 1u8 == 1u8 && (b >> i) & 1u8 == 1u8),
        ((a | b) >> i) & 1u8 == 1u8 <==> ((a >> i) & 1u8 == 1u8 || (b >> i) & 1u8 == 1u8),
        ((a ^ b) >> i) & 1u8 == 1u8 <==> ((a >> i) & 1u8 == 1u8) != ((b >> i) & 1u8 == 1u8),
{
}

/// Single-bit masks, and clearing one bit of a byte.
pub proof fn lemma_single_bit_masks(p: u8, f: u8, i: u8, j: u8)
    by (bit_vector)
    requires
        i < 8,
        j < 8,
    ensures
        (p & 0x01u8 != 0u8) == ((p >> 0u8) & 1u8 == 1u8),
        (p & 0x02u8 != 0u8) == ((p >> 1u8) & 1u8 == 1u8),
        (p & 0x04u8 != 0u8) == ((p >> 2u8) & 1u8 == 1u8),
        (p & 0x08u8 != 0u8) == ((p >> 3u8) & 1u8 == 1u8),
        (p & 0x10u8 != 0u8) == ((p >> 4u8) & 1u8 == 1u8),
        1u8 << 0u8 == 0x01u8 && 1u8 << 1u8 == 0x02u8 && 1u8 << 2u8 == 0x04u8 && 1u8 << 3u8 == 0x08u8
            && 1u8 << 4u8 == 0x10u8,
        ((f & !(1u8 << i)) >> j) & 1u8 == 1u8 <==> ((f >> j) & 1u8 == 1u8 && i != j),
        ((f | (1u8 << i)) >> j) & 1u8 == 1u8 <==> ((f >> j) & 1u8 == 1u8 || i == j),
        ((f >> i) % 2u8 == 1u8) == ((f >> i) & 1u8 == 1u8),
{
}

} // verus!
