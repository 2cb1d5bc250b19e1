//! Bit-level facts stated as arithmetic.

use vstd::prelude::*;

verus! {

/// Bit `n` of a byte.
pub open spec fn bit8(b: u8, n: int) -> bool {
    b as int / weight(n) % 2 == 1
}

/// The value of bit `n` of a byte.
pub open spec fn weight(n: int) -> int {
    if n == 0 {
        1
    } else if n == 1 {
        2
    } else if n == 2 {
        4
    } else if n == 3 {
        8
    } else if n == 4 {
        16
    } else if n == 5 {
        32
    } else if n == 6 {
        64
    } else {
        128
    }
}

/// A byte with bit `n` set.
pub open spec fn with_bit(b: u8, n: int) -> u8 {
    if bit8(b, n) {
        b
    } else {
        (b + weight(n)) as u8
    }
}

/// A 16-bit word from its low and high bytes.
pub open spec fn word(lo: u8, hi: u8) -> u16 {
    (lo + 256 * hi) as u16
}

/// Low byte of a word.
pub open spec fn low(w: u16) -> u8 {
    (w % 256) as u8
}

/// High byte of a word.
pub open spec fn high(w: u16) -> u8 {
    (w / 256) as u8
}

/// Testing a byte with a one-bit mask reads that bit.
pub proof fn lemma_bit8(b: u8)
    ensures
        (b & 0x01 != 0) == bit8(b, 0),
        (b & 0x02 != 0) == bit8(b, 1),
        (b & 0x04 != 0) == bit8(b, 2),
        (b & 0x08 != 0) == bit8(b, 3),
        (b & 0x10 != 0) == bit8(b, 4),
        (b & 0x20 != 0) == bit8(b, 5),
        (b & 0x40 != 0) == bit8(b, 6),
        (b & 0x80 != 0) == bit8(b, 7),
        b & 0x01 <= 1,
        b & 0x01 == b % 2,
        bit8(b, 7) == (b >= 128),
{
    assert({
        &&& (b & 0x01 != 0) == (b % 2 == 1)
        &&& (b & 0x02 != 0) == (b / 2 % 2 == 1)
        &&& (b & 0x04 != 0) == (b / 4 % 2 == 1)
        &&& (b & 0x08 != 0) == (b / 8 % 2 == 1)
        &&& (b & 0x10 != 0) == (b / 16 % 2 == 1)
        &&& (b & 0x20 != 0) == (b / 32 % 2 == 1)
        &&& (b & 0x40 != 0) == (b / 64 % 2 == 1)
        &&& (b & 0x80 != 0) == (b / 128 % 2 == 1)
        &&& b & 0x01 <= 1
        &&& b & 0x01 == b % 2
    }) by (bit_vector);
}

/// Setting or clearing bits with masks.
pub proof fn lemma_set_bits(b: u8)
    ensures
        b | 0x20 == with_bit(b, 5),
        b | 0x40 == with_bit(b, 6),
        b | 0x80 == with_bit(b, 7),
        b & !0x80 == b % 128,
        b & !0xE0 == b % 32,
        b & 0x1F == b % 32,
        b & 0x3F == b % 64,
        b & 0x07 == b % 8,
        b & 0x03 == b % 4,
        b & 0xE0 == b / 32 * 32,
        b >> 3 == b / 8,
{
    assert({
        &&& b | 0x20 == if b / 32 % 2 == 1 { b as int } else { b + 32 }
        &&& b | 0x40 == if b / 64 % 2 == 1 { b as int } else { b + 64 }
        &&& b | 0x80 == if b / 128 % 2 == 1 { b as int } else { b + 128 }
        &&& b & !0x80 == b % 128
        &&& b & !0xE0 == b % 32
        &&& b & 0x1F == b % 32
        &&& b & 0x3F == b % 64
        &&& b & 0x07 == b % 8
        &&& b & 0x03 == b % 4
        &&& b & 0xE0 == b / 32 * 32
        &&& b >> 3 == b / 8
    }) by (bit_vector);
}

/// Joining two bytes with a shift and an or is `word`; truncating and shifting takes them apart.
pub proof fn lemma_word(lo: u8, hi: u8)
    ensures
        (lo as u16) | ((hi as u16) << 8) == word(lo, hi),
{
    assert((lo as u16) | ((hi as u16) << 8) == lo + 256 * hi) by (bit_vector);
}

pub proof fn lemma_word_parts(w: u16)
    ensures
        w as u8 == low(w),
        (w >> 8) as u8 == high(w),
        word(low(w), high(w)) == w,
        w & 0xFF00 == w - w % 256,
        w & 0x00FF == w % 256,
{
    assert(w as u8 == w % 256 && (w >> 8) as u8 == w / 256 && w & 0xFF00 == w - w % 256 && w & 0x00FF == w % 256)
        by (bit_vector);
}

/// Bit `n` of a byte, as 0 or 1.
pub fn bit_at(b: u8, n: u8) -> (bit: u8)
    requires
        n < 8,
    ensures
        bit == (if bit8(b, n as int) {
            1u8
        } else {
            0
        }),
{
    proof {
        assert({
            &&& (b >> 0u8) & 1 == b % 2
            &&& (b >> 1u8) & 1 == b / 2 % 2
            &&& (b >> 2u8) & 1 == b / 4 % 2
            &&& (b >> 3u8) & 1 == b / 8 % 2
            &&& (b >> 4u8) & 1 == b / 16 % 2
            &&& (b >> 5u8) & 1 == b / 32 % 2
            &&& (b >> 6u8) & 1 == b / 64 % 2
            &&& (b >> 7u8) & 1 == b / 128 % 2
        }) by (bit_vector);
    }
    (b >> n) & 1
}

/// A byte with its bits in the opposite order.
pub open spec fn reversed(b: u8) -> u8 {
    (b % 2 * 128 + b / 2 % 2 * 64 + b / 4 % 2 * 32 + b / 8 % 2 * 16 + b / 16 % 2 * 8 + b / 32 % 2 * 4
        + b / 64 % 2 * 2 + b / 128) as u8
}

pub fn reverse(b: u8) -> (r: u8)
    ensures
        r == reversed(b),
{
    b % 2 * 128 + b / 2 % 2 * 64 + b / 4 % 2 * 32 + b / 8 % 2 * 16 + b / 16 % 2 * 8 + b / 32 % 2 * 4
        + b / 64 % 2 * 2 + b / 128
}

/// Bit `n` of the reversed byte is bit `7 - n` of the byte.
pub proof fn reversed_bits(b: u8, n: int)
    requires
        0 <= n < 8,
    ensures
        bit8(reversed(b), n) == bit8(b, 7 - n),
{
    let r = reversed(b);
    assert(r == b % 2 * 128 + b / 2 % 2 * 64 + b / 4 % 2 * 32 + b / 8 % 2 * 16 + b / 16 % 2 * 8 + b
        / 32 % 2 * 4 + b / 64 % 2 * 2 + b / 128);
    assert({
        &&& r % 2 == b / 128 % 2
        &&& r / 2 % 2 == b / 64 % 2
        &&& r / 4 % 2 == b / 32 % 2
        &&& r / 8 % 2 == b / 16 % 2
        &&& r / 16 % 2 == b / 8 % 2
        &&& r / 32 % 2 == b / 4 % 2
        &&& r / 64 % 2 == b / 2 % 2
        &&& r / 128 % 2 == b % 2
    }) by (bit_vector)
        requires
            r == b % 2 * 128 + b / 2 % 2 * 64 + b / 4 % 2 * 32 + b / 8 % 2 * 16 + b / 16 % 2 * 8 + b
                / 32 % 2 * 4 + b / 64 % 2 * 2 + b / 128,
    ;
}

/// Bit `k` of a byte, for each `k`, as a quotient.
proof fn lemma_quotients(b: u8)
    ensures
        bit8(b, 0) == (b % 2 == 1),
        bit8(b, 1) == (b / 2 % 2 == 1),
        bit8(b, 2) == (b / 4 % 2 == 1),
        bit8(b, 3) == (b / 8 % 2 == 1),
        bit8(b, 4) == (b / 16 % 2 == 1),
        bit8(b, 5) == (b / 32 % 2 == 1),
        bit8(b, 6) == (b / 64 % 2 == 1),
        bit8(b, 7) == (b / 128 % 2 == 1),
{
}

/// A byte is the sum of the weights of its bits.
#[verifier::rlimit(50)]
pub proof fn bit_weights(b: u8)
    ensures
        b == b % 2 + b / 2 % 2 * 2 + b / 4 % 2 * 4 + b / 8 % 2 * 8 + b / 16 % 2 * 16 + b / 32 % 2 * 32 + b / 64 % 2 * 64 + b / 128 % 2 * 128,
        bit8(b, 0) == (b % 2 == 1),
        bit8(b, 1) == (b / 2 % 2 == 1),
        bit8(b, 2) == (b / 4 % 2 == 1),
        bit8(b, 3) == (b / 8 % 2 == 1),
        bit8(b, 4) == (b / 16 % 2 == 1),
        bit8(b, 5) == (b / 32 % 2 == 1),
        bit8(b, 6) == (b / 64 % 2 == 1),
        bit8(b, 7) == (b / 128 % 2 == 1),
{
    lemma_quotients(b);
    assert(b == b % 2 + b / 2 % 2 * 2 + b / 4 % 2 * 4 + b / 8 % 2 * 8 + b / 16 % 2 * 16 + b / 32 % 2 * 32 + b / 64 % 2 * 64 + b / 128 % 2 * 128) by (bit_vector);
}

/// Two bytes with the same bits are the same byte.
#[verifier::rlimit(50)]
pub proof fn bits_make_a_byte(a: u8, b: u8)
    requires
        forall|k: int| 0 <= k < 8 ==> #[trigger] bit8(a, k) == bit8(b, k),
    ensures
        a == b,
{
    assert(bit8(a, 0) == bit8(b, 0));
    assert(bit8(a, 1) == bit8(b, 1));
    assert(bit8(a, 2) == bit8(b, 2));
    assert(bit8(a, 3) == bit8(b, 3));
    assert(bit8(a, 4) == bit8(b, 4));
    assert(bit8(a, 5) == bit8(b, 5));
    assert(bit8(a, 6) == bit8(b, 6));
    assert(bit8(a, 7) == bit8(b, 7));
    bit_weights(a);
    bit_weights(b);
}

/// The bitwise operators at one bit.
#[verifier::rlimit(50)]
proof fn lemma_bitwise(a: u8, b: u8, k: int)
    requires
        0 <= k < 8,
    ensures
        bit8(a & b, k) == (bit8(a, k) && bit8(b, k)),
        bit8(a | b, k) == (bit8(a, k) || bit8(b, k)),
        bit8(a ^ b, k) == (bit8(a, k) != bit8(b, k)),
{
    let x = a & b;
    let y = a | b;
    let z = a ^ b;
    assert({
        &&& (x % 2 == 1) == (a % 2 == 1 && b % 2 == 1)
        &&& (x / 2 % 2 == 1) == (a / 2 % 2 == 1 && b / 2 % 2 == 1)
        &&& (x / 4 % 2 == 1) == (a / 4 % 2 == 1 && b / 4 % 2 == 1)
        &&& (x / 8 % 2 == 1) == (a / 8 % 2 == 1 && b / 8 % 2 == 1)
        &&& (x / 16 % 2 == 1) == (a / 16 % 2 == 1 && b / 16 % 2 == 1)
        &&& (x / 32 % 2 == 1) == (a / 32 % 2 == 1 && b / 32 % 2 == 1)
        &&& (x / 64 % 2 == 1) == (a / 64 % 2 == 1 && b / 64 % 2 == 1)
        &&& (x / 128 % 2 == 1) == (a / 128 % 2 == 1 && b / 128 % 2 == 1)
        &&& (y % 2 == 1) == (a % 2 == 1 || b % 2 == 1)
        &&& (y / 2 % 2 == 1) == (a / 2 % 2 == 1 || b / 2 % 2 == 1)
        &&& (y / 4 % 2 == 1) == (a / 4 % 2 == 1 || b / 4 % 2 == 1)
        &&& (y / 8 % 2 == 1) == (a / 8 % 2 == 1 || b / 8 % 2 == 1)
        &&& (y / 16 % 2 == 1) == (a / 16 % 2 == 1 || b / 16 % 2 == 1)
        &&& (y / 32 % 2 == 1) == (a / 32 % 2 == 1 || b / 32 % 2 == 1)
        &&& (y / 64 % 2 == 1) == (a / 64 % 2 == 1 || b / 64 % 2 == 1)
        &&& (y / 128 % 2 == 1) == (a / 128 % 2 == 1 || b / 128 % 2 == 1)
        &&& (z % 2 == 1) == ((a % 2 == 1) != (b % 2 == 1))
        &&& (z / 2 % 2 == 1) == ((a / 2 % 2 == 1) != (b / 2 % 2 == 1))
        &&& (z / 4 % 2 == 1) == ((a / 4 % 2 == 1) != (b / 4 % 2 == 1))
        &&& (z / 8 % 2 == 1) == ((a / 8 % 2 == 1) != (b / 8 % 2 == 1))
        &&& (z / 16 % 2 == 1) == ((a / 16 % 2 == 1) != (b / 16 % 2 == 1))
        &&& (z / 32 % 2 == 1) == ((a / 32 % 2 == 1) != (b / 32 % 2 == 1))
        &&& (z / 64 % 2 == 1) == ((a / 64 % 2 == 1) != (b / 64 % 2 == 1))
        &&& (z / 128 % 2 == 1) == ((a / 128 % 2 == 1) != (b / 128 % 2 == 1))
    }) by (bit_vector)
        requires
            x == a & b,
            y == a | b,
            z == a ^ b,
    ;
    lemma_quotients(a);
    lemma_quotients(b);
    lemma_quotients(x);
    lemma_quotients(y);
    lemma_quotients(z);
    if k == 0 {
    } else if k == 1 {
    } else if k == 2 {
    } else if k == 3 {
    } else if k == 4 {
    } else if k == 5 {
    } else if k == 6 {
    } else {
        assert(k == 7);
    }
}

/// The bitwise operators: bit by bit, and what they add up to.
#[verifier::rlimit(50)]
pub proof fn bitwise_operators(a: u8, b: u8)
    ensures
        forall|k: int|
            0 <= k < 8 ==> #[trigger] bit8(a & b, k) == (bit8(a, k) && bit8(b, k)),
        forall|k: int|
            0 <= k < 8 ==> #[trigger] bit8(a | b, k) == (bit8(a, k) || bit8(b, k)),
        forall|k: int|
            0 <= k < 8 ==> #[trigger] bit8(a ^ b, k) == (bit8(a, k) != bit8(b, k)),
        (a ^ b) ^ b == a,
        a ^ 255 == 255 - a,
        (a & b) + (a | b) == a + b,
        (a ^ b) + 2 * (a & b) == a + b,
{
    assert((a ^ b) ^ b == a && a ^ 255 == 255 - a && (a & b) + (a | b) == a + b && (a ^ b) + 2 * (a
        & b) == a + b) by (bit_vector);
    assert forall|k: int| 0 <= k < 8 implies #[trigger] bit8(a & b, k) == (bit8(a, k) && bit8(
        b,
        k,
    )) by {
        lemma_bitwise(a, b, k);
    }
    assert forall|k: int| 0 <= k < 8 implies #[trigger] bit8(a | b, k) == (bit8(a, k) || bit8(
        b,
        k,
    )) by {
        lemma_bitwise(a, b, k);
    }
    assert forall|k: int| 0 <= k < 8 implies #[trigger] bit8(a ^ b, k) == (bit8(a, k) != bit8(
        b,
        k,
    )) by {
        lemma_bitwise(a, b, k);
    }
}

} // verus!
