//! Unsigned integers as they lie in a byte buffer, in either byte order.

use vstd::prelude::*;

verus! {

/// 256 to the power of `n`.
pub open spec fn pow256(n: nat) -> nat
    decreases n,
{
    if n == 0 {
        1
    } else {
        256 * pow256((n - 1) as nat)
    }
}

/// The number that `bytes` spell, the first byte the most significant.
pub open spec fn be_value(bytes: Seq<u8>) -> nat
    decreases bytes.len(),
{
    if bytes.len() == 0 {
        0
    } else {
        256 * be_value(bytes.drop_last()) + bytes.last() as nat
    }
}

/// The number that `bytes` spell, the first byte the least significant.
pub open spec fn le_value(bytes: Seq<u8>) -> nat
    decreases bytes.len(),
{
    if bytes.len() == 0 {
        0
    } else {
        bytes.first() as nat + 256 * le_value(bytes.drop_first())
    }
}

/// The `width` bytes that spell `value` modulo `pow256(width)`, the most
/// significant first.
pub open spec fn be_bytes(value: nat, width: nat) -> Seq<u8>
    decreases width,
{
    if width == 0 {
        Seq::empty()
    } else {
        be_bytes(value / 256, (width - 1) as nat).push((value % 256) as u8)
    }
}

/// The first powers of 256, up to the one that a 64-bit integer stays below.
pub proof fn lemma_pow256_values()
    ensures
        pow256(0) == 1,
        pow256(1) == 0x100,
        pow256(2) == 0x1_0000,
        pow256(3) == 0x100_0000,
        pow256(4) == 0x1_0000_0000,
        pow256(5) == 0x100_0000_0000,
        pow256(6) == 0x1_0000_0000_0000,
        pow256(7) == 0x100_0000_0000_0000,
        pow256(8) == 0x1_0000_0000_0000_0000,
{
    reveal_with_fuel(pow256, 9);
}

/// Powers of 256 are positive and grow with the exponent.
pub proof fn lemma_pow256_monotonic(low: nat, high: nat)
    requires
        low <= high,
    ensures
        0 < pow256(low) <= pow256(high),
    decreases high,
{
    if high == 0 {
    } else if low == high {
        lemma_pow256_monotonic(0, (high - 1) as nat);
    } else {
        lemma_pow256_monotonic(low, (high - 1) as nat);
    }
}

/// A number spelled by `n` bytes is below `pow256(n)`.
pub proof fn lemma_be_value_bound(bytes: Seq<u8>)
    ensures
        be_value(bytes) < pow256(bytes.len()),
    decreases bytes.len(),
{
    if bytes.len() > 0 {
        lemma_be_value_bound(bytes.drop_last());
    }
}

/// The little-endian value of four bytes, written out. It fits 32 bits.
pub proof fn lemma_le_value_of_four(field: Seq<u8>)
    requires
        field.len() == 4,
    ensures
        le_value(field) == field[0] + 0x100 * field[1] + 0x1_0000 * field[2] + 0x100_0000
            * field[3],
        le_value(field) <= u32::MAX,
{
    reveal_with_fuel(le_value, 5);
    assert(field.drop_first().drop_first().drop_first().drop_first().len() == 0);
}

/// Reading back the bytes that spell a number gives the number, as far as
/// the width holds it.
pub proof fn lemma_be_round_trip(value: nat, width: nat)
    ensures
        be_bytes(value, width).len() == width,
        be_value(be_bytes(value, width)) == value % pow256(width),
    decreases width,
{
    if width > 0 {
        let shorter = (width - 1) as nat;
        let front = be_bytes(value / 256, shorter);
        lemma_be_round_trip(value / 256, shorter);
        assert(front.push((value % 256) as u8).drop_last() == front);
        lemma_pow256_monotonic(0, shorter);
        lemma_last_digit(value, pow256(shorter));
    }
}

/// Taking the last base-256 digit off a number commutes with reducing it
/// modulo a power of 256.
proof fn lemma_last_digit(value: nat, power: nat)
    requires
        power > 0,
    ensures
        256 * ((value / 256) % power) + value % 256 == value % (256 * power),
{
    let q = value / 256;
    let r = value % 256;
    let hi = q / power;
    let lo = q % power;
    assert(q == power * hi + lo && 0 <= lo < power) by (nonlinear_arith)
        requires
            hi == q / power,
            lo == q % power,
            power > 0,
    ;
    let rest = 256 * lo + r;
    assert(value == (256 * power) * hi + rest) by (nonlinear_arith)
        requires
            value == 256 * q + r,
            q == power * hi + lo,
            rest == 256 * lo + r,
    ;
    assert(0 <= rest < 256 * power) by (nonlinear_arith)
        requires
            0 <= lo < power,
            0 <= r < 256,
            rest == 256 * lo + r,
    ;
    vstd::arithmetic::div_mod::lemma_fundamental_div_mod_converse(
        value as int,
        (256 * power) as int,
        hi as int,
        rest as int,
    );
}

/// Reads the `width` bytes of `bytes` from `start` on as one big-endian
/// number.
pub(crate) fn read_be(bytes: &[u8], start: usize, width: usize) -> (value: u64)
    requires
        width <= 8,
        start + width <= bytes.len(),
    ensures
        value == be_value(bytes@.subrange(start as int, start + width)),
{
    let mut value: u64 = 0;
    let mut done: usize = 0;
    while done < width
        invariant
            done <= width <= 8,
            start + width <= bytes.len(),
            value == be_value(bytes@.subrange(start as int, start + done)),
        decreases width - done,
    {
        proof {
            let read = bytes@.subrange(start as int, start + done);
            let next = bytes@.subrange(start as int, start + done + 1);
            assert(next.drop_last() == read);
            lemma_be_value_bound(read);
            lemma_pow256_monotonic(done as nat, 7);
            lemma_pow256_values();
        }
        value = value * 256 + bytes[start + done] as u64;
        done = done + 1;
    }
    value
}

/// Reads the four bytes of `bytes` from `start` on as one little-endian
/// number.
pub(crate) fn read_le_u32(bytes: &[u8], start: usize) -> (value: u32)
    requires
        start + 4 <= bytes.len(),
    ensures
        value == le_value(bytes@.subrange(start as int, start + 4)),
{
    proof {
        lemma_le_value_of_four(bytes@.subrange(start as int, start + 4));
    }
    let b0: u32 = bytes[start] as u32;
    let b1: u32 = bytes[start + 1] as u32;
    let b2: u32 = bytes[start + 2] as u32;
    let b3: u32 = bytes[start + 3] as u32;
    b0 + b1 * 0x100 + b2 * 0x1_0000 + b3 * 0x100_0000
}

/// Appends to `bytes` the `width` bytes that spell `value`, the most
/// significant first.
pub(crate) fn push_be(bytes: &mut Vec<u8>, value: u64, width: usize)
    ensures
        final(bytes)@ == old(bytes)@ + be_bytes(value as nat, width as nat),
    decreases width,
{
    if width > 0 {
        push_be(bytes, value / 256, width - 1);
        bytes.push((value % 256) as u8);
        assert(bytes@ == old(bytes)@ + be_bytes(value as nat, width as nat));
    } else {
        assert(bytes@ == old(bytes)@ + be_bytes(value as nat, 0));
    }
}

} // verus!
