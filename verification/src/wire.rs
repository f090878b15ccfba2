//! Big-endian integers as they stand in the binary wire format.

use vstd::arithmetic::div_mod::{
    lemma_fundamental_div_mod, lemma_hoist_over_denominator, lemma_mod_multiples_vanish,
};
use vstd::prelude::*;

verus! {

/// The four bytes of `n` in big-endian two's complement: the most significant
/// byte first. Only `n` modulo 2^32 matters, so the signed and the unsigned
/// reading of a 32-bit word give the same bytes.
pub open spec fn be_i32(n: int) -> Seq<u8> {
    seq![
        (n / 0x100_0000 % 0x100) as u8,
        (n / 0x1_0000 % 0x100) as u8,
        (n / 0x100 % 0x100) as u8,
        (n % 0x100) as u8,
    ]
}

/// The eight bytes of a 64-bit word, the most significant byte first.
pub open spec fn be_u64(n: u64) -> Seq<u8> {
    be_i32(n as int / 0x1_0000_0000) + be_i32(n as int)
}

/// The number that four big-endian bytes stand for, read as a signed
/// two's-complement 32-bit integer.
pub open spec fn from_be_i32(bytes: Seq<u8>) -> int
    recommends
        bytes.len() == 4,
{
    let unsigned = bytes[0] as int * 0x100_0000 + bytes[1] as int * 0x1_0000 + bytes[2] as int
        * 0x100 + bytes[3] as int;
    if unsigned >= 0x8000_0000 {
        unsigned - 0x1_0000_0000
    } else {
        unsigned
    }
}

/// Reading back the bytes of a 32-bit signed integer gives the integer, so
/// distinct integers have distinct bytes.
pub proof fn lemma_be_i32_round_trip(n: int)
    requires
        i32::MIN <= n <= i32::MAX,
    ensures
        be_i32(n).len() == 4,
        from_be_i32(be_i32(n)) == n,
{
}

/// The null marker `-1` is four bytes of all ones.
pub proof fn lemma_be_i32_minus_one()
    ensures
        be_i32(-1) == seq![0xffu8, 0xffu8, 0xffu8, 0xffu8],
{
    assert(be_i32(-1) =~= seq![0xffu8, 0xffu8, 0xffu8, 0xffu8]);
}

/// One byte of `n` is the same byte of `n` modulo 2^32: `scale` is the
/// weight of the byte, and `scale * rest` is 2^32.
proof fn lemma_byte_wraps(n: int, scale: int, rest: int)
    requires
        scale > 0,
        rest > 0,
        rest % 0x100 == 0,
        scale * rest == 0x1_0000_0000,
    ensures
        n / scale % 0x100 == n % 0x1_0000_0000 / scale % 0x100,
{
    let high = n / 0x1_0000_0000;
    let low = n % 0x1_0000_0000;
    lemma_fundamental_div_mod(n, 0x1_0000_0000);
    assert(n == low + (high * rest) * scale) by (nonlinear_arith)
        requires
            n == 0x1_0000_0000 * high + low,
            scale * rest == 0x1_0000_0000,
    ;
    lemma_hoist_over_denominator(low, high * rest, scale as nat);
    assert(n / scale == low / scale + high * rest);
    let blocks = rest / 0x100;
    lemma_fundamental_div_mod(rest, 0x100);
    assert(high * rest == 0x100 * (high * blocks)) by (nonlinear_arith)
        requires
            rest == 0x100 * blocks,
    ;
    lemma_mod_multiples_vanish(high * blocks, low / scale, 0x100);
}

/// Numbers that agree modulo 2^32 have the same four bytes.
pub proof fn lemma_be_i32_wraps(n: int)
    ensures
        be_i32(n) == be_i32(n % 0x1_0000_0000),
{
    lemma_byte_wraps(n, 0x100_0000, 0x100);
    lemma_byte_wraps(n, 0x1_0000, 0x1_0000);
    lemma_byte_wraps(n, 0x100, 0x100_0000);
    lemma_byte_wraps(n, 1, 0x1_0000_0000);
    assert(be_i32(n) =~= be_i32(n % 0x1_0000_0000));
}

/// Appends the low 32 bits of `word`, most significant byte first.
fn push_word(out: &mut Vec<u8>, word: u64)
    requires
        word < 0x1_0000_0000,
    ensures
        final(out)@ == old(out)@ + be_i32(word as int),
{
    out.push((word / 0x100_0000) as u8);
    out.push((word / 0x1_0000 % 0x100) as u8);
    out.push((word / 0x100 % 0x100) as u8);
    out.push((word % 0x100) as u8);
    assert(out@ =~= old(out)@ + be_i32(word as int));
}

/// Appends `num` as a 4-byte big-endian signed integer.
pub fn write_be_i32(out: &mut Vec<u8>, num: i32)
    ensures
        final(out)@ == old(out)@ + be_i32(num as int),
{
    let wide: i64 = num as i64;
    let word: u64 = if wide < 0 {
        (wide + 0x1_0000_0000) as u64
    } else {
        wide as u64
    };
    proof {
        lemma_be_i32_wraps(num as int);
    }
    push_word(out, word);
}

/// Appends `num`, reinterpreted as a 32-bit signed integer, as four
/// big-endian bytes.
pub fn write_be_u32(out: &mut Vec<u8>, num: u32)
    ensures
        final(out)@ == old(out)@ + be_i32(num as int),
{
    push_word(out, num as u64);
}

/// Appends the number of elements `count`, cut to 32 bits, as four
/// big-endian bytes.
pub fn write_be_count(out: &mut Vec<u8>, count: usize)
    ensures
        final(out)@ == old(out)@ + be_i32(count as int),
{
    let word: u64 = (count as u64) % 0x1_0000_0000;
    proof {
        lemma_be_i32_wraps(count as int);
    }
    push_word(out, word);
}

/// Appends a 64-bit word as eight big-endian bytes.
pub fn write_be_u64(out: &mut Vec<u8>, num: u64)
    ensures
        final(out)@ == old(out)@ + be_u64(num),
{
    push_word(out, num / 0x1_0000_0000);
    push_word(out, num % 0x1_0000_0000);
    proof {
        lemma_be_i32_wraps(num as int);
        assert(out@ =~= old(out)@ + be_u64(num));
    }
}

} // verus!
