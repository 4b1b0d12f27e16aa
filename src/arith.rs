//! Integer helpers shared by the decoder and the hart: two's-complement
//! views of 32-bit words, wrapping, and sign extension.
use vstd::arithmetic::div_mod::{
    lemma_fundamental_div_mod, lemma_fundamental_div_mod_converse, lemma_mod_multiples_vanish,
    lemma_small_mod,
};
use vstd::arithmetic::power2::{
    lemma2_to64, lemma_pow2_pos, lemma_pow2_strictly_increases, lemma_pow2_unfold, pow2,
};
use vstd::bits::{lemma_u32_shr_is_div, lemma_u64_pow2_no_overflow, lemma_u64_shl_is_mul};
use vstd::prelude::*;

verus! {

/// 2^32: the number of distinct 32-bit words.
pub open spec fn word_range() -> int {
    0x1_0000_0000
}

/// The 32-bit word whose value is congruent to `x` modulo 2^32.
pub open spec fn wrap32(x: int) -> u32 {
    (x % word_range()) as u32
}

/// The two's-complement value of a 32-bit word.
pub open spec fn signed(x: u32) -> int {
    if x < 0x8000_0000 {
        x as int
    } else {
        x - word_range()
    }
}

/// The low `bits` bits of `value`, read as a two's-complement number of that width.
pub open spec fn sign_extend(value: int, bits: nat) -> int {
    let low = value % (pow2(bits) as int);
    if low >= pow2((bits - 1) as nat) {
        low - pow2(bits)
    } else {
        low
    }
}

/// Sign-extends the low `bits` bits of `value` to a 32-bit signed integer.
pub fn sign_extend_u32(value: usize, bits: u32) -> (r: i32)
    requires
        1 <= bits <= 32,
    ensures
        r as int == sign_extend(value as int, bits as nat),
{
    proof {
        lemma_u64_pow2_no_overflow(bits as nat);
        lemma_u64_shl_is_mul(1, bits as u64);
        lemma_pow2_unfold(bits as nat);
        lemma2_to64();
        if bits < 32 {
            lemma_pow2_strictly_increases(bits as nat, 32);
        }
    }
    let modulus: u64 = 1u64 << (bits as u64);
    let low: u64 = (value as u64) % modulus;
    let half: u64 = modulus / 2;
    if low >= half {
        (low as i64 - modulus as i64) as i32
    } else {
        low as i32
    }
}

/// A signed 32-bit integer cast to `u32` is its value wrapped modulo 2^32.
pub proof fn lemma_i32_as_u32(i: i32)
    ensures
        i as u32 == wrap32(i as int),
{
    if i >= 0 {
        assert(i as u32 == i) by (bit_vector)
            requires
                i >= 0,
        ;
    } else {
        assert(i as u32 == (i + 0x1_0000_0000) as u32) by (bit_vector)
            requires
                i < 0,
        ;
    }
}

/// A `u32` cast to `i32` is its two's-complement value.
pub proof fn lemma_u32_as_i32(x: u32)
    ensures
        (x as i32) as int == signed(x),
{
    if x < 0x8000_0000 {
        assert(x as i32 == x) by (bit_vector)
            requires
                x < 0x8000_0000,
        ;
    } else {
        assert(x as i32 == x - 0x1_0000_0000) by (bit_vector)
            requires
                x >= 0x8000_0000,
        ;
    }
}

/// `wrapping_add_signed` adds modulo 2^32.
pub proof fn lemma_wrapping_add_signed(x: u32, y: i32)
    ensures
        x.wrapping_add_signed(y) == wrap32(x + y),
{
}

/// `wrapping_add` adds modulo 2^32.
pub proof fn lemma_wrapping_add(x: u32, y: u32)
    ensures
        x.wrapping_add(y) == wrap32(x + y),
{
}

/// `wrapping_sub` subtracts modulo 2^32.
pub proof fn lemma_wrapping_sub(x: u32, y: u32)
    ensures
        x.wrapping_sub(y) == wrap32(x - y),
{
}

/// The word whose two's-complement value is that of `x` shifted right by `s`
/// bits, rounding toward negative infinity.
pub open spec fn sra(x: u32, s: u32) -> u32 {
    wrap32(signed(x) / (pow2(s as nat) as int))
}

/// Dividing `-n - 1` rounds down to one below the negated quotient of `n`.
pub(crate) proof fn lemma_div_neg_pred(n: int, d: int)
    requires
        0 <= n,
        0 < d,
    ensures
        (-n - 1) / d == -(n / d) - 1,
{
    lemma_fundamental_div_mod(n, d);
    let q = n / d;
    let r = n % d;
    assert(-n - 1 == (-q - 1) * d + (d - r - 1)) by (nonlinear_arith)
        requires
            n == d * q + r,
    ;
    lemma_fundamental_div_mod_converse(-n - 1, d, -q - 1, d - r - 1);
}

/// An arithmetic shift on `i32` is `sra` on the word's bits.
pub proof fn lemma_i32_shr(x: u32, s: u32)
    requires
        s < 32,
    ensures
        ((x as i32) >> s) as u32 == sra(x, s),
{
    lemma_pow2_pos(s as nat);
    lemma_u32_shr_is_div(x, s);
    if x < 0x8000_0000 {
        assert(((x as i32) >> s) as u32 == x >> s) by (bit_vector)
            requires
                x < 0x8000_0000,
                s < 32,
        ;
        assert(x as int / (pow2(s as nat) as int) <= x) by {
            vstd::arithmetic::div_mod::lemma_div_is_ordered_by_denominator(
                x as int,
                1,
                pow2(s as nat) as int,
            );
        }
    } else {
        let n: u32 = !x;
        assert(((x as i32) >> s) as u32 == !(n >> s) && n == 0xffff_ffff - x) by (bit_vector)
            requires
                x >= 0x8000_0000,
                s < 32,
                n == !x,
        ;
        lemma_u32_shr_is_div(n, s);
        let q: u32 = n >> s;
        assert(!q == 0xffff_ffff - q) by (bit_vector);
        lemma_div_neg_pred(n as int, pow2(s as nat) as int);
        assert(n as int / (pow2(s as nat) as int) <= n) by {
            vstd::arithmetic::div_mod::lemma_div_is_ordered_by_denominator(
                n as int,
                1,
                pow2(s as nat) as int,
            );
        }
    }
}

/// Sign-extending an `n`-bit value and truncating the result back to `n` bits
/// gives the value again; the extended value lies in the signed `n`-bit range.
pub proof fn lemma_sign_extend_truncate(v: int, n: nat)
    requires
        1 <= n,
        0 <= v < pow2(n),
    ensures
        sign_extend(v, n) % (pow2(n) as int) == v,
        -(pow2((n - 1) as nat) as int) <= sign_extend(v, n) < pow2((n - 1) as nat),
{
    lemma_pow2_unfold(n);
    lemma_pow2_pos((n - 1) as nat);
    lemma_small_mod(v as nat, pow2(n));
    if v >= pow2((n - 1) as nat) {
        lemma_mod_multiples_vanish(-1, v, pow2(n) as int);
    }
}

/// The word holding a value of the signed 32-bit range has that value as its
/// two's-complement reading.
pub proof fn lemma_signed_wrap32(x: int)
    requires
        -0x8000_0000 <= x < 0x8000_0000,
    ensures
        signed(wrap32(x)) == x,
{
    if x < 0 {
        lemma_mod_multiples_vanish(1, x, word_range());
        lemma_small_mod((x + word_range()) as nat, word_range() as nat);
    } else {
        lemma_small_mod(x as nat, word_range() as nat);
    }
}

/// Wrapping to 32 bits keeps the low `k` bits, for `k` up to 32.
pub proof fn lemma_wrap32_low_bits(x: int, k: nat)
    requires
        k <= 32,
    ensures
        wrap32(x) as int % (pow2(k) as int) == x % (pow2(k) as int),
{
    lemma_pow2_pos(k);
    lemma2_to64();
    vstd::arithmetic::power2::lemma_pow2_adds(k, (32 - k) as nat);
    vstd::arithmetic::div_mod::lemma_mod_mod(x, pow2(k) as int, pow2((32 - k) as nat) as int);
    lemma_pow2_pos((32 - k) as nat);
}

} // verus!
