//! Saturating fixed-point arithmetic shared by the filters.
//!
//! Samples and coefficients are signed 16-bit numbers. Products are summed
//! in a 64-bit accumulator, which is wide enough for every input that the
//! functions accept, and only the final result is limited to 16 bits.

use vstd::prelude::*;
use vstd::arithmetic::div_mod::lemma_fundamental_div_mod_converse;
use vstd::arithmetic::power2::{pow2, lemma_pow2_pos};
use vstd::bits::{lemma_u64_pow2_no_overflow, lemma_u64_shl_is_mul};

verus! {

/// Lowest value of a sample.
pub const SAMPLE_MIN: i16 = -32768;

/// Highest value of a sample.
pub const SAMPLE_MAX: i16 = 32767;

/// Largest shift that `macc` accepts.
pub const MAX_SHIFT: u32 = 31;

/// Largest number of terms that `macc` accepts.
pub const MAX_TERMS: usize = 0xffff_ffff;

/// `v` limited to the range of a sample.
pub open spec fn clamp16(v: int) -> int {
    if v < -32768 {
        -32768
    } else if v > 32767 {
        32767
    } else {
        v
    }
}

/// Sum of the products of the elements of `x` and `a` at equal places.
pub open spec fn dot(x: Seq<i16>, a: Seq<i16>) -> int
    recommends
        x.len() == a.len(),
    decreases x.len(),
{
    if x.len() == 0 || a.len() == 0 {
        0
    } else {
        dot(x.drop_last(), a.drop_last()) + x.last() * a.last()
    }
}

/// What the saturating multiply-accumulate returns: the seed is scaled up by
/// `shift` bits, the dot product is added, the sum is scaled back down,
/// rounding towards minus infinity, and the result is limited to 16 bits.
pub open spec fn macc_value(seed: int, x: Seq<i16>, a: Seq<i16>, shift: nat) -> int {
    clamp16((seed * pow2(shift) + dot(x, a)) / (pow2(shift) as int))
}

/// The dot product of the first `n + 1` elements adds one product to that
/// of the first `n`.
proof fn lemma_dot_take(x: Seq<i16>, a: Seq<i16>, n: int)
    requires
        x.len() == a.len(),
        0 <= n < x.len(),
    ensures
        dot(x.take(n + 1), a.take(n + 1)) == dot(x.take(n), a.take(n)) + x[n] * a[n],
{
    assert(x.take(n + 1).drop_last() =~= x.take(n));
    assert(a.take(n + 1).drop_last() =~= a.take(n));
}

/// The product of two samples is at most two to the thirtieth in size.
proof fn lemma_product_bound(u: i16, v: i16)
    by (nonlinear_arith)
    ensures
        -0x4000_0000 <= u * v <= 0x4000_0000,
{
}

/// An arithmetic right shift is a floor division by a power of two.
proof fn lemma_shr_bits(v: i64, s: u64)
    by (bit_vector)
    requires
        s < 32,
    ensures
        (v >> s) * (1i64 << s) <= v < (v >> s) * (1i64 << s) + (1i64 << s),
{
}

/// A left shift of a 32-bit value inside 64 bits is a multiplication by a
/// power of two.
proof fn lemma_shl_bits(v: i64, s: u64)
    by (bit_vector)
    requires
        s < 32,
        -0x8000_0000 <= v < 0x8000_0000,
    ensures
        (v << s) == v * (1i64 << s),
        0 < (1i64 << s) <= 0x8000_0000,
        (1i64 << s) == (1u64 << s),
{
}

/// The scale that a shift by `s` bits stands for.
proof fn lemma_scale(s: u64)
    requires
        s < 32,
    ensures
        (1i64 << s) == pow2(s as nat),
        0 < pow2(s as nat) <= 0x8000_0000,
{
    lemma_shl_bits(0, s);
    lemma_u64_pow2_no_overflow(s as nat);
    lemma_pow2_pos(s as nat);
    lemma_u64_shl_is_mul(1, s);
}

/// Limits a wide value to the range of a sample.
pub fn saturate(v: i64) -> (r: i16)
    ensures
        r == clamp16(v as int),
{
    if v < SAMPLE_MIN as i64 {
        SAMPLE_MIN
    } else if v > SAMPLE_MAX as i64 {
        SAMPLE_MAX
    } else {
        v as i16
    }
}

/// Saturating multiply-accumulate: `seed` scaled up by `shift` bits, plus
/// the dot product of `x` and `a`, scaled back down and limited to 16 bits.
pub fn macc(seed: i32, x: &[i16], a: &[i16], shift: u32) -> (y: i16)
    requires
        x@.len() == a@.len(),
        x@.len() <= MAX_TERMS,
        shift <= MAX_SHIFT,
    ensures
        y == macc_value(seed as int, x@, a@, shift as nat),
{
    let n: usize = x.len();
    let s: u64 = shift as u64;
    let mut acc: i64 = (seed as i64) << s;
    proof {
        lemma_shl_bits(seed as i64, s);
        lemma_scale(s);
        assert(-0x8000_0000 * pow2(s as nat) <= seed * pow2(s as nat) <= 0x7fff_ffff * pow2(
            s as nat,
        )) by (nonlinear_arith)
            requires
                -0x8000_0000 <= seed <= 0x7fff_ffff,
                0 < pow2(s as nat),
        ;
        assert(x@.take(0) =~= Seq::<i16>::empty());
    }
    let mut i: usize = 0;
    while i < n
        invariant
            i <= n,
            n == x@.len(),
            n == a@.len(),
            n <= MAX_TERMS,
            s == shift,
            -0x4000_0000_0000_0000 <= seed * pow2(s as nat) <= 0x3fff_ffff_8000_0000,
            -0x4000_0000 * i <= dot(x@.take(i as int), a@.take(i as int)) <= 0x4000_0000 * i,
            acc == seed * pow2(s as nat) + dot(x@.take(i as int), a@.take(i as int)),
        decreases n - i,
    {
        proof {
            lemma_dot_take(x@, a@, i as int);
            lemma_product_bound(x@[i as int], a@[i as int]);
        }
        let term: i64 = (x[i] as i64) * (a[i] as i64);
        acc = acc + term;
        i = i + 1;
    }
    let q: i64 = acc >> s;
    proof {
        assert(x@.take(n as int) =~= x@);
        assert(a@.take(n as int) =~= a@);
        lemma_shr_bits(acc, s);
        lemma_scale(s);
        let p = pow2(s as nat) as int;
        lemma_fundamental_div_mod_converse(acc as int, p, q as int, acc - q * p);
    }
    saturate(q)
}

} // verus!
