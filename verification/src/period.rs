//! Period of the pseudo-random register.
//!
//! One step of the register is a linear map on sixteen bits over the field
//! of two elements. The module holds the columns of that map and of its
//! repeated squares, shows that each set of columns is the square of the
//! one before, and concludes that 65536 steps do what one step does. With
//! the values that the register takes after 65535/3, 65535/5, 65535/17 and
//! 65535/257 steps, none of them one, the period of the register is 65535:
//! it runs through every nonzero value before it repeats.

use vstd::prelude::*;
use vstd::arithmetic::div_mod::{lemma_fundamental_div_mod, lemma_mod_multiples_basic};
use vstd::arithmetic::power2::{lemma2_to64, lemma_pow2_unfold, pow2};
use vstd::relations::injective_on;
use vstd::set_lib::{lemma_int_range, lemma_map_size, lemma_subset_equality, set_int_range};
use crate::modulator::{
    law_lfsr_injective, law_lfsr_never_zero, lemma_lfsr_bits, lfsr_bits, lfsr_next,
    ModulatorState,
};

verus! {

/// Number of steps after which the register is back where it started.
pub const PERIOD: u32 = 65535;

/// Register after `n` steps from `r`.
pub open spec fn lfsr_after(r: int, n: nat) -> int
    decreases n,
{
    if n == 0 {
        r
    } else {
        lfsr_next(lfsr_after(r, (n - 1) as nat))
    }
}

/// The register is back at one after `n` steps from one.
pub open spec fn comes_back(n: nat) -> bool {
    lfsr_after(1, n) == 1
}

/// The register takes the value `v` within its first 65535 steps from one.
pub open spec fn visited(v: int) -> bool {
    exists|i: nat| i < 65535 && lfsr_after(1, i) == v
}

/// `c` where bit `i` of `r` is set, zero where it is not.
spec fn pick(r: u16, i: u16, c: u16) -> u16 {
    if (r >> i) & 1 == 1 {
        c
    } else {
        0
    }
}

/// Image of `r` under the linear map with the columns `c0` to `c15`.
spec fn lin16(
    r: u16,
    c0: u16,
    c1: u16,
    c2: u16,
    c3: u16,
    c4: u16,
    c5: u16,
    c6: u16,
    c7: u16,
    c8: u16,
    c9: u16,
    c10: u16,
    c11: u16,
    c12: u16,
    c13: u16,
    c14: u16,
    c15: u16,
) -> u16 {
    pick(r, 0, c0) ^ pick(r, 1, c1) ^ pick(r, 2, c2) ^ pick(r, 3, c3) ^ pick(r, 4, c4) ^ pick(
        r,
        5,
        c5,
    ) ^ pick(r, 6, c6) ^ pick(r, 7, c7) ^ pick(r, 8, c8) ^ pick(r, 9, c9) ^ pick(r, 10, c10)
        ^ pick(r, 11, c11) ^ pick(r, 12, c12) ^ pick(r, 13, c13) ^ pick(r, 14, c14) ^ pick(
        r,
        15,
        c15,
    )
}

/// The `i`-th of sixteen values.
spec fn select(
    i: u16,
    c0: u16,
    c1: u16,
    c2: u16,
    c3: u16,
    c4: u16,
    c5: u16,
    c6: u16,
    c7: u16,
    c8: u16,
    c9: u16,
    c10: u16,
    c11: u16,
    c12: u16,
    c13: u16,
    c14: u16,
    c15: u16,
) -> u16 {
    if i == 0 {
        c0
    } else if i == 1 {
        c1
    } else if i == 2 {
        c2
    } else if i == 3 {
        c3
    } else if i == 4 {
        c4
    } else if i == 5 {
        c5
    } else if i == 6 {
        c6
    } else if i == 7 {
        c7
    } else if i == 8 {
        c8
    } else if i == 9 {
        c9
    } else if i == 10 {
        c10
    } else if i == 11 {
        c11
    } else if i == 12 {
        c12
    } else if i == 13 {
        c13
    } else if i == 14 {
        c14
    } else {
        c15
    }
}

/// Column `i` of the map that stands for two to the `k` steps: the
/// register that follows from bit `i` alone after that many steps.
spec fn column(k: u16, i: u16) -> u16 {
    if k == 0 {
        select(
            i,
            0x0002, 0x0004, 0x0008, 0x0011, 0x0020, 0x0040, 0x0080, 0x0100,
            0x0200, 0x0400, 0x0800, 0x1000, 0x2001, 0x4000, 0x8001, 0x0001,
        )
    } else if k == 1 {
        select(
            i,
            0x0004, 0x0008, 0x0011, 0x0022, 0x0040, 0x0080, 0x0100, 0x0200,
            0x0400, 0x0800, 0x1000, 0x2001, 0x4002, 0x8001, 0x0003, 0x0002,
        )
    } else if k == 2 {
        select(
            i,
            0x0011, 0x0022, 0x0044, 0x0088, 0x0100, 0x0200, 0x0400, 0x0800,
            0x1000, 0x2001, 0x4002, 0x8005, 0x000b, 0x0006, 0x000c, 0x0008,
        )
    } else if k == 3 {
        select(
            i,
            0x0111, 0x0222, 0x0444, 0x0888, 0x1000, 0x2001, 0x4002, 0x8005,
            0x000b, 0x0017, 0x002e, 0x005d, 0x00bb, 0x0066, 0x00cc, 0x0088,
        )
    } else if k == 4 {
        select(
            i,
            0x111a, 0x2234, 0x4468, 0x88d0, 0x00bb, 0x0177, 0x02ee, 0x05dd,
            0x0bbb, 0x1777, 0x2eef, 0x5ddf, 0xbbbf, 0x6665, 0xcccb, 0x888d,
        )
    } else if k == 5 {
        select(
            i,
            0x1a5b, 0x34b6, 0x696d, 0xd2da, 0xbfef, 0x7fdf, 0xffbf, 0xff7e,
            0xfefc, 0xfdf8, 0xfbf0, 0xf7e1, 0xefc3, 0xc5dd, 0x8bbb, 0x0d2d,
        )
    } else if k == 6 {
        select(
            i,
            0x59bd, 0xb37b, 0x66f7, 0xcdef, 0xc262, 0x84c4, 0x0989, 0x1313,
            0x2627, 0x4c4e, 0x989c, 0x3139, 0x6272, 0x9d58, 0x3ab1, 0x2cde,
        )
    } else if k == 7 {
        select(
            i,
            0xe8cd, 0xd19b, 0xa336, 0x466d, 0x6417, 0xc82f, 0x905f, 0x20bf,
            0x417f, 0x82fe, 0x05fc, 0x0bf9, 0x17f3, 0xc72a, 0x8e55, 0xf466,
        )
    } else if k == 8 {
        select(
            i,
            0x0b96, 0x172c, 0x2e58, 0x5cb1, 0xb2f4, 0x65e8, 0xcbd0, 0x97a0,
            0x2f40, 0x5e80, 0xbd00, 0x7a00, 0xf400, 0xe397, 0xc72e, 0x85cb,
        )
    } else if k == 9 {
        select(
            i,
            0x17e0, 0x2fc1, 0x5f82, 0xbf04, 0x69e8, 0xd3d0, 0xa7a1, 0x4f43,
            0x9e87, 0x3d0e, 0x7a1c, 0xf439, 0xe872, 0xc704, 0x8e08, 0x0bf0,
        )
    } else if k == 10 {
        select(
            i,
            0x0ad5, 0x15aa, 0x2b54, 0x56a8, 0xa784, 0x4f09, 0x9e12, 0x3c24,
            0x7849, 0xf093, 0xe127, 0xc24e, 0x849d, 0x03ef, 0x07df, 0x056a,
        )
    } else if k == 11 {
        select(
            i,
            0x16ee, 0x2ddc, 0x5bb9, 0xb773, 0x7808, 0xf011, 0xe023, 0xc046,
            0x808c, 0x0118, 0x0231, 0x0462, 0x08c4, 0x0766, 0x0ecc, 0x0b77,
        )
    } else if k == 12 {
        select(
            i,
            0x1a8f, 0x351e, 0x6a3c, 0xd478, 0xb27f, 0x64ff, 0xc9fe, 0x93fd,
            0x27fb, 0x4ff7, 0x9fef, 0x3fdf, 0x7fbe, 0xe5f2, 0xcbe4, 0x8d47,
        )
    } else if k == 13 {
        select(
            i,
            0x0dbe, 0x1b7d, 0x36fa, 0x6df4, 0xd657, 0xacaf, 0x595e, 0xb2bd,
            0x657b, 0xcaf6, 0x95ec, 0x2bd9, 0x57b3, 0xa2d8, 0x45b0, 0x86df,
        )
    } else if k == 14 {
        select(
            i,
            0x5378, 0xa6f1, 0x4de3, 0x9bc7, 0x64f6, 0xc9ed, 0x93db, 0x27b7,
            0x4f6e, 0x9edc, 0x3db9, 0x7b72, 0xf6e4, 0xbeb1, 0x7d62, 0xa9bc,
        )
    } else {
        select(
            i,
            0xff33, 0xfe67, 0xfccf, 0xf99e, 0x0c0f, 0x181f, 0x303e, 0x607c,
            0xc0f8, 0x81f1, 0x03e3, 0x07c6, 0x0f8c, 0xe02a, 0xc055, 0x7f99,
        )
    }
}

/// Image of `r` under the map that stands for two to the `k` steps.
spec fn level(k: u16, r: u16) -> u16 {
    lin16(
        r,
        column(k, 0),
        column(k, 1),
        column(k, 2),
        column(k, 3),
        column(k, 4),
        column(k, 5),
        column(k, 6),
        column(k, 7),
        column(k, 8),
        column(k, 9),
        column(k, 10),
        column(k, 11),
        column(k, 12),
        column(k, 13),
        column(k, 14),
        column(k, 15),
    )
}

/// The columns of level `k`.
spec fn columns(k: u16) -> Seq<u16> {
    Seq::new(16, |i: int| column(k, i as u16))
}

/// Image of `r` under the linear map whose first `n` columns are those of
/// `c` and whose other columns are zero.
spec fn fold(r: u16, c: Seq<u16>, n: nat) -> u16
    decreases n,
{
    if n == 0 {
        0
    } else {
        fold(r, c, (n - 1) as nat) ^ pick(r, (n - 1) as u16, c[n - 1])
    }
}

/// Columns of the map that applies first the map with the columns `c`,
/// then the one with the columns `d`.
spec fn product(c: Seq<u16>, d: Seq<u16>) -> Seq<u16> {
    Seq::new(16, |i: int| fold(c[i], d, 16))
}

/// Each column of a level is the image, under the level before, of that
/// level's own column.
proof fn lemma_square_basis(k: u16, i: u16)
    by (bit_vector)
    requires
        k < 15,
        i < 16,
    ensures
        column((k + 1) as u16, i) == level(k, column(k, i)),
{
}

/// The square of the last level has the columns of the first.
proof fn lemma_wrap_basis(i: u16)
    by (bit_vector)
    requires
        i < 16,
    ensures
        column(0, i) == level(15, column(15, i)),
{
}

/// The first level is one step of the register.
proof fn lemma_level_zero(r: u16)
    by (bit_vector)
    ensures
        level(0, r) == lfsr_bits(r),
{
}

/// A selection of a bit of an exclusive-or is the exclusive-or of the
/// selections.
proof fn lemma_pick_additive(a: u16, b: u16, i: u16, c: u16)
    by (bit_vector)
    requires
        i < 16,
    ensures
        pick(a ^ b, i, c) == pick(a, i, c) ^ pick(b, i, c),
{
}

/// Exclusive-or may be regrouped, and zero is neutral for it.
proof fn lemma_xor(p: u16, q: u16, x: u16, y: u16)
    by (bit_vector)
    ensures
        (p ^ q) ^ (x ^ y) == (p ^ x) ^ (q ^ y),
        0u16 ^ x == x,
{
}

/// No bit of zero is set.
proof fn lemma_pick_zero(i: u16, c: u16)
    by (bit_vector)
    requires
        i < 16,
    ensures
        pick(0, i, c) == 0,
{
}

/// Every divisor of the period but the period itself divides the period
/// over one of its prime factors.
proof fn lemma_divisors(g: u16)
    by (bit_vector)
    requires
        0 < g < 65535,
        65535u16 % g == 0,
    ensures
        21845u16 % g == 0 || 13107u16 % g == 0 || 3855u16 % g == 0 || 255u16 % g == 0,
{
}

/// Images met on the way from one to the register after a third of the
/// period.
proof fn lemma_chain_21845()
    by (bit_vector)
    ensures
        level(0, 0x0001) == 0x0002u16,
        level(2, 0x0002) == 0x0022u16,
        level(4, 0x0022) == 0x2343u16,
        level(6, 0x2343) == 0x147eu16,
        level(8, 0x147e) == 0x3009u16,
        level(10, 0x3009) == 0xdb0fu16,
        level(12, 0xdb0f) == 0xff1bu16,
        level(14, 0xff1b) == 0x014au16,
{
}

/// Images met on the way from one to the register after a fifth of the
/// period.
proof fn lemma_chain_13107()
    by (bit_vector)
    ensures
        level(0, 0x0001) == 0x0002u16,
        level(1, 0x0002) == 0x0008u16,
        level(4, 0x0008) == 0x88d0u16,
        level(5, 0x88d0) == 0x45e2u16,
        level(8, 0x45e2) == 0x7bdau16,
        level(9, 0x7bda) == 0xe701u16,
        level(12, 0xe701) == 0x4e3du16,
        level(13, 0x4e3d) == 0x1d3bu16,
{
}

/// Images met on the way from one to the register after a seventeenth of
/// the period.
proof fn lemma_chain_3855()
    by (bit_vector)
    ensures
        level(0, 0x0001) == 0x0002u16,
        level(1, 0x0002) == 0x0008u16,
        level(2, 0x0008) == 0x0088u16,
        level(3, 0x0088) == 0x888du16,
        level(8, 0x888d) == 0x1114u16,
        level(9, 0x1114) == 0x409fu16,
        level(10, 0x409f) == 0xfefcu16,
        level(11, 0xfefc) == 0x49e4u16,
{
}

/// Images met on the way from one to the register after the period over
/// 257.
proof fn lemma_chain_255()
    by (bit_vector)
    ensures
        level(0, 0x0001) == 0x0002u16,
        level(1, 0x0002) == 0x0008u16,
        level(2, 0x0008) == 0x0088u16,
        level(3, 0x0088) == 0x888du16,
        level(4, 0x888d) == 0x0d2du16,
        level(5, 0x0d2d) == 0x2cdeu16,
        level(6, 0x2cde) == 0xf466u16,
        level(7, 0xf466) == 0x85cbu16,
{
}

/// A linear map takes an exclusive-or to the exclusive-or of the images.
proof fn lemma_fold_additive(a: u16, b: u16, c: Seq<u16>, n: nat)
    requires
        n <= 16,
    ensures
        fold(a ^ b, c, n) == fold(a, c, n) ^ fold(b, c, n),
    decreases n,
{
    if n == 0 {
        lemma_xor(0, 0, 0, 0);
    } else {
        let m = (n - 1) as nat;
        let v = c[n - 1];
        lemma_fold_additive(a, b, c, m);
        lemma_pick_additive(a, b, m as u16, v);
        lemma_xor(fold(a, c, m), fold(b, c, m), pick(a, m as u16, v), pick(b, m as u16, v));
    }
}

/// A linear map takes zero to zero.
proof fn lemma_fold_zero(c: Seq<u16>, n: nat)
    requires
        n <= 16,
    ensures
        fold(0, c, n) == 0,
    decreases n,
{
    if n > 0 {
        lemma_fold_zero(c, (n - 1) as nat);
        lemma_pick_zero((n - 1) as u16, c[n - 1]);
        lemma_xor(0, 0, 0, 0);
    }
}

/// The composition of two linear maps is the linear map whose columns are
/// the images, under the second, of the columns of the first.
proof fn lemma_fold_compose(r: u16, c: Seq<u16>, d: Seq<u16>, n: nat)
    requires
        n <= 16,
    ensures
        fold(fold(r, c, n), d, 16) == fold(r, product(c, d), n),
    decreases n,
{
    if n == 0 {
        lemma_fold_zero(d, 16);
    } else {
        let m = (n - 1) as nat;
        let p = pick(r, m as u16, c[n - 1]);
        lemma_fold_compose(r, c, d, m);
        lemma_fold_additive(fold(r, c, m), p, d, 16);
        lemma_fold_zero(d, 16);
        assert(fold(p, d, 16) == pick(r, m as u16, product(c, d)[n - 1]));
    }
}

/// A level is the linear map with the columns of that level.
proof fn lemma_level_fold(k: u16, r: u16)
    ensures
        level(k, r) == fold(r, columns(k), 16),
{
    reveal_with_fuel(fold, 17);
    lemma_xor(0, 0, pick(r, 0, column(k, 0)), 0);
}

/// Each level is the square of the level before.
proof fn lemma_doubling(k: u16, r: u16)
    requires
        k < 15,
    ensures
        level((k + 1) as u16, r) == level(k, level(k, r)),
{
    let next = (k + 1) as u16;
    lemma_level_fold(k, r);
    lemma_level_fold(k, level(k, r));
    lemma_level_fold(next, r);
    lemma_fold_compose(r, columns(k), columns(k), 16);
    assert forall|i: int| 0 <= i < 16 implies product(columns(k), columns(k))[i] == columns(
        next,
    )[i] by {
        lemma_level_fold(k, column(k, i as u16));
        lemma_square_basis(k, i as u16);
    }
    assert(product(columns(k), columns(k)) =~= columns(next));
}

/// The square of the last level is the first level.
proof fn lemma_wrap(r: u16)
    ensures
        level(0, r) == level(15, level(15, r)),
{
    lemma_level_fold(15, r);
    lemma_level_fold(15, level(15, r));
    lemma_level_fold(0, r);
    lemma_fold_compose(r, columns(15), columns(15), 16);
    assert forall|i: int| 0 <= i < 16 implies product(columns(15), columns(15))[i] == columns(
        0,
    )[i] by {
        lemma_level_fold(15, column(15, i as u16));
        lemma_wrap_basis(i as u16);
    }
    assert(product(columns(15), columns(15)) =~= columns(0));
}

/// Steps add up: `a + b` steps are `a` steps followed by `b` steps.
pub proof fn lemma_after_add(r: int, a: nat, b: nat)
    ensures
        lfsr_after(r, a + b) == lfsr_after(lfsr_after(r, a), b),
    decreases b,
{
    if b > 0 {
        lemma_after_add(r, a, (b - 1) as nat);
    }
}

/// The register stays within sixteen bits, and stays nonzero if it was.
pub proof fn lemma_after_range(r: int, n: nat)
    requires
        0 <= r <= 0xffff,
    ensures
        0 <= lfsr_after(r, n) <= 0xffff,
        r != 0 ==> lfsr_after(r, n) != 0,
    decreases n,
{
    if n > 0 {
        lemma_after_range(r, (n - 1) as nat);
        let w = lfsr_after(r, (n - 1) as nat);
        if w != 0 {
            law_lfsr_never_zero(w);
        }
    }
}

/// A level stands for two to the `k` steps.
proof fn lemma_level(k: u16, r: u16)
    requires
        k <= 15,
    ensures
        level(k, r) == lfsr_after(r as int, pow2(k as nat)),
    decreases k,
{
    if k == 0 {
        lemma_level_zero(r);
        lemma_lfsr_bits(r);
        lemma2_to64();
        assert(lfsr_after(r as int, 1) == lfsr_next(lfsr_after(r as int, 0)));
    } else {
        let j = (k - 1) as u16;
        lemma_doubling(j, r);
        lemma_level(j, r);
        lemma_level(j, level(j, r));
        lemma_after_add(r as int, pow2(j as nat), pow2(j as nat));
        lemma_pow2_unfold(k as nat);
    }
}

/// After as many steps as the period the register is where it started.
pub proof fn lemma_cycle(r: int)
    requires
        0 <= r <= 0xffff,
    ensures
        lfsr_after(r, 65535) == r,
{
    let w = r as u16;
    lemma_wrap(w);
    lemma_level(15, w);
    lemma_level(15, level(15, w));
    lemma_level(0, w);
    lemma2_to64();
    lemma_after_add(r, 32768, 32768);
    assert(lfsr_after(r, 65536) == lfsr_after(r, 1));
    assert(lfsr_after(r, 65536) == lfsr_next(lfsr_after(r, 65535)));
    assert(lfsr_after(r, 1) == lfsr_next(lfsr_after(r, 0)));
    lemma_after_range(r, 65535);
    law_lfsr_injective(lfsr_after(r, 65535), r);
}

/// From the register `v` after `n` steps, one application of level `k`
/// gives the register after two to the `k` steps more.
proof fn lemma_hop(n: nat, v: u16, k: u16, w: u16)
    requires
        lfsr_after(1, n) == v,
        k <= 15,
        level(k, v) == w,
    ensures
        lfsr_after(1, n + pow2(k as nat)) == w,
{
    lemma_level(k, v);
    lemma_after_add(1, n, pow2(k as nat));
}

/// The register after a third of the period.
proof fn lemma_after_21845()
    ensures
        lfsr_after(1, 21845) == 0x014a,
{
    lemma_chain_21845();
    lemma2_to64();
    lemma_hop(0, 0x0001, 0, 0x0002);
    lemma_hop(1, 0x0002, 2, 0x0022);
    lemma_hop(5, 0x0022, 4, 0x2343);
    lemma_hop(21, 0x2343, 6, 0x147e);
    lemma_hop(85, 0x147e, 8, 0x3009);
    lemma_hop(341, 0x3009, 10, 0xdb0f);
    lemma_hop(1365, 0xdb0f, 12, 0xff1b);
    lemma_hop(5461, 0xff1b, 14, 0x014a);
}

/// The register after a fifth of the period.
proof fn lemma_after_13107()
    ensures
        lfsr_after(1, 13107) == 0x1d3b,
{
    lemma_chain_13107();
    lemma2_to64();
    lemma_hop(0, 0x0001, 0, 0x0002);
    lemma_hop(1, 0x0002, 1, 0x0008);
    lemma_hop(3, 0x0008, 4, 0x88d0);
    lemma_hop(19, 0x88d0, 5, 0x45e2);
    lemma_hop(51, 0x45e2, 8, 0x7bda);
    lemma_hop(307, 0x7bda, 9, 0xe701);
    lemma_hop(819, 0xe701, 12, 0x4e3d);
    lemma_hop(4915, 0x4e3d, 13, 0x1d3b);
}

/// The register after a seventeenth of the period.
proof fn lemma_after_3855()
    ensures
        lfsr_after(1, 3855) == 0x49e4,
{
    lemma_chain_3855();
    lemma2_to64();
    lemma_hop(0, 0x0001, 0, 0x0002);
    lemma_hop(1, 0x0002, 1, 0x0008);
    lemma_hop(3, 0x0008, 2, 0x0088);
    lemma_hop(7, 0x0088, 3, 0x888d);
    lemma_hop(15, 0x888d, 8, 0x1114);
    lemma_hop(271, 0x1114, 9, 0x409f);
    lemma_hop(783, 0x409f, 10, 0xfefc);
    lemma_hop(1807, 0xfefc, 11, 0x49e4);
}

/// The register after the period over 257.
proof fn lemma_after_255()
    ensures
        lfsr_after(1, 255) == 0x85cb,
{
    lemma_chain_255();
    lemma2_to64();
    lemma_hop(0, 0x0001, 0, 0x0002);
    lemma_hop(1, 0x0002, 1, 0x0008);
    lemma_hop(3, 0x0008, 2, 0x0088);
    lemma_hop(7, 0x0088, 3, 0x888d);
    lemma_hop(15, 0x888d, 4, 0x0d2d);
    lemma_hop(31, 0x0d2d, 5, 0x2cde);
    lemma_hop(63, 0x2cde, 6, 0xf466);
    lemma_hop(127, 0xf466, 7, 0x85cb);
}

/// Greatest common divisor, by repeated remainders.
spec fn gcd(a: nat, b: nat) -> nat
    decreases b,
{
    if b == 0 {
        a
    } else {
        gcd(b, a % b)
    }
}

/// A number of steps that brings the register back does so again and
/// again.
proof fn lemma_back_multiple(a: nat, q: nat)
    requires
        comes_back(a),
    ensures
        comes_back(q * a),
    decreases q,
{
    if q == 0 {
        assert(q * a == 0) by (nonlinear_arith)
            requires
                q == 0,
        ;
    } else {
        let p = (q - 1) as nat;
        lemma_back_multiple(a, p);
        assert(q * a == p * a + a) by (nonlinear_arith)
            requires
                q == p + 1,
        ;
        lemma_after_add(1, p * a, a);
    }
}

/// If two numbers of steps bring the register back, so does the remainder
/// of one by the other.
proof fn lemma_back_mod(a: nat, b: nat)
    requires
        comes_back(a),
        comes_back(b),
        b > 0,
    ensures
        comes_back(a % b),
{
    let q = a / b;
    let r = a % b;
    lemma_fundamental_div_mod(a as int, b as int);
    lemma_back_multiple(b, q);
    assert(q * b == b * q) by (nonlinear_arith);
    lemma_after_add(1, q * b, r);
}

/// What divides a divisor and the remainder divides the dividend.
proof fn lemma_divides_dividend(a: nat, b: nat, g: nat)
    requires
        b > 0,
        g > 0,
        b % g == 0,
        (a % b) % g == 0,
    ensures
        a % g == 0,
{
    let q = (a / b) as int;
    let r = (a % b) as int;
    let x = (b / g) as int;
    let y = r / (g as int);
    lemma_fundamental_div_mod(a as int, b as int);
    lemma_fundamental_div_mod(b as int, g as int);
    lemma_fundamental_div_mod(r, g as int);
    let z = x * q + y;
    assert(a == z * g) by (nonlinear_arith)
        requires
            a == b * q + r,
            b == g * x,
            r == g * y,
            z == x * q + y,
    ;
    lemma_mod_multiples_basic(z, g as int);
}

/// The greatest common divisor of two numbers of steps that bring the
/// register back brings it back too, and divides both.
proof fn lemma_gcd(a: nat, b: nat)
    requires
        comes_back(a),
        comes_back(b),
        a > 0,
    ensures
        gcd(a, b) > 0,
        comes_back(gcd(a, b)),
        a % gcd(a, b) == 0,
        b % gcd(a, b) == 0,
    decreases b,
{
    if b == 0 {
        lemma_mod_multiples_basic(1, a as int);
        lemma_mod_multiples_basic(0, a as int);
    } else {
        lemma_back_mod(a, b);
        lemma_gcd(b, a % b);
        lemma_divides_dividend(a, b, gcd(b, a % b));
    }
}

/// A positive multiple is no smaller than what it is a multiple of, and is
/// that times the quotient.
proof fn lemma_multiple(c: nat, g: nat)
    requires
        c > 0,
        g > 0,
        c % g == 0,
    ensures
        g <= c,
        c == (c / g) * g,
{
    lemma_fundamental_div_mod(c as int, g as int);
    let q = (c / g) as int;
    assert(q >= 1 && c == q * g) by (nonlinear_arith)
        requires
            c == g * q,
            c > 0,
            g > 0,
    ;
    assert(g <= c) by (nonlinear_arith)
        requires
            c == q * g,
            q >= 1,
            g > 0,
    ;
}

/// The register is not back at one before the period is over.
pub proof fn lemma_not_back_early(n: nat)
    requires
        0 < n < 65535,
    ensures
        !comes_back(n),
{
    if comes_back(n) {
        lemma_cycle(1);
        lemma_gcd(n, 65535);
        let g = gcd(n, 65535);
        lemma_multiple(n, g);
        lemma_divisors(g as u16);
        lemma_after_21845();
        lemma_after_13107();
        lemma_after_3855();
        lemma_after_255();
        if 21845int % (g as int) == 0 {
            lemma_multiple(21845, g);
            lemma_back_multiple(g, 21845nat / g);
        } else if 13107int % (g as int) == 0 {
            lemma_multiple(13107, g);
            lemma_back_multiple(g, 13107nat / g);
        } else if 3855int % (g as int) == 0 {
            lemma_multiple(3855, g);
            lemma_back_multiple(g, 3855nat / g);
        } else {
            lemma_multiple(255, g);
            lemma_back_multiple(g, 255nat / g);
        }
    }
}

/// Registers that agree after `n` steps were the same to begin with.
pub proof fn lemma_after_injective(a: int, b: int, n: nat)
    requires
        0 <= a <= 0xffff,
        0 <= b <= 0xffff,
        lfsr_after(a, n) == lfsr_after(b, n),
    ensures
        a == b,
    decreases n,
{
    if n > 0 {
        let m = (n - 1) as nat;
        lemma_after_range(a, m);
        lemma_after_range(b, m);
        law_lfsr_injective(lfsr_after(a, m), lfsr_after(b, m));
        lemma_after_injective(a, b, m);
    }
}

/// Within one period the register takes no value twice.
pub proof fn lemma_distinct(i: nat, j: nat)
    requires
        i < j < 65535,
    ensures
        lfsr_after(1, i) != lfsr_after(1, j),
{
    if lfsr_after(1, i) == lfsr_after(1, j) {
        let d = (j - i) as nat;
        lemma_after_add(1, d, i);
        lemma_after_range(1, d);
        lemma_after_injective(lfsr_after(1, d), 1, i);
        lemma_not_back_early(d);
    }
}

/// Within one period the register takes every nonzero value.
pub proof fn lemma_covers(v: int)
    requires
        1 <= v <= 0xffff,
    ensures
        visited(v),
{
    let steps = set_int_range(0, 65535);
    let f = |i: int| lfsr_after(1, i as nat);
    let visited = steps.map(f);
    let nonzero = set_int_range(1, 65536);
    assert(injective_on(f, steps)) by {
        assert forall|i: int, j: int|
            steps.contains(i) && steps.contains(j) && #[trigger] f(i) == #[trigger] f(
                j,
            ) implies i == j by {
            if i < j {
                lemma_distinct(i as nat, j as nat);
            } else if j < i {
                lemma_distinct(j as nat, i as nat);
            }
        }
    }
    lemma_int_range(0, 65535);
    lemma_int_range(1, 65536);
    lemma_map_size(steps, visited, f);
    assert(visited.subset_of(nonzero)) by {
        assert forall|w: int| visited.contains(w) implies nonzero.contains(w) by {
            let i = choose|i: int| steps.contains(i) && w == f(i);
            lemma_after_range(1, i as nat);
        }
    }
    lemma_subset_equality(visited, nonzero);
    assert(nonzero.contains(v));
    assert(visited.contains(v));
    let i = choose|i: int| steps.contains(i) && v == f(i);
    assert((i as nat) < 65535 && lfsr_after(1, i as nat) == v);
}

/// The register of a modulator runs free: after `n` samples it is where
/// `n` steps take it, whatever the input was.
pub proof fn law_register_runs_free(s: ModulatorState, x: int, n: nat)
    ensures
        s.run(x, n).lfsr == lfsr_after(s.lfsr, n),
    decreases n,
{
    if n > 0 {
        law_register_runs_free(s, x, (n - 1) as nat);
    }
}

/// Started from one, the register is back at one after 65535 steps and
/// not before; on the way it takes 65535 different values, every nonzero
/// sixteen-bit value among them, and never zero.
pub proof fn law_lfsr_maximal_period()
    ensures
        lfsr_after(1, 65535) == 1,
        forall|n: nat| 0 < n < 65535 ==> #[trigger] lfsr_after(1, n) != 1,
        forall|i: nat, j: nat|
            i < j < 65535 ==> #[trigger] lfsr_after(1, i) != #[trigger] lfsr_after(1, j),
        forall|v: int| 1 <= v <= 0xffff ==> #[trigger] visited(v),
        forall|n: nat| 1 <= #[trigger] lfsr_after(1, n) <= 0xffff,
{
    lemma_cycle(1);
    assert forall|n: nat| 0 < n < 65535 implies #[trigger] lfsr_after(1, n) != 1 by {
        lemma_not_back_early(n);
    }
    assert forall|i: nat, j: nat| i < j < 65535 implies #[trigger] lfsr_after(1, i)
        != #[trigger] lfsr_after(1, j) by {
        lemma_distinct(i, j);
    }
    assert forall|v: int| 1 <= v <= 0xffff implies #[trigger] visited(v) by {
        lemma_covers(v);
    }
    assert forall|n: nat| 1 <= #[trigger] lfsr_after(1, n) <= 0xffff by {
        lemma_after_range(1, n);
    }
}

} // verus!
