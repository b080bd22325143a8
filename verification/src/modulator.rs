//! Third-order error-feedback modulator with a pseudo-random dither source.
//!
//! The modulator turns a 16-bit fraction into a stream of small signed
//! corrections whose running average equals the fraction. Three cascaded
//! 16-bit accumulators integrate the dithered fraction; the carries that
//! leave them are differentiated once and twice so that the quantisation
//! error is pushed towards high frequencies.

use vstd::prelude::*;

verus! {

/// Number of values a 16-bit cell can hold.
pub const WORD: u32 = 0x1_0000;

/// Bit of `r` that has the weight `weight` (a power of two).
pub open spec fn tap(r: int, weight: int) -> int {
    (r / weight) % 2
}

/// Dither bit drawn from the register `r`: the parity of its bits 15, 14,
/// 12 and 3.
pub open spec fn feedback(r: int) -> int {
    (tap(r, 0x8000) + tap(r, 0x4000) + tap(r, 0x1000) + tap(r, 8)) % 2
}

/// Register that follows `r`: `r` moved one place to the left within 16
/// bits, with the dither bit entering at the bottom.
pub open spec fn lfsr_next(r: int) -> int {
    (2 * r) % 0x1_0000 + feedback(r)
}

/// `x` with its lowest bit inverted where `bit` is one.
pub open spec fn dither(x: int, bit: int) -> int {
    if bit == 0 {
        x
    } else if x % 2 == 0 {
        x + 1
    } else {
        x - 1
    }
}

/// Mathematical state of the modulator.
pub struct ModulatorState {
    /// Pseudo-random register, in `1..=0xffff`.
    pub lfsr: int,
    /// The three accumulators, first stage first, each in `0..=0xffff`.
    pub acc: Seq<int>,
    /// The carry that left the third stage in the step before, and the
    /// first difference that was formed in the step before.
    pub carry: Seq<int>,
}

impl ModulatorState {
    /// Sum that the first stage forms from the input `x`.
    pub open spec fn sum0(self, x: int) -> int {
        self.acc[0] + dither(x, feedback(self.lfsr))
    }

    /// Sum that the second stage forms.
    pub open spec fn sum1(self, x: int) -> int {
        self.acc[1] + self.sum0(x) % 0x1_0000
    }

    /// Sum that the third stage forms.
    pub open spec fn sum2(self, x: int) -> int {
        self.acc[2] + self.sum1(x) % 0x1_0000
    }

    /// Carry of the second stage plus the change in the carry of the third.
    pub open spec fn first_difference(self, x: int) -> int {
        self.sum2(x) / 0x1_0000 - self.carry[0] + self.sum1(x) / 0x1_0000
    }

    /// Correction that the step emits for the input `x`: the carry of the
    /// first stage plus the change in the first difference.
    pub open spec fn output(self, x: int) -> int {
        self.first_difference(x) - self.carry[1] + self.sum0(x) / 0x1_0000
    }

    /// State after one step with the input `x`.
    pub open spec fn step(self, x: int) -> ModulatorState {
        ModulatorState {
            lfsr: lfsr_next(self.lfsr),
            acc: seq![
                self.sum0(x) % 0x1_0000,
                self.sum1(x) % 0x1_0000,
                self.sum2(x) % 0x1_0000,
            ],
            carry: seq![self.sum2(x) / 0x1_0000, self.first_difference(x)],
        }
    }

    /// State after `n` steps that all take the input `x`.
    pub open spec fn run(self, x: int, n: nat) -> ModulatorState
        decreases n,
    {
        if n == 0 {
            self
        } else {
            self.run(x, (n - 1) as nat).step(x)
        }
    }

    /// Sum of the corrections that `n` steps with the input `x` emit.
    pub open spec fn total(self, x: int, n: nat) -> int
        decreases n,
    {
        if n == 0 {
            0
        } else {
            self.total(x, (n - 1) as nat) + self.run(x, (n - 1) as nat).output(x)
        }
    }

    /// Every cell holds a value that a step can leave in it.
    pub open spec fn valid(self) -> bool {
        &&& 1 <= self.lfsr <= 0xffff
        &&& self.acc.len() == 3
        &&& forall|i: int| 0 <= i < 3 ==> 0 <= #[trigger] self.acc[i] <= 0xffff
        &&& self.carry.len() == 2
        &&& 0 <= self.carry[0] <= 1
        &&& -1 <= self.carry[1] <= 2
    }

    /// The state a modulator starts from: register one, everything else
    /// zero.
    pub open spec fn initial() -> ModulatorState {
        ModulatorState { lfsr: 1, acc: seq![0, 0, 0], carry: seq![0, 0] }
    }
}

/// Dithered third-order error-feedback modulator.
#[derive(Clone, Copy, Debug, PartialEq, Eq)]
pub struct DDSM3 {
    /// Pseudo-random register; never zero.
    pub lfsr: u16,
    /// Accumulators of the three stages, first stage first.
    pub a: [u16; 3],
    /// Carry of the third stage and first difference, both of the step
    /// before.
    pub c: [i8; 2],
}

impl View for DDSM3 {
    type V = ModulatorState;

    open spec fn view(&self) -> ModulatorState {
        ModulatorState {
            lfsr: self.lfsr as int,
            acc: seq![self.a@[0] as int, self.a@[1] as int, self.a@[2] as int],
            carry: seq![self.c@[0] as int, self.c@[1] as int],
        }
    }
}

/// Register that follows `r`, by shifts and exclusive-or on its sixteen
/// bits.
pub open spec fn lfsr_bits(r: u16) -> u16 {
    (r << 1) ^ (((r >> 15) ^ (r >> 14) ^ (r >> 12) ^ (r >> 3)) & 1)
}

/// The bit operations compute `lfsr_next`.
pub proof fn lemma_lfsr_bits(r: u16)
    ensures
        lfsr_bits(r) == lfsr_next(r as int),
{
    lemma_shift_bits(r);
}

/// The exclusive-or of the four tapped bits is `feedback`.
proof fn lemma_feedback_bits(r: u16)
    by (bit_vector)
    ensures
        (((r >> 15) ^ (r >> 14) ^ (r >> 12) ^ (r >> 3)) & 1) as int == ((r / 0x8000) % 2 + (r
            / 0x4000) % 2 + (r / 0x1000) % 2 + (r / 8) % 2) % 2,
{
}

/// Shifting the register and entering the dither bit doubles it, drops
/// what leaves the sixteenth bit and adds the dither bit.
proof fn lemma_shift_bits(r: u16)
    by (bit_vector)
    ensures
        lfsr_bits(r) + 0x1_0000 * (r / 0x8000) == 2 * r + ((r / 0x8000) % 2 + (r / 0x4000) % 2 + (r
            / 0x1000) % 2 + (r / 8) % 2) % 2,
{
}

/// A nonzero register is followed by a nonzero register.
proof fn lemma_nonzero_bits(r: u16)
    by (bit_vector)
    ensures
        r != 0 ==> lfsr_bits(r) != 0,
{
}

/// Registers with the same successor are the same.
proof fn lemma_injective_bits(r1: u16, r2: u16)
    by (bit_vector)
    requires
        lfsr_bits(r1) == lfsr_bits(r2),
    ensures
        r1 == r2,
{
}

/// Exclusive-or with a single bit inverts the lowest bit or does nothing.
proof fn lemma_dither_bits(x: u16, bit: u16)
    by (bit_vector)
    requires
        bit <= 1,
    ensures
        bit == 0 ==> x ^ bit == x,
        bit == 1 && x % 2 == 0 ==> (x ^ bit) == x + 1,
        bit == 1 && x % 2 == 1 ==> (x ^ bit) + 1 == x,
{
}

/// The register never reaches zero and never leaves its sixteen bits: a
/// register in `1..=0xffff` is followed by one in `1..=0xffff`.
pub proof fn law_lfsr_never_zero(r: int)
    requires
        1 <= r <= 0xffff,
    ensures
        1 <= lfsr_next(r) <= 0xffff,
{
    let w: u16 = r as u16;
    lemma_lfsr_bits(w);
    lemma_nonzero_bits(w);
}

/// Different registers are followed by different registers, so the
/// sequence of registers never merges into itself: it is a cycle.
pub proof fn law_lfsr_injective(r1: int, r2: int)
    requires
        0 <= r1 <= 0xffff,
        0 <= r2 <= 0xffff,
        lfsr_next(r1) == lfsr_next(r2),
    ensures
        r1 == r2,
{
    let w1: u16 = r1 as u16;
    let w2: u16 = r2 as u16;
    lemma_lfsr_bits(w1);
    lemma_lfsr_bits(w2);
    lemma_injective_bits(w1, w2);
}

/// A step leaves a valid state valid.
pub proof fn lemma_step_valid(s: ModulatorState, x: int)
    requires
        s.valid(),
        0 <= x <= 0xffff,
    ensures
        s.step(x).valid(),
        -3 <= s.output(x) <= 4,
{
    law_lfsr_never_zero(s.lfsr);
    assert(0 <= s.acc[0] <= 0xffff);
    assert(0 <= s.acc[1] <= 0xffff);
    assert(0 <= s.acc[2] <= 0xffff);
}

/// Steps leave a valid state valid.
pub proof fn lemma_run_valid(s: ModulatorState, x: int, n: nat)
    requires
        s.valid(),
        0 <= x <= 0xffff,
    ensures
        s.run(x, n).valid(),
    decreases n,
{
    if n > 0 {
        lemma_run_valid(s, x, (n - 1) as nat);
        lemma_step_valid(s.run(x, (n - 1) as nat), x);
    }
}

/// The corrections carry no bias: 65536 times the sum of the corrections
/// of `n` steps with the input `x` is `n * x`, but for the dither, which
/// moves each input by at most one, and for what is still held in the
/// first accumulator and in the stored difference, which is less than
/// four times 65536 however many steps are taken.
pub proof fn law_error_feedback_mean(s: ModulatorState, x: int, n: nat)
    requires
        s.valid(),
        0 <= x <= 0xffff,
    ensures
        n * x - n <= 0x1_0000 * s.total(x, n) + s.run(x, n).acc[0] - s.acc[0] - 0x1_0000 * (s.run(
            x,
            n,
        ).carry[1] - s.carry[1]) <= n * x + n,
        n * x - n - 0x4_0000 < 0x1_0000 * s.total(x, n) < n * x + n + 0x4_0000,
    decreases n,
{
    if n == 0 {
        assert(n * x == 0) by (nonlinear_arith)
            requires
                n == 0,
        ;
    } else {
        let m = (n - 1) as nat;
        law_error_feedback_mean(s, x, m);
        lemma_run_valid(s, x, m);
        lemma_run_valid(s, x, n);
        let t = s.run(x, m);
        assert(0 <= t.acc[0] <= 0xffff);
        assert(0 <= s.acc[0] <= 0xffff);
        assert(0 <= s.run(x, n).acc[0] <= 0xffff);
        assert(n * x == m * x + x) by (nonlinear_arith)
            requires
                n == m + 1,
        ;
        let sum = t.sum0(x);
        assert(0x1_0000 * (sum / 0x1_0000) + sum % 0x1_0000 == sum);
    }
}

impl DDSM3 {
    /// The register is nonzero and the stored carries are in the ranges
    /// that a step leaves them in.
    pub open spec fn wf(&self) -> bool {
        &&& self.lfsr != 0
        &&& 0 <= self.c@[0] <= 1
        &&& -1 <= self.c@[1] <= 2
    }

    /// A modulator in its initial state.
    pub fn new() -> (m: DDSM3)
        ensures
            m@ == ModulatorState::initial(),
            m.wf(),
    {
        DDSM3 { lfsr: 1, a: [0, 0, 0], c: [0, 0] }
    }

    /// Says whether `wf` holds.
    pub fn is_wf(&self) -> (ok: bool)
        ensures
            ok == self.wf(),
    {
        self.lfsr != 0 && 0 <= self.c[0] && self.c[0] <= 1 && -1 <= self.c[1] && self.c[1] <= 2
    }

    /// Advances the modulator by one sample with the fraction `x` and
    /// returns the correction to add to the coarse output.
    pub fn process(&mut self, x: u16) -> (out: i8)
        requires
            old(self).wf(),
        ensures
            final(self)@ == old(self)@.step(x as int),
            out == old(self)@.output(x as int),
            final(self).wf(),
            final(self)@.valid(),
            -3 <= out <= 4,
    {
        let r: u16 = self.lfsr;
        let bit: u16 = ((r >> 15) ^ (r >> 14) ^ (r >> 12) ^ (r >> 3)) & 1;
        self.lfsr = (r << 1) ^ bit;
        let d: u16 = x ^ bit;
        proof {
            lemma_feedback_bits(r);
            lemma_shift_bits(r);
            lemma_nonzero_bits(r);
            lemma_dither_bits(x, bit);
        }
        let s0: u32 = self.a[0] as u32 + d as u32;
        let k0: i8 = if s0 >= WORD { 1 } else { 0 };
        let a0: u16 = if s0 >= WORD { (s0 - WORD) as u16 } else { s0 as u16 };
        let s1: u32 = self.a[1] as u32 + a0 as u32;
        let k1: i8 = if s1 >= WORD { 1 } else { 0 };
        let a1: u16 = if s1 >= WORD { (s1 - WORD) as u16 } else { s1 as u16 };
        let s2: u32 = self.a[2] as u32 + a1 as u32;
        let k2: i8 = if s2 >= WORD { 1 } else { 0 };
        let a2: u16 = if s2 >= WORD { (s2 - WORD) as u16 } else { s2 as u16 };
        let first: i8 = k2 - self.c[0] + k1;
        let out: i8 = first - self.c[1] + k0;
        self.a[0] = a0;
        self.a[1] = a1;
        self.a[2] = a2;
        self.c[0] = k2;
        self.c[1] = first;
        proof {
            let m = old(self)@;
            let xi = x as int;
            assert(m.sum0(xi) == s0);
            assert(m.sum1(xi) == s1);
            assert(m.sum2(xi) == s2);
            assert(self@.acc =~= m.step(xi).acc);
            assert(self@.carry =~= m.step(xi).carry);
        }
        out
    }
}

} // verus!
