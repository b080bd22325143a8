//! Periodic waveform synthesis through the noise-shaping modulator.
//!
//! One period of the waveform is a table of magnitudes with sixteen
//! fractional bits. A whole output buffer is rendered from one table entry:
//! every sample is the entry's coarse part plus the correction that the
//! modulator emits for its fractional part. The entry changes from one
//! buffer to the next; the modulator state carries over.

use vstd::prelude::*;
use crate::modulator::{lemma_step_valid, DDSM3, ModulatorState};

verus! {

/// Number of table entries in one period.
pub const N_COS: usize = 36;

/// One period of a raised cosine, with sixteen fractional bits.
pub const COS: [i32; 36] = [
    0xfae147,
    0xf9035f,
    0xf3782c,
    0xea6acd,
    0xde21ac,
    0xcefc59,
    0xbd70a3,
    0xaa0705,
    0x95567f,
    0x800000,
    0x6aa980,
    0x55f8fa,
    0x428f5c,
    0x3103a6,
    0x21de53,
    0x159532,
    0xc87d3,
    0x6fca0,
    0x51eb8,
    0x6fca0,
    0xc87d3,
    0x159532,
    0x21de53,
    0x3103a6,
    0x428f5c,
    0x55f8fa,
    0x6aa980,
    0x7fffff,
    0x95567f,
    0xaa0705,
    0xbd70a3,
    0xcefc59,
    0xde21ac,
    0xea6acd,
    0xf3782c,
    0xf9035f,
];

/// Part of the magnitude `m` above its sixteen fractional bits.
pub open spec fn coarse(m: int) -> int {
    m / 0x1_0000
}

/// The sixteen fractional bits of the magnitude `m`.
pub open spec fn fine(m: int) -> int {
    m % 0x1_0000
}

/// Sample that a modulator in state `s` emits for the magnitude `m`: the
/// coarse part plus the correction, kept to sixteen bits.
pub open spec fn sample(s: ModulatorState, m: int) -> int {
    (coarse(m) + s.output(fine(m))) % 0x1_0000
}

/// The `n` samples that a modulator starting in state `s` emits while the
/// magnitude stays at `m`.
pub open spec fn samples(s: ModulatorState, m: int, n: nat) -> Seq<int> {
    Seq::new(n, |i: int| sample(s.run(fine(m), i as nat), m))
}

/// Arithmetic shift and truncation split a value into a quotient and a
/// remainder below two to the sixteenth.
proof fn lemma_split_bits(v: i32)
    by (bit_vector)
    ensures
        (v >> 16) * 0x1_0000 <= v < (v >> 16) * 0x1_0000 + 0x1_0000,
        (v as u16) == v - (v >> 16) * 0x1_0000,
{
}

/// A quotient and remainder that fit are the floor quotient and remainder.
proof fn lemma_floor_split(v: int, q: int, r: int)
    requires
        v == q * 0x1_0000 + r,
        0 <= r < 0x1_0000,
    ensures
        q == coarse(v),
        r == fine(v),
{
}

/// Every sample rendered from the table fits the eight bits of the
/// output: the table keeps clear of both ends by more than the largest
/// correction.
pub proof fn law_samples_fit_output(s: ModulatorState, i: int)
    requires
        s.valid(),
        0 <= i < 36,
    ensures
        0 <= sample(s, COS@[i] as int) <= 255,
{
    let m = COS@[i] as int;
    assert(0x5_0000 <= m < 0xfb_0000);
    lemma_step_valid(s, fine(m));
}

/// Emits one sample for the magnitude `m` and advances the modulator.
pub fn modulate(dsm: &mut DDSM3, m: i32) -> (y: u16)
    requires
        old(dsm).wf(),
    ensures
        y == sample(old(dsm)@, m as int),
        final(dsm)@ == old(dsm)@.step(fine(m as int)),
        final(dsm).wf(),
{
    let hi: i32 = m >> 16;
    let lo: u16 = m as u16;
    proof {
        lemma_split_bits(m);
        lemma_floor_split(m as int, hi as int, lo as int);
    }
    let correction: i8 = dsm.process(lo);
    let v: i32 = hi + correction as i32;
    let y: u16 = v as u16;
    proof {
        lemma_split_bits(v);
        lemma_floor_split(v as int, (v >> 16) as int, y as int);
    }
    y
}

/// Waveform generator: the modulator and the place in the table.
#[derive(Clone, Copy, Debug, PartialEq, Eq)]
pub struct Waveform {
    /// The modulator; its state is never reset between buffers.
    pub dsm: DDSM3,
    /// Table entry that the next buffer is rendered from.
    pub index: usize,
}

impl Waveform {
    /// The modulator is well formed and the index is inside the table.
    pub open spec fn wf(&self) -> bool {
        self.dsm.wf() && self.index < N_COS
    }

    /// Magnitude that the next buffer is rendered from.
    pub open spec fn magnitude(&self) -> int {
        COS@[self.index as int] as int
    }

    /// A generator at the start of the table with a fresh modulator.
    pub fn new() -> (w: Waveform)
        ensures
            w.dsm@ == ModulatorState::initial(),
            w.index == 0,
            w.wf(),
    {
        Waveform { dsm: DDSM3::new(), index: 0 }
    }

    /// Says whether `wf` holds.
    pub fn is_wf(&self) -> (ok: bool)
        ensures
            ok == self.wf(),
    {
        self.dsm.is_wf() && self.index < N_COS
    }

    /// Renders one buffer: every sample of `out` comes from the current
    /// table entry, then the index moves on by one, wrapping at the end of
    /// the table.
    pub fn render(&mut self, out: &mut [u16])
        requires
            old(self).wf(),
        ensures
            final(out)@.len() == old(out)@.len(),
            final(out)@.map_values(|v: u16| v as int) == samples(
                old(self).dsm@,
                old(self).magnitude(),
                old(out)@.len(),
            ),
            final(self).dsm@ == old(self).dsm@.run(
                fine(old(self).magnitude()),
                old(out)@.len(),
            ),
            final(self).index == (old(self).index + 1) % 36,
            final(self).wf(),
    {
        let m: i32 = COS[self.index];
        let n: usize = out.len();
        let mut i: usize = 0;
        while i < n
            invariant
                i <= n,
                out@.len() == n,
                n == old(out)@.len(),
                self.index == old(self).index,
                m == old(self).magnitude(),
                self.dsm.wf(),
                self.dsm@ == old(self).dsm@.run(fine(m as int), i as nat),
                forall|j: int|
                    0 <= j < i ==> out@[j] as int == sample(
                        old(self).dsm@.run(fine(m as int), j as nat),
                        m as int,
                    ),
            decreases n - i,
        {
            let y: u16 = modulate(&mut self.dsm, m);
            out[i] = y;
            i = i + 1;
        }
        self.index = (self.index + 1) % N_COS;
        assert(out@.map_values(|v: u16| v as int) =~= samples(
            old(self).dsm@,
            m as int,
            n as nat,
        ));
    }
}

} // verus!
