//! Fixed-point FIR and biquad IIR filters over sample buffers.
//!
//! Both kinds rest on the saturating multiply-accumulate. A FIR bank
//! weighs one whole buffer into a single output sample and keeps no state.
//! An IIR bank is a five-coefficient recurrence over a five-slot history
//! that holds recent inputs and outputs.

use vstd::prelude::*;
use crate::fixed::{macc, macc_value, MAX_SHIFT, MAX_TERMS};

verus! {

/// Number of slots in the history of an IIR section, and of coefficients in
/// an IIR bank.
pub const IIR_TAPS: usize = 5;

/// Slot of the history that receives the output of an update.
pub const IIR_FEEDBACK: usize = 2;

/// FIR coefficient bank for buffers of `N` samples.
#[derive(Clone, Copy, Debug, PartialEq, Eq)]
pub struct FirBank<const N: usize> {
    /// One coefficient per sample of the buffer.
    pub taps: [i16; N],
    /// Number of bits by which the weighted sum is scaled down.
    pub shift: u32,
    /// Value added to the scaled sum.
    pub offset: i32,
}

impl<const N: usize> FirBank<N> {
    /// The shift and the length are within what the accumulator can take.
    pub open spec fn wf(&self) -> bool {
        self.shift <= MAX_SHIFT && N <= MAX_TERMS
    }

    /// Output sample for the buffer `buffer`.
    pub open spec fn output(&self, buffer: Seq<i16>) -> int {
        macc_value(self.offset as int, buffer, self.taps@, self.shift as nat)
    }

    /// A bank with the given coefficients, or `None` where the shift or the
    /// length is too large.
    pub fn new(taps: [i16; N], shift: u32, offset: i32) -> (r: Option<Self>)
        ensures
            r.is_some() <==> shift <= MAX_SHIFT && N <= MAX_TERMS,
            r matches Some(b) ==> b.taps == taps && b.shift == shift && b.offset == offset
                && b.wf(),
    {
        if shift <= MAX_SHIFT && N <= MAX_TERMS {
            Some(FirBank { taps, shift, offset })
        } else {
            None
        }
    }

    /// Says whether `wf` holds.
    pub fn is_wf(&self) -> (ok: bool)
        ensures
            ok == self.wf(),
    {
        self.shift <= MAX_SHIFT && N <= MAX_TERMS
    }

    /// Weighs the buffer into one output sample.
    pub fn apply(&self, buffer: &[i16; N]) -> (y: i16)
        requires
            self.wf(),
        ensures
            y == self.output(buffer@),
    {
        macc(self.offset, buffer.as_slice(), self.taps.as_slice(), self.shift)
    }
}

impl FirBank<16> {
    /// Bandpass at the fundamental, first channel: one period of a sine over
    /// the sixteen samples of a buffer.
    pub fn fundamental() -> (b: Self)
        ensures
            b.wf(),
            b.taps@ == seq![
                0i16,
                1247i16,
                2304i16,
                3011i16,
                3259i16,
                3011i16,
                2304i16,
                1247i16,
                0i16,
                -1247i16,
                -2304i16,
                -3011i16,
                -3259i16,
                -3011i16,
                -2304i16,
                -1247i16,
            ],
            b.shift == 11,
            b.offset == 0,
    {
        FirBank {
            taps: [
                0,
                1247,
                2304,
                3011,
                3259,
                3011,
                2304,
                1247,
                0,
                -1247,
                -2304,
                -3011,
                -3259,
                -3011,
                -2304,
                -1247,
            ],
            shift: 11,
            offset: 0,
        }
    }
}

/// History after `x0` has entered at the head: every value moves one slot
/// towards the end and the last one is dropped.
pub open spec fn shifted(history: Seq<i16>, x0: i16) -> Seq<i16> {
    seq![x0] + history.drop_last()
}

/// History of one IIR section.
#[derive(Clone, Copy, Debug, PartialEq, Eq)]
pub struct IirState {
    /// The two inputs before the latest one, then the three latest outputs;
    /// during an update, the three latest inputs and the two outputs before.
    pub xy: [i16; 5],
}

impl View for IirState {
    type V = Seq<i16>;

    open spec fn view(&self) -> Seq<i16> {
        self.xy@
    }
}

impl IirState {
    /// A history of zeros.
    pub fn new() -> (s: Self)
        ensures
            s@ == seq![0i16, 0i16, 0i16, 0i16, 0i16],
    {
        IirState { xy: [0, 0, 0, 0, 0] }
    }
}

/// IIR coefficient bank: three numerator and two denominator coefficients.
#[derive(Clone, Copy, Debug, PartialEq, Eq)]
pub struct IirBank {
    /// Coefficients, in the order of the history slots they weigh.
    pub ba: [i16; 5],
    /// Number of bits by which the weighted sum is scaled down.
    pub shift: u32,
}

impl IirBank {
    /// The shift is within what the accumulator can take.
    pub open spec fn wf(&self) -> bool {
        self.shift <= MAX_SHIFT
    }

    /// Output of an update with the input `x0` on the history `history`.
    pub open spec fn output(&self, history: Seq<i16>, x0: i16) -> int {
        macc_value(0, shifted(history, x0), self.ba@, self.shift as nat)
    }

    /// History that an update with the input `x0` leaves behind.
    pub open spec fn next(&self, history: Seq<i16>, x0: i16) -> Seq<i16> {
        shifted(history, x0).update(IIR_FEEDBACK as int, self.output(history, x0) as i16)
    }

    /// A bank with the given coefficients, or `None` where the shift is too
    /// large.
    pub fn new(ba: [i16; 5], shift: u32) -> (r: Option<Self>)
        ensures
            r.is_some() <==> shift <= MAX_SHIFT,
            r matches Some(b) ==> b.ba == ba && b.shift == shift && b.wf(),
    {
        if shift <= MAX_SHIFT {
            Some(IirBank { ba, shift })
        } else {
            None
        }
    }

    /// Says whether `wf` holds.
    pub fn is_wf(&self) -> (ok: bool)
        ensures
            ok == self.wf(),
    {
        self.shift <= MAX_SHIFT
    }

    /// Feeds `x0` into the section: the history moves on by one slot, the
    /// output is computed from it and written back into the feedback slot.
    pub fn update(&self, state: &mut IirState, x0: i16) -> (y0: i16)
        requires
            self.wf(),
        ensures
            y0 == self.output(old(state)@, x0),
            final(state)@ == self.next(old(state)@, x0),
    {
        state.xy[4] = state.xy[3];
        state.xy[3] = state.xy[2];
        state.xy[2] = state.xy[1];
        state.xy[1] = state.xy[0];
        state.xy[0] = x0;
        assert(state@ =~= shifted(old(state)@, x0));
        let y0: i16 = macc(0, state.xy.as_slice(), self.ba.as_slice(), self.shift);
        state.xy[IIR_FEEDBACK] = y0;
        assert(state@ =~= self.next(old(state)@, x0));
        y0
    }
}

/// An update is a function of the history and the input alone: equal
/// histories and equal inputs give equal outputs and leave equal histories.
pub proof fn law_update_deterministic(
    bank: IirBank,
    history1: Seq<i16>,
    x1: i16,
    history2: Seq<i16>,
    x2: i16,
)
    requires
        history1 == history2,
        x1 == x2,
    ensures
        bank.output(history1, x1) == bank.output(history2, x2),
        bank.next(history1, x1) == bank.next(history2, x2),
{
}

/// The oldest value of the history has no part in an update: histories
/// that agree but for their last slot give equal outputs and leave equal
/// histories.
pub proof fn law_oldest_discarded(bank: IirBank, history1: Seq<i16>, history2: Seq<i16>, x0: i16)
    requires
        history1.drop_last() == history2.drop_last(),
    ensures
        bank.output(history1, x0) == bank.output(history2, x0),
        bank.next(history1, x0) == bank.next(history2, x0),
{
}

/// Two IIR sections in series.
#[derive(Clone, Copy, Debug, PartialEq, Eq)]
pub struct Cascade {
    /// Section that takes the input.
    pub first: IirState,
    /// Section that takes the output of the first.
    pub second: IirState,
}

impl Cascade {
    /// Output of an update of both sections with the bank `bank`.
    pub open spec fn output(&self, bank: IirBank, x0: i16) -> int {
        bank.output(self.second@, bank.output(self.first@, x0) as i16)
    }

    /// Histories that an update of both sections leaves behind: that of the
    /// first section, then that of the second.
    pub open spec fn next(&self, bank: IirBank, x0: i16) -> (Seq<i16>, Seq<i16>) {
        (bank.next(self.first@, x0), bank.next(self.second@, bank.output(self.first@, x0) as i16))
    }

    /// Two histories of zeros.
    pub fn new() -> (c: Self)
        ensures
            c.first@ == seq![0i16, 0i16, 0i16, 0i16, 0i16],
            c.second@ == seq![0i16, 0i16, 0i16, 0i16, 0i16],
    {
        Cascade { first: IirState::new(), second: IirState::new() }
    }

    /// Feeds `x0` through both sections.
    pub fn update(&mut self, bank: &IirBank, x0: i16) -> (y0: i16)
        requires
            bank.wf(),
        ensures
            y0 == old(self).output(*bank, x0),
            final(self).first@ == old(self).next(*bank, x0).0,
            final(self).second@ == old(self).next(*bank, x0).1,
    {
        let mid: i16 = bank.update(&mut self.first, x0);
        bank.update(&mut self.second, mid)
    }
}

} // verus!
