//! Handlers for the two interrupt sources: buffer completion and tick.
//!
//! Each pipeline owns all the state that its handlers touch. The caller
//! reads the peripheral, hands the handler plain values, and afterwards
//! does to the peripheral what the handler asks for. A handler runs to
//! completion: the mode it finds on entry is the mode that the whole buffer
//! is processed under.

use vstd::prelude::*;
use crate::debounce::{event, next_count, Debounce, Press};
use crate::exchange::{BufferId, Claim, Exchange};
use crate::filter::{Cascade, FirBank, IirBank};
use crate::waveform::{fine, samples, Waveform};

verus! {

/// Selects the FIR bank pair and the IIR bank in use.
#[derive(Clone, Copy, Debug, PartialEq, Eq, Structural)]
pub struct Mode {
    /// Index of the FIR bank pair.
    pub fir: usize,
    /// Index of the IIR bank.
    pub iir: usize,
}

impl Mode {
    /// Mode after the press `press`, with `n_fir` FIR bank pairs and `n_iir`
    /// IIR banks to choose from: a short press moves on to the next FIR
    /// pair, a long press to the next IIR bank, both wrapping.
    pub open spec fn switched(self, press: Option<Press>, n_fir: int, n_iir: int) -> Mode {
        match press {
            Some(Press::Short) => Mode { fir: ((self.fir + 1) % n_fir) as usize, iir: self.iir },
            Some(Press::Long) => Mode { fir: self.fir, iir: ((self.iir + 1) % n_iir) as usize },
            None => self,
        }
    }

    /// Applies the press `press` to the mode.
    pub fn switch(&mut self, press: Option<Press>, n_fir: usize, n_iir: usize)
        requires
            old(self).fir < n_fir,
            old(self).iir < n_iir,
        ensures
            *final(self) == old(self).switched(press, n_fir as int, n_iir as int),
            final(self).fir < n_fir,
            final(self).iir < n_iir,
    {
        match press {
            Some(Press::Short) => {
                self.fir = (self.fir + 1) % n_fir;
            },
            Some(Press::Long) => {
                self.iir = (self.iir + 1) % n_iir;
            },
            None => {},
        }
    }
}

/// Interrupt status of a stream, as the caller read it from the peripheral.
#[derive(Clone, Copy, Debug, PartialEq, Eq, Structural)]
pub struct Status {
    /// A buffer completed.
    pub complete: bool,
    /// The peripheral reports an overrun, an underrun or a bus error.
    pub fault: bool,
}

/// What the caller does to the peripheral once a handler has returned.
#[derive(Clone, Copy, Debug, PartialEq, Eq, Structural)]
pub struct Action {
    /// Acknowledge the completion.
    pub acknowledge: bool,
    /// Clear the fault indication and arm the transfer again.
    pub rearm: bool,
}

impl Status {
    /// A completion is acknowledged and a fault is cleared, whatever else
    /// is pending.
    pub open spec fn action(self) -> Action {
        Action { acknowledge: self.complete, rearm: self.fault }
    }

    /// A buffer is processed when one completed and no fault is pending:
    /// the frame that a fault hits is dropped.
    pub open spec fn serves(self) -> bool {
        self.complete && !self.fault
    }
}

/// Buffer contents that a claim refers to.
pub open spec fn claimed<T>(buffer: BufferId, first: Seq<T>, second: Seq<T>) -> Seq<T> {
    match buffer {
        BufferId::First => first,
        BufferId::Second => second,
    }
}

/// Mathematical state of the acquisition pipeline.
pub struct AcquisitionState<const N: usize> {
    /// FIR bank pairs, one bank per output channel.
    pub fir: Seq<[FirBank<N>; 2]>,
    /// IIR banks.
    pub iir: Seq<IirBank>,
    /// The mode in force.
    pub mode: Mode,
    /// Histories of the IIR sections: first and second section of the
    /// first channel, then first and second section of the second channel.
    pub histories: Seq<Seq<i16>>,
    /// Ownership record of the input stream.
    pub exchange: Exchange,
    /// The debounce classifier.
    pub debounce: Debounce,
}

impl<const N: usize> AcquisitionState<N> {
    /// There are banks of both kinds, all well formed, the mode selects
    /// existing ones, and the classifier is well formed.
    pub open spec fn wf(self) -> bool {
        &&& 0 < self.fir.len()
        &&& 0 < self.iir.len()
        &&& self.mode.fir < self.fir.len()
        &&& self.mode.iir < self.iir.len()
        &&& forall|i: int|
            0 <= i < self.fir.len() ==> (#[trigger] self.fir[i])@[0].wf() && self.fir[i]@[1].wf()
        &&& forall|i: int| 0 <= i < self.iir.len() ==> (#[trigger] self.iir[i]).wf()
        &&& self.histories.len() == 4
        &&& self.debounce.wf()
    }

    /// The IIR bank that the mode selects.
    pub open spec fn bank(self) -> IirBank {
        self.iir[self.mode.iir as int]
    }

    /// Output of the FIR stage of channel `c` for the buffer `buffer`.
    pub open spec fn filtered(self, c: int, buffer: Seq<i16>) -> i16 {
        self.fir[self.mode.fir as int]@[c].output(buffer) as i16
    }

    /// Output of the first IIR section of channel `c`.
    pub open spec fn intermediate(self, c: int, buffer: Seq<i16>) -> i16 {
        self.bank().output(self.histories[2 * c], self.filtered(c, buffer)) as i16
    }

    /// Output sample of channel `c` for the buffer `buffer`.
    pub open spec fn output(self, c: int, buffer: Seq<i16>) -> i16 {
        self.bank().output(self.histories[2 * c + 1], self.intermediate(c, buffer)) as i16
    }

    /// Histories that filtering the buffer `buffer` leaves behind.
    pub open spec fn histories_after(self, buffer: Seq<i16>) -> Seq<Seq<i16>> {
        seq![
            self.bank().next(self.histories[0], self.filtered(0, buffer)),
            self.bank().next(self.histories[1], self.intermediate(0, buffer)),
            self.bank().next(self.histories[2], self.filtered(1, buffer)),
            self.bank().next(self.histories[3], self.intermediate(1, buffer)),
        ]
    }

    /// State after the buffer `buffer` was filtered.
    pub open spec fn after_filter(self, buffer: Seq<i16>) -> AcquisitionState<N> {
        AcquisitionState { histories: self.histories_after(buffer), ..self }
    }

    /// State after a completion was served while the peripheral held
    /// `active`, with the buffers holding `first` and `second`.
    pub open spec fn after_buffer(
        self,
        active: BufferId,
        first: Seq<i16>,
        second: Seq<i16>,
    ) -> AcquisitionState<N> {
        AcquisitionState {
            exchange: self.exchange.served(active),
            ..self.after_filter(claimed(active.opposite(), first, second))
        }
    }

    /// State after a transfer fault.
    pub open spec fn after_fault(self) -> AcquisitionState<N> {
        AcquisitionState { exchange: self.exchange.faulted(), ..self }
    }

    /// Press that a tick with the level `pressed` reports.
    pub open spec fn press(self, pressed: bool) -> Option<Press> {
        event(
            self.debounce.t_short as int,
            self.debounce.t_long as int,
            self.debounce.t as int,
            pressed,
        )
    }

    /// State after a tick with the level `pressed`.
    pub open spec fn after_tick(self, pressed: bool) -> AcquisitionState<N> {
        AcquisitionState {
            mode: self.mode.switched(
                self.press(pressed),
                self.fir.len() as int,
                self.iir.len() as int,
            ),
            debounce: Debounce {
                t: next_count(
                    self.debounce.t_short as int,
                    self.debounce.t_long as int,
                    self.debounce.t as int,
                    pressed,
                ) as u32,
                ..self.debounce
            },
            ..self
        }
    }
}

/// Says whether there are banks of both kinds and all are well formed.
pub fn banks_wf<const N: usize>(fir: &Vec<[FirBank<N>; 2]>, iir: &Vec<IirBank>) -> (ok: bool)
    ensures
        ok <==> {
            &&& 0 < fir@.len()
            &&& 0 < iir@.len()
            &&& forall|i: int|
                0 <= i < fir@.len() ==> (#[trigger] fir@[i])@[0].wf() && fir@[i]@[1].wf()
            &&& forall|i: int| 0 <= i < iir@.len() ==> (#[trigger] iir@[i]).wf()
        },
{
    if fir.len() == 0 || iir.len() == 0 {
        return false;
    }
    let mut i: usize = 0;
    while i < fir.len()
        invariant
            i <= fir@.len(),
            forall|j: int| 0 <= j < i ==> (#[trigger] fir@[j])@[0].wf() && fir@[j]@[1].wf(),
        decreases fir@.len() - i,
    {
        if !fir[i][0].is_wf() || !fir[i][1].is_wf() {
            return false;
        }
        i = i + 1;
    }
    let mut k: usize = 0;
    while k < iir.len()
        invariant
            k <= iir@.len(),
            forall|j: int| 0 <= j < k ==> (#[trigger] iir@[j]).wf(),
        decreases iir@.len() - k,
    {
        if !iir[k].is_wf() {
            return false;
        }
        k = k + 1;
    }
    true
}

/// What the acquisition pipeline hands to its output for one buffer.
#[derive(Clone, Copy, Debug, PartialEq, Eq)]
pub struct Frame {
    /// The buffer that was processed and whether it was stale.
    pub claim: Claim,
    /// One output sample per channel.
    pub outputs: [i16; 2],
}

/// Acquisition pipeline: a buffer of input samples is weighed by a FIR bank
/// per channel and smoothed by two IIR sections per channel.
#[derive(Debug)]
pub struct Acquisition<const N: usize> {
    /// FIR bank pairs, one bank per output channel.
    pub fir: Vec<[FirBank<N>; 2]>,
    /// IIR banks.
    pub iir: Vec<IirBank>,
    /// The mode in force; written by the tick handler only.
    pub mode: Mode,
    /// IIR sections of the first channel.
    pub channel0: Cascade,
    /// IIR sections of the second channel.
    pub channel1: Cascade,
    /// Ownership record of the input stream.
    pub exchange: Exchange,
    /// The debounce classifier.
    pub debounce: Debounce,
}

impl<const N: usize> View for Acquisition<N> {
    type V = AcquisitionState<N>;

    open spec fn view(&self) -> AcquisitionState<N> {
        AcquisitionState {
            fir: self.fir@,
            iir: self.iir@,
            mode: self.mode,
            histories: seq![
                self.channel0.first@,
                self.channel0.second@,
                self.channel1.first@,
                self.channel1.second@,
            ],
            exchange: self.exchange,
            debounce: self.debounce,
        }
    }
}

impl<const N: usize> Acquisition<N> {
    /// A pipeline at rest with the given banks and classifier, in the mode
    /// that selects the first bank of each kind; `None` where a kind has no
    /// bank, a bank is not well formed, or the classifier is not.
    pub fn new(fir: Vec<[FirBank<N>; 2]>, iir: Vec<IirBank>, debounce: Debounce) -> (r: Option<
        Self,
    >)
        ensures
            r.is_some() <==> {
                &&& 0 < fir@.len()
                &&& 0 < iir@.len()
                &&& forall|i: int|
                    0 <= i < fir@.len() ==> (#[trigger] fir@[i])@[0].wf() && fir@[i]@[1].wf()
                &&& forall|i: int| 0 <= i < iir@.len() ==> (#[trigger] iir@[i]).wf()
                &&& debounce.wf()
            },
            r matches Some(a) ==> {
                &&& a@.wf()
                &&& a.fir@ == fir@
                &&& a.iir@ == iir@
                &&& a.debounce == debounce
                &&& a.mode == (Mode { fir: 0, iir: 0 })
                &&& a.exchange.hardware == BufferId::First
                &&& a.exchange.dropped == 0
                &&& forall|k: int|
                    0 <= k < 4 ==> #[trigger] a@.histories[k] == seq![0i16, 0i16, 0i16, 0i16, 0i16]
            },
    {
        if !banks_wf(&fir, &iir) || !debounce.is_wf() {
            return None;
        }
        Some(
            Acquisition {
                fir,
                iir,
                mode: Mode { fir: 0, iir: 0 },
                channel0: Cascade::new(),
                channel1: Cascade::new(),
                exchange: Exchange::new(),
                debounce,
            },
        )
    }

    /// Says whether the state is well formed.
    pub fn is_wf(&self) -> (ok: bool)
        ensures
            ok == self@.wf(),
    {
        banks_wf(&self.fir, &self.iir) && self.mode.fir < self.fir.len() && self.mode.iir
            < self.iir.len() && self.debounce.is_wf()
    }

    /// Filters one buffer under the mode in force on entry: per channel,
    /// the FIR bank weighs the buffer into one sample, which then passes
    /// through the two IIR sections.
    pub fn filter(&mut self, buffer: &[i16; N]) -> (outputs: [i16; 2])
        requires
            old(self)@.wf(),
        ensures
            outputs@[0] == old(self)@.output(0, buffer@),
            outputs@[1] == old(self)@.output(1, buffer@),
            final(self)@ == old(self)@.after_filter(buffer@),
            final(self)@.wf(),
    {
        let f0: i16 = self.fir[self.mode.fir][0].apply(buffer);
        let f1: i16 = self.fir[self.mode.fir][1].apply(buffer);
        let y0: i16 = self.channel0.update(&self.iir[self.mode.iir], f0);
        let y1: i16 = self.channel1.update(&self.iir[self.mode.iir], f1);
        assert(self@.histories =~= old(self)@.histories_after(buffer@));
        [y0, y1]
    }

    /// Serves a completion of the input stream. `active` is the buffer that
    /// the peripheral reports as the one it fills now; `first` and `second`
    /// are the two buffers. The buffer that software owns is filtered.
    pub fn on_buffer(&mut self, active: BufferId, first: &[i16; N], second: &[i16; N]) -> (frame:
        Frame)
        requires
            old(self)@.wf(),
        ensures
            frame.claim == old(self).exchange.claim(active),
            frame.outputs@[0] == old(self)@.output(0, claimed(frame.claim.buffer, first@, second@)),
            frame.outputs@[1] == old(self)@.output(1, claimed(frame.claim.buffer, first@, second@)),
            final(self)@ == old(self)@.after_buffer(active, first@, second@),
            final(self)@.wf(),
    {
        let claim: Claim = self.exchange.complete(active);
        let outputs: [i16; 2] = match claim.buffer {
            BufferId::First => self.filter(first),
            BufferId::Second => self.filter(second),
        };
        Frame { claim, outputs }
    }

    /// Serves an interrupt of the input stream with the status `status`.
    /// A fault drops the frame in flight; otherwise a completion is served
    /// as by `on_buffer`. The action tells the caller what to acknowledge.
    pub fn on_interrupt(
        &mut self,
        status: Status,
        active: BufferId,
        first: &[i16; N],
        second: &[i16; N],
    ) -> (r: (Action, Option<Frame>))
        requires
            old(self)@.wf(),
        ensures
            r.0 == status.action(),
            r.1.is_some() <==> status.serves(),
            r.1 matches Some(frame) ==> {
                &&& frame.claim == old(self).exchange.claim(active)
                &&& frame.outputs@[0] == old(self)@.output(
                    0,
                    claimed(frame.claim.buffer, first@, second@),
                )
                &&& frame.outputs@[1] == old(self)@.output(
                    1,
                    claimed(frame.claim.buffer, first@, second@),
                )
            },
            final(self)@ == (if status.fault {
                old(self)@.after_fault()
            } else if status.complete {
                old(self)@.after_buffer(active, first@, second@)
            } else {
                old(self)@
            }),
            final(self)@.wf(),
    {
        let action = Action { acknowledge: status.complete, rearm: status.fault };
        if status.fault {
            self.exchange.fault();
            assert(self@.histories =~= old(self)@.histories);
            (action, None)
        } else if status.complete {
            let frame: Frame = self.on_buffer(active, first, second);
            (action, Some(frame))
        } else {
            assert(self@.histories =~= old(self)@.histories);
            (action, None)
        }
    }

    /// Serves a tick with the input level `pressed`: the classifier
    /// advances, and a press that it reports switches the mode.
    pub fn on_tick(&mut self, pressed: bool) -> (e: Option<Press>)
        requires
            old(self)@.wf(),
        ensures
            e == old(self)@.press(pressed),
            final(self)@ == old(self)@.after_tick(pressed),
            final(self)@.wf(),
    {
        let e: Option<Press> = self.debounce.tick(pressed);
        self.mode.switch(e, self.fir.len(), self.iir.len());
        assert(self@.histories =~= old(self)@.histories);
        e
    }
}

/// Generation pipeline: every buffer that the peripheral has drained is
/// rendered anew from the waveform table.
#[derive(Clone, Copy, Debug, PartialEq, Eq)]
pub struct Generation {
    /// Ownership record of the output stream.
    pub exchange: Exchange,
    /// The waveform generator.
    pub waveform: Waveform,
}

impl Generation {
    /// The waveform generator is well formed.
    pub open spec fn wf(&self) -> bool {
        self.waveform.wf()
    }

    /// A pipeline that has not rendered a buffer yet.
    pub fn new() -> (g: Generation)
        ensures
            g.wf(),
            g.exchange.hardware == BufferId::First,
            g.exchange.dropped == 0,
            g.waveform.index == 0,
            g.waveform.dsm@ == crate::modulator::ModulatorState::initial(),
    {
        Generation { exchange: Exchange::new(), waveform: Waveform::new() }
    }

    /// Says whether `wf` holds.
    pub fn is_wf(&self) -> (ok: bool)
        ensures
            ok == self.wf(),
    {
        self.waveform.is_wf()
    }

    /// Serves a completion of the output stream. `active` is the buffer
    /// that the peripheral reports as the one it drains now; `first` and
    /// `second` are the two buffers. The buffer that software owns is
    /// rendered from the current table entry; the other one is left alone.
    pub fn on_buffer(&mut self, active: BufferId, first: &mut [u16], second: &mut [u16]) -> (claim:
        Claim)
        requires
            old(self).wf(),
        ensures
            claim == old(self).exchange.claim(active),
            final(self).exchange == old(self).exchange.served(active),
            final(first)@.len() == old(first)@.len(),
            final(second)@.len() == old(second)@.len(),
            claimed(claim.buffer, final(first)@, final(second)@).map_values(|v: u16| v as int)
                == samples(
                old(self).waveform.dsm@,
                old(self).waveform.magnitude(),
                claimed(claim.buffer, old(first)@, old(second)@).len(),
            ),
            claimed(active, final(first)@, final(second)@) == claimed(
                active,
                old(first)@,
                old(second)@,
            ),
            final(self).waveform.dsm@ == old(self).waveform.dsm@.run(
                fine(old(self).waveform.magnitude()),
                claimed(claim.buffer, old(first)@, old(second)@).len(),
            ),
            final(self).waveform.index == (old(self).waveform.index + 1) % 36,
            final(self).wf(),
    {
        let claim: Claim = self.exchange.complete(active);
        match claim.buffer {
            BufferId::First => {
                self.waveform.render(first);
            },
            BufferId::Second => {
                self.waveform.render(second);
            },
        }
        claim
    }

    /// Serves an interrupt of the output stream with the status `status`.
    /// A fault drops the frame in flight and leaves both buffers and the
    /// generator alone; otherwise a completion is served as by `on_buffer`.
    /// The action tells the caller what to acknowledge.
    pub fn on_interrupt(
        &mut self,
        status: Status,
        active: BufferId,
        first: &mut [u16],
        second: &mut [u16],
    ) -> (r: (Action, Option<Claim>))
        requires
            old(self).wf(),
        ensures
            r.0 == status.action(),
            r.1.is_some() <==> status.serves(),
            r.1 matches Some(claim) ==> {
                &&& claim == old(self).exchange.claim(active)
                &&& final(self).exchange == old(self).exchange.served(active)
                &&& claimed(claim.buffer, final(first)@, final(second)@).map_values(
                    |v: u16| v as int,
                ) == samples(
                    old(self).waveform.dsm@,
                    old(self).waveform.magnitude(),
                    claimed(claim.buffer, old(first)@, old(second)@).len(),
                )
                &&& claimed(active, final(first)@, final(second)@) == claimed(
                    active,
                    old(first)@,
                    old(second)@,
                )
                &&& final(self).waveform.dsm@ == old(self).waveform.dsm@.run(
                    fine(old(self).waveform.magnitude()),
                    claimed(claim.buffer, old(first)@, old(second)@).len(),
                )
                &&& final(self).waveform.index == (old(self).waveform.index + 1) % 36
            },
            r.1 is None ==> {
                &&& final(first)@ == old(first)@
                &&& final(second)@ == old(second)@
                &&& final(self).waveform == old(self).waveform
                &&& final(self).exchange == (if status.fault {
                    old(self).exchange.faulted()
                } else {
                    old(self).exchange
                })
            },
            final(first)@.len() == old(first)@.len(),
            final(second)@.len() == old(second)@.len(),
            final(self).wf(),
    {
        let action = Action { acknowledge: status.complete, rearm: status.fault };
        if status.fault {
            self.exchange.fault();
            (action, None)
        } else if status.complete {
            let claim: Claim = self.on_buffer(active, first, second);
            (action, Some(claim))
        } else {
            (action, None)
        }
    }
}

/// A mode switch between two buffer completions leaves the first buffer's
/// results alone and governs the second buffer: serving a buffer does not
/// change the mode; a tick changes nothing but the mode and the classifier;
/// and the buffer served after the tick is filtered with the banks that the
/// switched mode selects, on the histories that the first buffer left.
pub proof fn law_mode_switch_scoping<const N: usize>(
    s: AcquisitionState<N>,
    active: BufferId,
    first: Seq<i16>,
    second: Seq<i16>,
    pressed: bool,
    buffer: Seq<i16>,
)
    requires
        s.wf(),
    ensures
        s.after_buffer(active, first, second).mode == s.mode,
        s.after_buffer(active, first, second).after_tick(pressed).histories == s.after_buffer(
            active,
            first,
            second,
        ).histories,
        s.after_buffer(active, first, second).after_tick(pressed).exchange == s.after_buffer(
            active,
            first,
            second,
        ).exchange,
        s.after_buffer(active, first, second).after_tick(pressed).mode == s.mode.switched(
            s.press(pressed),
            s.fir.len() as int,
            s.iir.len() as int,
        ),
        s.press(pressed) is None ==> forall|c: int|
            0 <= c < 2 ==> #[trigger] s.after_buffer(active, first, second).after_tick(
                pressed,
            ).output(c, buffer) == s.after_buffer(active, first, second).output(c, buffer),
        forall|c: int|
            0 <= c < 2 ==> #[trigger] s.after_buffer(active, first, second).after_tick(
                pressed,
            ).output(c, buffer) == (AcquisitionState {
                mode: s.mode.switched(s.press(pressed), s.fir.len() as int, s.iir.len() as int),
                ..s.after_buffer(active, first, second)
            }).output(c, buffer),
{
}

} // verus!
