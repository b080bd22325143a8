use stream_dsp::debounce::{Debounce, Press};
use stream_dsp::dispatch::{
    banks_wf, Acquisition, Action, Frame, Generation, Mode, Status,
};
use stream_dsp::exchange::{BufferId, Claim};
use stream_dsp::filter::{FirBank, IirBank};
use stream_dsp::modulator::DDSM3;
use stream_dsp::waveform::Waveform;

const SINE: [i16; 16] = [
    0, 1247, 2304, 3011, 3259, 3011, 2304, 1247, 0, -1247, -2304, -3011, -3259, -3011, -2304,
    -1247,
];

const COSINE: [i16; 16] = [
    3259, 3011, 2304, 1247, 0, -1247, -2304, -3011, -3259, -3011, -2304, -1247, 0, 1247, 2304,
    3011,
];

const QUARTER: [i16; 16] =
    [0, 311, 576, 752, 814, 752, 576, 311, 0, -312, -576, -753, -815, -753, -576, -312];

const WEAK: [i16; 16] =
    [0, 155, 288, 376, 407, 376, 288, 155, 0, -156, -288, -377, -408, -377, -288, -156];

const STEPS: [i16; 16] =
    [-100, 0, 100, 200, -100, 0, 100, 200, -100, 0, 100, 200, -100, 0, 100, 200];

const RAMP: [i16; 16] = [-100, -63, -26, 11, 48, 85, -78, -41, -4, 33, 70, -93, -56, -19, 18, 55];

fn pipeline() -> Acquisition<16> {
    let fir = vec![
        [FirBank::<16>::fundamental(), FirBank::<16>::new(COSINE, 11, 0).unwrap()],
        [FirBank::<16>::new(QUARTER, 9, 5).unwrap(), FirBank::<16>::new(SINE, 12, -7).unwrap()],
    ];
    let iir = vec![
        IirBank::new([16384, 0, 0, 0, 0], 14).unwrap(),
        IirBank::new([2048, 4096, 2048, 8192, -4096], 14).unwrap(),
    ];
    Acquisition::new(fir, iir, Debounce::new(2, 5).unwrap()).unwrap()
}

fn serve(a: &mut Acquisition<16>, buffer: &[i16; 16]) -> [i16; 2] {
    let active = a.exchange.hardware_owned().other();
    let unused = [0i16; 16];
    let frame = match active {
        BufferId::Second => a.on_buffer(active, buffer, &unused),
        BufferId::First => a.on_buffer(active, &unused, buffer),
    };
    assert!(!frame.claim.stale);
    frame.outputs
}

fn short_press(a: &mut Acquisition<16>) {
    assert_eq!(a.on_tick(true), None);
    assert_eq!(a.on_tick(true), None);
    assert_eq!(a.on_tick(false), Some(Press::Short));
    assert_eq!(a.on_tick(false), None);
}

fn long_press(a: &mut Acquisition<16>) {
    for _ in 0..5 {
        assert_eq!(a.on_tick(true), None);
    }
    assert_eq!(a.on_tick(true), Some(Press::Long));
    assert_eq!(a.on_tick(true), None);
    assert_eq!(a.on_tick(false), None);
    assert_eq!(a.on_tick(false), None);
}

#[test]
fn switch_moves_to_the_next_bank_and_wraps() {
    let mut mode = Mode { fir: 0, iir: 0 };
    mode.switch(Some(Press::Short), 3, 2);
    assert_eq!(mode, Mode { fir: 1, iir: 0 });
    mode.switch(Some(Press::Short), 3, 2);
    mode.switch(Some(Press::Short), 3, 2);
    assert_eq!(mode, Mode { fir: 0, iir: 0 });
    mode.switch(Some(Press::Long), 3, 2);
    assert_eq!(mode, Mode { fir: 0, iir: 1 });
    mode.switch(Some(Press::Long), 3, 2);
    assert_eq!(mode, Mode { fir: 0, iir: 0 });
    mode.switch(None, 3, 2);
    assert_eq!(mode, Mode { fir: 0, iir: 0 });
}

#[test]
fn new_pipeline_needs_banks_of_both_kinds() {
    let debounce = Debounce::new(2, 5).unwrap();
    let fir = vec![[FirBank::<16>::fundamental(), FirBank::<16>::fundamental()]];
    let iir = vec![IirBank::new([16384, 0, 0, 0, 0], 14).unwrap()];
    assert!(Acquisition::new(fir.clone(), iir.clone(), debounce).is_some());
    assert!(Acquisition::<16>::new(Vec::new(), iir.clone(), debounce).is_none());
    assert!(Acquisition::new(fir.clone(), Vec::new(), debounce).is_none());
}

#[test]
fn new_pipeline_needs_well_formed_parts() {
    let debounce = Debounce::new(2, 5).unwrap();
    let good_fir = [FirBank::<16>::fundamental(), FirBank::<16>::fundamental()];
    let bad_first = [FirBank { taps: SINE, shift: 32, offset: 0 }, FirBank::<16>::fundamental()];
    let bad_second = [FirBank::<16>::fundamental(), FirBank { taps: SINE, shift: 32, offset: 0 }];
    let good_iir = IirBank::new([16384, 0, 0, 0, 0], 14).unwrap();
    let bad_iir = IirBank { ba: [16384, 0, 0, 0, 0], shift: 32 };
    assert!(Acquisition::new(vec![good_fir, bad_first], vec![good_iir], debounce).is_none());
    assert!(Acquisition::new(vec![bad_second], vec![good_iir], debounce).is_none());
    assert!(Acquisition::new(vec![good_fir], vec![good_iir, bad_iir], debounce).is_none());
    let bad_debounce = Debounce { t_short: 5, t_long: 5, t: 0 };
    assert!(Acquisition::new(vec![good_fir], vec![good_iir], bad_debounce).is_none());
    let a = Acquisition::new(vec![good_fir], vec![good_iir], debounce).unwrap();
    assert_eq!(a.mode, Mode { fir: 0, iir: 0 });
    assert_eq!(a.exchange.hardware_owned(), BufferId::First);
    assert_eq!(a.channel0.first.xy, [0; 5]);
    assert_eq!(a.channel1.second.xy, [0; 5]);
}

#[test]
fn buffer_is_taken_from_the_side_that_software_owns() {
    let mut a = pipeline();
    let frame = a.on_buffer(BufferId::Second, &WEAK, &STEPS);
    assert_eq!(
        frame,
        Frame { claim: Claim { buffer: BufferId::First, stale: false }, outputs: [5185, 0] }
    );
    let mut b = pipeline();
    let frame = b.on_buffer(BufferId::First, &STEPS, &WEAK);
    assert_eq!(
        frame,
        Frame { claim: Claim { buffer: BufferId::Second, stale: true }, outputs: [5185, 0] }
    );
    assert_eq!(b.exchange.dropped, 1);
}

#[test]
fn pipeline_follows_the_mode() {
    let mut a = pipeline();
    assert_eq!(serve(&mut a, &WEAK), [5185, 0]);
    assert_eq!(serve(&mut a, &STEPS), [0, 0]);
    assert_eq!(a.channel0.first.xy, [0, 5185, 0, 5185, 0]);
    short_press(&mut a);
    assert_eq!(a.mode, Mode { fir: 1, iir: 0 });
    assert_eq!(serve(&mut a, &WEAK), [5189, 2585]);
    assert_eq!(serve(&mut a, &RAMP), [143, 62]);
    long_press(&mut a);
    assert_eq!(a.mode, Mode { fir: 1, iir: 1 });
    assert_eq!(serve(&mut a, &WEAK), [-528, -271]);
    assert_eq!(serve(&mut a, &WEAK), [-8, -9]);
    assert_eq!(serve(&mut a, &RAMP), [1002, 497]);
    assert_eq!(a.channel0.first.xy, [143, 5189, 2927, 1981, 107]);
    assert_eq!(a.channel0.second.xy, [2927, 1981, 1002, -8, -528]);
    assert_eq!(a.channel1.first.xy, [62, 2585, 1457, 984, 46]);
    assert_eq!(a.channel1.second.xy, [1457, 984, 497, -9, -271]);
    short_press(&mut a);
    assert_eq!(a.mode, Mode { fir: 0, iir: 1 });
    assert_eq!(serve(&mut a, &WEAK), [1769, 840]);
    assert_eq!(serve(&mut a, &WEAK), [1872, 689]);
    assert_eq!(a.exchange.dropped, 0);
}

#[test]
fn mode_switch_leaves_the_served_buffer_alone() {
    let mut switched = pipeline();
    let mut steady = pipeline();
    let before_switched = serve(&mut switched, &WEAK);
    let before_steady = serve(&mut steady, &WEAK);
    short_press(&mut switched);
    // What the first buffer gave and left behind does not depend on the
    // switch that followed.
    assert_eq!(before_switched, before_steady);
    assert_eq!(switched.channel0, steady.channel0);
    assert_eq!(switched.channel1, steady.channel1);
    assert_eq!(switched.exchange, steady.exchange);
    // The next buffer is filtered under the new mode.
    assert_eq!(serve(&mut switched, &WEAK), [5189, 2585]);
    assert_eq!(serve(&mut steady, &WEAK), [5185, 0]);
}

#[test]
fn tick_without_press_changes_no_mode() {
    let mut a = pipeline();
    assert_eq!(a.on_tick(false), None);
    assert_eq!(a.on_tick(true), None);
    assert_eq!(a.on_tick(false), None);
    assert_eq!(a.mode, Mode { fir: 0, iir: 0 });
    assert_eq!(a.debounce.t, 0);
}

#[test]
fn buffer_does_not_touch_mode_or_classifier() {
    let mut a = pipeline();
    a.on_tick(true);
    let debounce = a.debounce;
    serve(&mut a, &RAMP);
    assert_eq!(a.mode, Mode { fir: 0, iir: 0 });
    assert_eq!(a.debounce, debounce);
}

#[test]
fn generation_renders_into_the_buffer_that_software_owns() {
    let mut g = Generation::new();
    let mut first = [0u16; 256];
    let mut second = [7u16; 256];
    let claim = g.on_buffer(BufferId::Second, &mut first, &mut second);
    assert_eq!(claim, Claim { buffer: BufferId::First, stale: false });
    assert_eq!(first[..8], [250, 253, 249, 252, 250, 252, 249, 253]);
    assert_eq!(second, [7u16; 256]);
    assert_eq!(g.waveform.index, 1);
    let claim = g.on_buffer(BufferId::First, &mut first, &mut second);
    assert_eq!(claim, Claim { buffer: BufferId::Second, stale: false });
    assert_eq!(second[..8], [249, 250, 247, 251, 249, 248, 249, 249]);
    assert_eq!(first[..8], [250, 253, 249, 252, 250, 252, 249, 253]);
    assert_eq!(g.waveform.index, 2);
    assert_eq!(g.waveform.dsm, DDSM3 { lfsr: 6112, a: [42229, 19186, 9511], c: [1, 2] });
}

#[test]
fn generation_matches_the_waveform_generator() {
    let mut g = Generation::new();
    let mut w = Waveform::new();
    let mut first = [0u16; 64];
    let mut second = [0u16; 64];
    let mut expected = [0u16; 64];
    let mut active = BufferId::First;
    for _ in 0..80 {
        active = active.other();
        let claim = g.on_buffer(active, &mut first, &mut second);
        w.render(&mut expected);
        match claim.buffer {
            BufferId::First => assert_eq!(first, expected),
            BufferId::Second => assert_eq!(second, expected),
        }
        assert_eq!(g.waveform, w);
    }
    assert_eq!(g.exchange.dropped, 0);
    assert_eq!(g.waveform.index, 80 % 36);
}

#[test]
fn generation_reports_a_missed_completion() {
    let mut g = Generation::new();
    let mut first = [0u16; 8];
    let mut second = [0u16; 8];
    assert!(!g.on_buffer(BufferId::Second, &mut first, &mut second).stale);
    let claim = g.on_buffer(BufferId::Second, &mut first, &mut second);
    assert_eq!(claim, Claim { buffer: BufferId::First, stale: true });
    assert_eq!(g.exchange.dropped, 1);
    assert_eq!(g.waveform.index, 2);
    assert_eq!(second, [0u16; 8]);
}

#[test]
fn filter_runs_the_engine_without_touching_ownership() {
    let mut a = pipeline();
    let mut b = pipeline();
    assert_eq!(a.filter(&WEAK), [5185, 0]);
    assert_eq!(serve(&mut b, &WEAK), [5185, 0]);
    assert_eq!(a.channel0, b.channel0);
    assert_eq!(a.channel1, b.channel1);
    assert_eq!(a.exchange.hardware_owned(), BufferId::First);
    assert_eq!(b.exchange.hardware_owned(), BufferId::Second);
}

#[test]
fn acquisition_interrupt_serves_a_completion() {
    let mut a = pipeline();
    let status = Status { complete: true, fault: false };
    let (action, frame) = a.on_interrupt(status, BufferId::Second, &WEAK, &STEPS);
    assert_eq!(action, Action { acknowledge: true, rearm: false });
    assert_eq!(
        frame,
        Some(Frame { claim: Claim { buffer: BufferId::First, stale: false }, outputs: [5185, 0] })
    );
    assert_eq!(a.exchange.hardware_owned(), BufferId::Second);
}

#[test]
fn acquisition_interrupt_drops_the_frame_on_a_fault() {
    let mut a = pipeline();
    let before = pipeline();
    let status = Status { complete: true, fault: true };
    let (action, frame) = a.on_interrupt(status, BufferId::Second, &WEAK, &STEPS);
    assert_eq!(action, Action { acknowledge: true, rearm: true });
    assert_eq!(frame, None);
    assert_eq!(a.exchange.dropped, 1);
    assert_eq!(a.exchange.hardware_owned(), BufferId::First);
    assert_eq!(a.channel0, before.channel0);
    assert_eq!(a.channel1, before.channel1);
    assert_eq!(a.mode, before.mode);
    let status = Status { complete: false, fault: true };
    let (action, frame) = a.on_interrupt(status, BufferId::Second, &WEAK, &STEPS);
    assert_eq!(action, Action { acknowledge: false, rearm: true });
    assert_eq!(frame, None);
    assert_eq!(a.exchange.dropped, 2);
}

#[test]
fn acquisition_interrupt_without_cause_does_nothing() {
    let mut a = pipeline();
    let status = Status { complete: false, fault: false };
    let (action, frame) = a.on_interrupt(status, BufferId::Second, &WEAK, &STEPS);
    assert_eq!(action, Action { acknowledge: false, rearm: false });
    assert_eq!(frame, None);
    assert_eq!(a.exchange.dropped, 0);
    assert_eq!(a.exchange.hardware_owned(), BufferId::First);
    assert_eq!(a.channel0.first.xy, [0; 5]);
}

#[test]
fn generation_interrupt_serves_a_completion() {
    let mut g = Generation::new();
    assert!(g.is_wf());
    let mut first = [0u16; 16];
    let mut second = [7u16; 16];
    let status = Status { complete: true, fault: false };
    let (action, claim) = g.on_interrupt(status, BufferId::Second, &mut first, &mut second);
    assert_eq!(action, Action { acknowledge: true, rearm: false });
    assert_eq!(claim, Some(Claim { buffer: BufferId::First, stale: false }));
    assert_eq!(first[..8], [250, 253, 249, 252, 250, 252, 249, 253]);
    assert_eq!(second, [7u16; 16]);
    assert_eq!(g.waveform.index, 1);
}

#[test]
fn generation_interrupt_drops_the_frame_on_a_fault() {
    let mut g = Generation::new();
    let mut first = [3u16; 16];
    let mut second = [7u16; 16];
    let status = Status { complete: true, fault: true };
    let (action, claim) = g.on_interrupt(status, BufferId::Second, &mut first, &mut second);
    assert_eq!(action, Action { acknowledge: true, rearm: true });
    assert_eq!(claim, None);
    assert_eq!(first, [3u16; 16]);
    assert_eq!(second, [7u16; 16]);
    assert_eq!(g.waveform, Waveform::new());
    assert_eq!(g.exchange.dropped, 1);
    assert_eq!(g.exchange.hardware_owned(), BufferId::First);
}

#[test]
fn generation_interrupt_without_cause_does_nothing() {
    let mut g = Generation::new();
    let mut first = [3u16; 16];
    let mut second = [7u16; 16];
    let status = Status { complete: false, fault: false };
    let (action, claim) = g.on_interrupt(status, BufferId::Second, &mut first, &mut second);
    assert_eq!(action, Action { acknowledge: false, rearm: false });
    assert_eq!(claim, None);
    assert_eq!(first, [3u16; 16]);
    assert_eq!(g, Generation::new());
}

#[test]
fn is_wf_follows_banks_mode_and_classifier() {
    let mut a = pipeline();
    assert!(a.is_wf());
    a.mode.fir = 2;
    assert!(!a.is_wf());
    a.mode.fir = 1;
    a.mode.iir = 2;
    assert!(!a.is_wf());
    a.mode.iir = 1;
    assert!(a.is_wf());
    a.debounce.t = 7;
    assert!(!a.is_wf());
    a.debounce.t = 6;
    a.iir[1].shift = 32;
    assert!(!a.is_wf());
}

#[test]
fn banks_wf_needs_every_bank_well_formed() {
    let good = [FirBank::<16>::fundamental(), FirBank::<16>::fundamental()];
    let bad = [FirBank::<16>::fundamental(), FirBank { taps: SINE, shift: 40, offset: 0 }];
    let iir = vec![IirBank::new([16384, 0, 0, 0, 0], 14).unwrap()];
    assert!(banks_wf(&vec![good], &iir));
    assert!(!banks_wf(&vec![good, bad], &iir));
    assert!(!banks_wf(&vec![good], &Vec::new()));
    assert!(!banks_wf::<16>(&Vec::new(), &iir));
}
