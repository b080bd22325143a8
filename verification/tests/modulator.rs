use stream_dsp::modulator::DDSM3;
use stream_dsp::period::PERIOD;

#[test]
fn new_modulator_is_in_the_initial_state() {
    let dsm = DDSM3::new();
    assert_eq!(dsm, DDSM3 { lfsr: 1, a: [0, 0, 0], c: [0, 0] });
    assert!(dsm.is_wf());
}

#[test]
fn first_step_from_the_initial_state() {
    let mut dsm = DDSM3::new();
    let out = dsm.process(0xe147);
    assert_eq!(out, 0);
    assert_eq!(dsm, DDSM3 { lfsr: 2, a: [0xe147, 0xe147, 0xe147], c: [0, 0] });
}

#[test]
fn first_eight_steps_from_the_initial_state() {
    let mut dsm = DDSM3::new();
    let expected: [i8; 8] = [0, 3, -1, 2, 0, 2, -1, 3];
    for e in expected {
        assert_eq!(dsm.process(0xe147), e);
    }
    assert_eq!(dsm, DDSM3 { lfsr: 273, a: [0xa36, 0xadf6, 0x9938], c: [1, 1] });
}

#[test]
fn register_follows_the_feedback_taps() {
    let mut dsm = DDSM3::new();
    let expected: [u16; 20] = [
        2, 4, 8, 17, 34, 68, 136, 273, 546, 1092, 2184, 4369, 8739, 17478, 34957, 4378, 8756,
        17512, 35024, 4513,
    ];
    for e in expected {
        dsm.process(0);
        assert_eq!(dsm.lfsr, e);
    }
}

#[test]
fn register_visits_every_nonzero_value_once() {
    let mut dsm = DDSM3::new();
    let mut seen = vec![false; 65536];
    assert_eq!(PERIOD, 65535);
    for _ in 0..PERIOD {
        assert!(dsm.lfsr != 0);
        assert!(!seen[dsm.lfsr as usize]);
        seen[dsm.lfsr as usize] = true;
        dsm.process(0);
    }
    assert_eq!(dsm.lfsr, 1);
    assert!(!seen[0]);
    for value in 1..65536usize {
        assert!(seen[value]);
    }
}

#[test]
fn register_never_becomes_zero() {
    for start in 1..=65535u16 {
        let mut dsm = DDSM3 { lfsr: start, a: [0, 0, 0], c: [0, 0] };
        dsm.process(0);
        assert!(dsm.lfsr != 0);
    }
}

#[test]
fn corrections_stay_in_range_and_state_stays_well_formed() {
    let mut dsm = DDSM3::new();
    let mut state: u32 = 1;
    let mut lowest: i8 = 0;
    let mut highest: i8 = 0;
    for _ in 0..200000u32 {
        state = state.wrapping_mul(1664525).wrapping_add(1013904223);
        let out = dsm.process((state >> 16) as u16);
        assert!(-3 <= out && out <= 4);
        assert!(dsm.is_wf());
        if out < lowest {
            lowest = out;
        }
        if out > highest {
            highest = out;
        }
    }
    assert_eq!(lowest, -3);
    assert_eq!(highest, 4);
}

#[test]
fn corrections_average_to_the_fraction() {
    let mut dsm = DDSM3::new();
    let mut total: i64 = 0;
    for _ in 0..65536u32 {
        total += dsm.process(0x4000) as i64;
    }
    // A quarter, up to what is still held in the accumulators.
    assert_eq!(total, 16385);
}

#[test]
fn dither_inverts_the_lowest_bit_of_the_input() {
    // From the register 8 the dither bit is one: bit 3 is set.
    let mut even = DDSM3 { lfsr: 8, a: [0, 0, 0], c: [0, 0] };
    even.process(0x1000);
    assert_eq!(even.a, [0x1001, 0x1001, 0x1001]);
    assert_eq!(even.lfsr, 17);
    let mut odd = DDSM3 { lfsr: 8, a: [0, 0, 0], c: [0, 0] };
    odd.process(0x1001);
    assert_eq!(odd.a, [0x1000, 0x1000, 0x1000]);
}

#[test]
fn carries_are_differentiated() {
    let mut dsm = DDSM3 { lfsr: 1, a: [0xffff, 0xffff, 0xffff], c: [1, 2] };
    // Stage sums: 0x1fffe, 0x1fffd, 0x1fffc: every stage carries.
    let out = dsm.process(0xffff);
    assert_eq!(out, 0);
    assert_eq!(dsm, DDSM3 { lfsr: 2, a: [0xfffe, 0xfffd, 0xfffc], c: [1, 1] });
}

#[test]
fn is_wf_checks_register_and_carries() {
    assert!(!DDSM3 { lfsr: 0, a: [0, 0, 0], c: [0, 0] }.is_wf());
    assert!(!DDSM3 { lfsr: 1, a: [0, 0, 0], c: [2, 0] }.is_wf());
    assert!(!DDSM3 { lfsr: 1, a: [0, 0, 0], c: [-1, 0] }.is_wf());
    assert!(!DDSM3 { lfsr: 1, a: [0, 0, 0], c: [0, 3] }.is_wf());
    assert!(!DDSM3 { lfsr: 1, a: [0, 0, 0], c: [0, -2] }.is_wf());
    assert!(DDSM3 { lfsr: 0xffff, a: [9, 9, 9], c: [1, -1] }.is_wf());
    assert!(DDSM3 { lfsr: 1, a: [0, 0, 0], c: [0, 2] }.is_wf());
}
