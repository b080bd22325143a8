use stream_dsp::modulator::DDSM3;
use stream_dsp::waveform::{modulate, Waveform, COS, N_COS};

#[test]
fn table_has_one_period() {
    assert_eq!(N_COS, 36);
    assert_eq!(COS.len(), 36);
    assert_eq!(COS[0], 0xfae147);
    assert_eq!(COS[9], 0x800000);
    assert_eq!(COS[18], 0x51eb8);
    assert_eq!(COS[27], 0x7fffff);
    for i in 1..18 {
        if i != 9 {
            assert_eq!(COS[i], COS[36 - i]);
        }
    }
}

#[test]
fn first_sample_from_the_initial_state() {
    let mut dsm = DDSM3::new();
    let sample = modulate(&mut dsm, 0xfae147);
    assert_eq!(sample, 250);
    assert_eq!(dsm, DDSM3 { lfsr: 2, a: [0xe147, 0xe147, 0xe147], c: [0, 0] });
}

#[test]
fn modulate_keeps_sixteen_bits() {
    // Coarse part -1, correction 0: the sample wraps to 0xffff.
    let mut dsm = DDSM3::new();
    assert_eq!(modulate(&mut dsm, -1), 0xffff);
    assert_eq!(dsm.a, [0xffff, 0xffff, 0xffff]);
    let mut low = DDSM3::new();
    assert_eq!(modulate(&mut low, i32::MIN), 0x8000);
    let mut high = DDSM3::new();
    assert_eq!(modulate(&mut high, i32::MAX), 0x7fff);
}

#[test]
fn new_waveform_starts_at_the_head_of_the_table() {
    let w = Waveform::new();
    assert_eq!(w.index, 0);
    assert_eq!(w.dsm, DDSM3::new());
    assert!(w.is_wf());
    assert!(!Waveform { dsm: DDSM3::new(), index: 36 }.is_wf());
}

#[test]
fn render_first_buffer() {
    let mut w = Waveform::new();
    let mut out = [0u16; 256];
    w.render(&mut out);
    let head: [u16; 16] =
        [250, 253, 249, 252, 250, 252, 249, 253, 250, 250, 252, 251, 250, 251, 252, 250];
    assert_eq!(out[..16], head);
    assert_eq!(out[252..], [251, 250, 252, 250]);
    let total: u32 = out.iter().map(|v| *v as u32).sum();
    assert_eq!(total, 64225);
    assert_eq!(w.index, 1);
    assert_eq!(w.dsm, DDSM3 { lfsr: 2966, a: [18043, 57824, 24446], c: [1, 0] });
}

#[test]
fn render_carries_the_modulator_over() {
    let mut w = Waveform::new();
    let mut out = [0u16; 256];
    w.render(&mut out);
    w.render(&mut out);
    assert_eq!(out[..8], [249, 250, 247, 251, 249, 248, 249, 249]);
    let total: u32 = out.iter().map(|v| *v as u32).sum();
    assert_eq!(total, 63749);
    assert_eq!(w.index, 2);
    assert_eq!(w.dsm, DDSM3 { lfsr: 6112, a: [42229, 19186, 9511], c: [1, 2] });
}

#[test]
fn render_equals_repeated_modulation() {
    let mut w = Waveform { dsm: DDSM3::new(), index: 5 };
    let mut dsm = DDSM3::new();
    let mut out = [0u16; 40];
    w.render(&mut out);
    for i in 0..40 {
        assert_eq!(out[i], modulate(&mut dsm, COS[5]));
    }
    assert_eq!(w.dsm, dsm);
    assert_eq!(w.index, 6);
}

#[test]
fn render_wraps_the_index() {
    let mut w = Waveform::new();
    let mut out = [0u16; 4];
    for round in 0..36usize {
        assert_eq!(w.index, round);
        w.render(&mut out);
    }
    assert_eq!(w.index, 0);
    let mut last = Waveform { dsm: DDSM3::new(), index: 35 };
    last.render(&mut out);
    assert_eq!(last.index, 0);
}

#[test]
fn render_of_an_empty_buffer_only_moves_the_index() {
    let mut w = Waveform::new();
    let mut out: [u16; 0] = [];
    w.render(&mut out);
    assert_eq!(w.index, 1);
    assert_eq!(w.dsm, DDSM3::new());
}

#[test]
fn samples_of_the_table_fit_eight_bits() {
    let mut w = Waveform::new();
    let mut out = [0u16; 256];
    for _ in 0..72 {
        w.render(&mut out);
        for v in out {
            assert!(v <= 255);
        }
    }
}
