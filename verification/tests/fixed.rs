use stream_dsp::fixed::{macc, saturate, MAX_SHIFT, SAMPLE_MAX, SAMPLE_MIN};

const SINE: [i16; 16] = [
    0, 1247, 2304, 3011, 3259, 3011, 2304, 1247, 0, -1247, -2304, -3011, -3259, -3011, -2304,
    -1247,
];

fn reference(seed: i32, x: &[i16], a: &[i16], shift: u32) -> i16 {
    let mut sum: i128 = (seed as i128) << shift;
    for i in 0..x.len() {
        sum += (x[i] as i128) * (a[i] as i128);
    }
    let scaled = sum >> shift;
    if scaled < -32768 {
        -32768
    } else if scaled > 32767 {
        32767
    } else {
        scaled as i16
    }
}

#[test]
fn saturate_passes_values_in_range() {
    assert_eq!(saturate(0), 0);
    assert_eq!(saturate(-1), -1);
    assert_eq!(saturate(32767), SAMPLE_MAX);
    assert_eq!(saturate(-32768), SAMPLE_MIN);
}

#[test]
fn saturate_limits_values_out_of_range() {
    assert_eq!(saturate(32768), 32767);
    assert_eq!(saturate(-32769), -32768);
    assert_eq!(saturate(i64::MAX), 32767);
    assert_eq!(saturate(i64::MIN), -32768);
}

#[test]
fn macc_of_sine_with_itself_saturates() {
    // The dot product is 84960346; scaled down by 11 bits it is 41484.
    assert_eq!(macc(0, &SINE, &SINE, 11), 32767);
}

#[test]
fn macc_of_sine_with_itself_at_larger_shift() {
    assert_eq!(macc(0, &SINE, &SINE, 12), 20742);
    assert_eq!(macc(0, &SINE, &SINE, 13), 10371);
}

#[test]
fn macc_rounds_towards_minus_infinity() {
    assert_eq!(macc(0, &[-3], &[1], 1), -2);
    assert_eq!(macc(0, &[3], &[1], 1), 1);
    assert_eq!(macc(-1, &[1], &[1], 4), -1);
}

#[test]
fn macc_adds_the_seed_after_scaling() {
    // (100 * 4 + 3000 - 8000 + 15000) / 4
    assert_eq!(macc(100, &[1000, -2000, 3000], &[3, 4, 5], 2), 2600);
    assert_eq!(macc(5, &[1, 2], &[3, 4], 1), 10);
}

#[test]
fn macc_saturates_both_ways() {
    assert_eq!(macc(7, &[32767; 4], &[32767; 4], 0), 32767);
    assert_eq!(macc(0, &[-32768; 4], &[32767; 4], 3), -32768);
}

#[test]
fn macc_takes_the_widest_seed_and_shift() {
    assert_eq!(macc(i32::MIN, &[0], &[0], MAX_SHIFT), -32768);
    assert_eq!(macc(i32::MAX, &[1], &[1], MAX_SHIFT), 32767);
    assert_eq!(macc(-1, &[-32768], &[-32768], MAX_SHIFT), -1);
    assert_eq!(macc(0, &[-32768, -32768], &[-32768, -32768], MAX_SHIFT), 1);
}

#[test]
fn macc_of_nothing_is_the_limited_seed() {
    assert_eq!(macc(12, &[], &[], 5), 12);
    assert_eq!(macc(-40000, &[], &[], 0), -32768);
    assert_eq!(macc(40000, &[], &[], 31), 32767);
}

#[test]
fn macc_agrees_with_wide_arithmetic() {
    let mut state: u32 = 12345;
    let mut x: Vec<i16> = Vec::new();
    let mut a: Vec<i16> = Vec::new();
    for round in 0..200u32 {
        state = state.wrapping_mul(1664525).wrapping_add(1013904223);
        x.push((state >> 16) as i16);
        state = state.wrapping_mul(1664525).wrapping_add(1013904223);
        a.push((state >> 16) as i16);
        state = state.wrapping_mul(1664525).wrapping_add(1013904223);
        let seed = state as i32;
        let shift = round % 32;
        assert_eq!(macc(seed, &x, &a, shift), reference(seed, &x, &a, shift));
        assert_eq!(macc(seed >> 16, &x, &a, shift), reference(seed >> 16, &x, &a, shift));
    }
}
