use triangle_synth::waveform::{
    advance, phase_increment, ramp_value, triangle, AMPLITUDE_ONE, PHASE_ONE,
};

#[test]
fn ramp_runs_from_minus_one_to_one() {
    assert_eq!(ramp_value(0), -AMPLITUDE_ONE);
    assert_eq!(ramp_value(1 << 31), 0);
    assert_eq!(ramp_value(1 << 30), -(1i64 << 31));
    assert_eq!(ramp_value(u32::MAX), AMPLITUDE_ONE - 2);
}

#[test]
fn increment_is_frequency_over_rate() {
    assert_eq!(phase_increment(69, 44100), 42852281);
    assert_eq!(phase_increment(69, 48000), 39370533);
}

#[test]
fn unset_rate_defaults_to_44100() {
    assert_eq!(phase_increment(69, 0), phase_increment(69, 44100));
    assert_eq!(phase_increment(0, 0), phase_increment(0, 44100));
}

#[test]
fn advance_adds_the_step() {
    assert_eq!(advance(0, 42852281), 42852281);
    assert_eq!(advance(100, 0), 100);
}

#[test]
fn advance_wraps_by_subtraction() {
    assert_eq!(advance(u32::MAX, 1), 0);
    assert_eq!(advance(4_000_000_000, 500_000_000), 205_032_704);
    assert_eq!(advance(u32::MAX, (PHASE_ONE - 1) as u64), u32::MAX - 1);
}

#[test]
fn advance_wraps_steps_of_more_than_a_cycle() {
    assert_eq!(phase_increment(127, 8000), 6734430306);
    assert_eq!(advance(0, 6734430306), (6734430306u64 - PHASE_ONE) as u32);
    assert_eq!(advance(7, 3 * PHASE_ONE + 5), 12);
}

#[test]
fn triangle_yields_value_and_next_phase() {
    assert_eq!(triangle(69, 0, 44100), (-AMPLITUDE_ONE, 42852281));
    assert_eq!(triangle(69, 42852281, 44100), (2 * 42852281 - AMPLITUDE_ONE, 85704562));
}

#[test]
fn phase_returns_after_one_period() {
    let step = phase_increment(69, 44100);
    let period = (PHASE_ONE + step - 1) / step;
    assert_eq!(period, 101);
    let mut phase: u32 = 12345;
    for _ in 0..period {
        phase = advance(phase, step);
    }
    let ahead = phase.wrapping_sub(12345) as u64;
    assert_eq!(ahead, 33113085);
    assert!(ahead < step);
}

#[test]
fn doubling_the_rate_halves_the_increment() {
    assert_eq!(phase_increment(69, 88200), 21426140);
    assert_eq!(phase_increment(69, 88200), phase_increment(69, 44100) / 2);
    assert_eq!(phase_increment(81, 44100), 85704562);
}
