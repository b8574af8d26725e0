use triangle_synth::tuning::{note_frequency, A4_FREQUENCY, A4_NOTE, FREQUENCY_ONE};

#[test]
fn a4_is_440_hz() {
    assert_eq!(note_frequency(69), 440 * 65536);
    assert_eq!(note_frequency(A4_NOTE), A4_FREQUENCY);
    assert_eq!(A4_FREQUENCY, 440 * FREQUENCY_ONE);
}

#[test]
fn a5_is_880_hz() {
    assert_eq!(note_frequency(81), 880 * 65536);
}

#[test]
fn a3_is_220_hz() {
    assert_eq!(note_frequency(57), 220 * 65536);
}

#[test]
fn known_frequencies() {
    assert_eq!(note_frequency(0), 535809);
    assert_eq!(note_frequency(60), 17145893);
    assert_eq!(note_frequency(127), 822074012);
    assert_eq!(note_frequency(244), 707869788400);
    assert_eq!(note_frequency(255), 1336280219989);
}

#[test]
fn octave_down_halves() {
    for note in 0u8..=243 {
        assert_eq!(note_frequency(note), note_frequency(note + 12) / 2);
    }
}

#[test]
fn frequencies_rise_with_the_note() {
    for note in 0u8..255 {
        assert!(note_frequency(note) < note_frequency(note + 1));
    }
}

#[test]
fn matches_equal_temperament() {
    for note in 0u8..=127 {
        let exact = 440.0f64 * 65536.0 * 2.0f64.powf((note as f64 - 69.0) / 12.0);
        let got = note_frequency(note) as f64;
        assert!(got <= exact + 1e-3, "note {}: {} above {}", note, got, exact);
        assert!(exact < got + 1.0 + 1e-3, "note {}: {} too far below {}", note, got, exact);
    }
}

#[test]
fn frequency_in_hertz_within_epsilon() {
    let a4 = note_frequency(69) as f64 / 65536.0;
    let a5 = note_frequency(81) as f64 / 65536.0;
    let a3 = note_frequency(57) as f64 / 65536.0;
    assert!((a4 - 440.0).abs() < 1e-9);
    assert!((a5 - 880.0).abs() < 1e-9);
    assert!((a3 - 220.0).abs() < 1e-9);
}
