use triangle_synth::voice::{Voice, AMPLITUDE_BOUND, FULL_VELOCITY, VOICE_FULL_SCALE};

#[test]
fn new_voice_is_silent() {
    let mut voice = Voice::new(44100);
    assert_eq!(
        voice,
        Voice { active: false, note: 0, velocity: 0, phase: 0, sample_rate: 44100 }
    );
    assert_eq!(voice.next_sample(), 0);
    assert_eq!(voice.next_sample(), 0);
    assert_eq!(voice.phase, 0);
}

#[test]
fn note_on_resets_the_phase() {
    let mut voice = Voice::new(44100);
    voice.note_on(69, 100);
    let _ = voice.next_sample();
    assert_ne!(voice.phase, 0);
    voice.note_on(60, 90);
    assert_eq!(
        voice,
        Voice { active: true, note: 60, velocity: 90, phase: 0, sample_rate: 44100 }
    );
}

#[test]
fn samples_follow_the_ramp() {
    let mut voice = Voice::new(44100);
    voice.note_on(69, 100);
    assert_eq!(voice.next_sample(), -429496729600);
    assert_eq!(voice.phase, 42852281);
    assert_eq!(voice.next_sample(), -420926273400);
    assert_eq!(voice.next_sample(), -412355817200);
    assert_eq!(voice.next_sample(), -403785361000);
    assert_eq!(voice.phase, 4 * 42852281);
}

#[test]
fn full_velocity_reaches_full_scale() {
    let mut voice = Voice::new(44100);
    voice.note_on(69, FULL_VELOCITY);
    assert_eq!(voice.next_sample(), -VOICE_FULL_SCALE);
    assert_eq!(VOICE_FULL_SCALE, 127i64 << 32);
    assert_eq!(AMPLITUDE_BOUND, 255i64 << 32);
}

#[test]
fn note_off_silences_at_once() {
    let mut voice = Voice::new(44100);
    voice.note_on(69, 100);
    let _ = voice.next_sample();
    let phase = voice.phase;
    voice.note_off();
    assert!(!voice.active);
    assert_eq!(voice.next_sample(), 0);
    assert_eq!(voice.phase, phase);
}

#[test]
fn note_off_is_idempotent() {
    let mut voice = Voice::new(48000);
    voice.note_on(40, 64);
    voice.note_off();
    let once = voice;
    voice.note_off();
    assert_eq!(voice, once);
    let mut silent = Voice::new(48000);
    silent.note_off();
    assert_eq!(silent, Voice::new(48000));
}

#[test]
fn voice_is_periodic() {
    let mut voice = Voice::new(44100);
    voice.note_on(69, 127);
    let mut first = Vec::new();
    for _ in 0..101 {
        first.push(voice.next_sample());
    }
    assert_eq!(voice.phase, 33113085);
    assert!(voice.phase < 42852281);
    let again = voice.next_sample();
    assert!(again > first[0]);
    assert!(again < first[1]);
}

#[test]
fn samples_stay_within_the_velocity() {
    let mut voice = Voice::new(8000);
    voice.note_on(127, 127);
    for _ in 0..1000 {
        let sample = voice.next_sample();
        assert!(-VOICE_FULL_SCALE <= sample && sample <= VOICE_FULL_SCALE);
    }
    voice.note_on(127, 255);
    for _ in 0..1000 {
        let sample = voice.next_sample();
        assert!(-AMPLITUDE_BOUND <= sample && sample <= AMPLITUDE_BOUND);
    }
}
