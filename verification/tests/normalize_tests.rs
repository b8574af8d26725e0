use triangle_synth::normalize::{prepare, PcmError, PCM_FULL_SCALE, WINDOWS_PER_SECOND};

#[test]
fn mono_windows_are_normalized_to_full_scale() {
    let samples: Vec<i16> = vec![100, -200, 50, 25, 0, 0, -32768, 16384, 1];
    let expected: Vec<i16> = vec![16383, -32767, 32767, 16383, 0, 0, -32767, 16383, 32767];
    assert_eq!(prepare(1, 20, &samples), Ok(expected));
}

#[test]
fn channels_are_laid_out_one_after_the_other() {
    let samples: Vec<i16> = vec![1, -10, 2, -20, 3, -30, 4, 40, 5, 50, 6, 60, 7, 0];
    let expected: Vec<i16> = vec![
        10922, 21844, 32767, 21844, 27305, 32767, 32767, -10922, -21844, -32767, 21844, 27305,
        32767, 0,
    ];
    assert_eq!(prepare(2, 30, &samples), Ok(expected));
}

#[test]
fn a_window_is_a_tenth_of_a_second() {
    assert_eq!(WINDOWS_PER_SECOND, 10);
    let samples: Vec<i16> = vec![5, -5, 0, 7];
    assert_eq!(prepare(1, 10, &samples), Ok(vec![32767, -32767, 0, 32767]));
    assert_eq!(prepare(1, 19, &samples), Ok(vec![32767, -32767, 0, 32767]));
    assert_eq!(prepare(1, 20, &samples), Ok(vec![32767, -32767, 0, 32767]));
    assert_eq!(prepare(1, 40, &samples), Ok(vec![23405, -23405, 0, 32767]));
}

#[test]
fn one_window_covers_a_short_stream() {
    let samples: Vec<i16> = vec![1000, -500, 250, 0, -1000];
    assert_eq!(prepare(1, 44100, &samples), Ok(vec![32767, -16383, 8191, 0, -32767]));
}

#[test]
fn stereo_short_stream() {
    let samples: Vec<i16> = vec![10, 20, -30, 40];
    assert_eq!(prepare(2, 44100, &samples), Ok(vec![10922, -32767, 16383, 32767]));
}

#[test]
fn silence_stays_silent() {
    let samples: Vec<i16> = vec![0; 50];
    assert_eq!(prepare(1, 100, &samples), Ok(vec![0; 50]));
}

#[test]
fn peak_becomes_full_scale() {
    assert_eq!(PCM_FULL_SCALE, 32767);
    assert_eq!(prepare(1, 44100, &[1]), Ok(vec![32767]));
    assert_eq!(prepare(1, 44100, &[-1]), Ok(vec![-32767]));
    assert_eq!(prepare(1, 44100, &[i16::MIN]), Ok(vec![-32767]));
    assert_eq!(prepare(1, 44100, &[i16::MAX]), Ok(vec![32767]));
}

#[test]
fn empty_stream_prepares_to_nothing() {
    assert_eq!(prepare(3, 10, &[]), Ok(Vec::new()));
    assert_eq!(prepare(1, 5, &[]), Ok(Vec::new()));
    assert_eq!(prepare(1, 0, &[]), Ok(Vec::new()));
}

#[test]
fn no_channels_is_an_error() {
    assert_eq!(prepare(0, 44100, &[1, 2, 3]), Err(PcmError::NoChannels));
    assert_eq!(prepare(0, 44100, &[]), Err(PcmError::NoChannels));
}

#[test]
fn ragged_frames_are_an_error() {
    assert_eq!(prepare(2, 44100, &[1, 2, 3]), Err(PcmError::RaggedFrames));
    assert_eq!(prepare(3, 5, &[1, 2, 3, 4]), Err(PcmError::RaggedFrames));
}

#[test]
fn rate_too_low_is_an_error() {
    assert_eq!(prepare(1, 9, &[1, 2, 3]), Err(PcmError::RateTooLow));
    assert_eq!(prepare(1, 0, &[1]), Err(PcmError::RateTooLow));
    assert_eq!(prepare(2, 5, &[1, 2]), Err(PcmError::RateTooLow));
}

#[test]
fn prepared_samples_stay_within_full_scale() {
    let samples: Vec<i16> =
        (0..1000).map(|k: i32| ((k * 7919) % 65536 - 32768) as i16).collect();
    let prepared = prepare(2, 100, &samples).unwrap();
    assert_eq!(prepared.len(), samples.len());
    for value in prepared {
        assert!(-32767 <= value && value <= 32767);
    }
}
