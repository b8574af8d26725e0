use std::io::Cursor;
use triangle_synth::normalize::PcmError;
use triangle_synth::wav::{load_wav_file, prepare_wav, DecodedWav, WavError};

fn wav_bytes(channels: u16, sample_rate: u32, bits: u16, samples: &[i32]) -> Vec<u8> {
    let spec = hound::WavSpec {
        channels,
        sample_rate,
        bits_per_sample: bits,
        sample_format: hound::SampleFormat::Int,
    };
    let mut cursor = Cursor::new(Vec::new());
    {
        let mut writer = hound::WavWriter::new(&mut cursor, spec).unwrap();
        for sample in samples {
            writer.write_sample(*sample).unwrap();
        }
        writer.finalize().unwrap();
    }
    cursor.into_inner()
}

#[test]
fn loads_a_mono_file() {
    let bytes = wav_bytes(1, 20, 16, &[100, -200, 50, 25, 0, 0, -32768, 16384, 1]);
    let expected: Vec<i16> = vec![16383, -32767, 32767, 16383, 0, 0, -32767, 16383, 32767];
    assert_eq!(load_wav_file(&bytes), Ok(expected));
}

#[test]
fn loads_a_stereo_file_channel_after_channel() {
    let bytes = wav_bytes(2, 30, 16, &[1, -10, 2, -20, 3, -30, 4, 40, 5, 50, 6, 60, 7, 0]);
    let expected: Vec<i16> = vec![
        10922, 21844, 32767, 21844, 27305, 32767, 32767, -10922, -21844, -32767, 21844, 27305,
        32767, 0,
    ];
    assert_eq!(load_wav_file(&bytes), Ok(expected));
}

#[test]
fn loads_eight_bit_samples() {
    let bytes = wav_bytes(1, 44100, 8, &[10, -20, 5]);
    assert_eq!(load_wav_file(&bytes), Ok(vec![16383, -32767, 8191]));
}

#[test]
fn loads_a_file_without_samples() {
    let bytes = wav_bytes(2, 44100, 16, &[]);
    assert_eq!(load_wav_file(&bytes), Ok(Vec::new()));
}

#[test]
fn loading_differs_from_the_file_bytes() {
    let bytes = wav_bytes(1, 44100, 16, &[1000, -500, 250, 0, -1000]);
    let loaded = load_wav_file(&bytes).unwrap();
    assert_eq!(loaded, vec![32767, -16383, 8191, 0, -32767]);
    assert_eq!(bytes.len(), 44 + 2 * loaded.len());
}

#[test]
fn bytes_that_are_no_wave_stream_are_undecodable() {
    assert_eq!(load_wav_file(&[]), Err(WavError::Undecodable));
    assert_eq!(load_wav_file(b"not a wave file at all"), Err(WavError::Undecodable));
    assert_eq!(load_wav_file(b"RIFF\x04\x00\x00\x00WAVE"), Err(WavError::Undecodable));
}

#[test]
fn truncated_file_is_undecodable() {
    let bytes = wav_bytes(1, 44100, 16, &[1, 2, 3, 4]);
    assert_eq!(load_wav_file(&bytes[..bytes.len() - 3]), Err(WavError::Undecodable));
}

#[test]
fn samples_wider_than_sixteen_bits_are_undecodable() {
    let bytes = wav_bytes(1, 44100, 24, &[1, 2, 3]);
    assert_eq!(load_wav_file(&bytes), Err(WavError::Undecodable));
}

#[test]
fn low_rate_file_cannot_be_prepared() {
    let bytes = wav_bytes(1, 9, 16, &[1, 2, 3]);
    assert_eq!(load_wav_file(&bytes), Err(WavError::Pcm(PcmError::RateTooLow)));
}

#[test]
fn prepare_wav_reports_preparation_errors() {
    let ragged = DecodedWav { channels: 2, sample_rate: 44100, samples: vec![1, 2, 3] };
    assert_eq!(prepare_wav(&ragged), Err(WavError::Pcm(PcmError::RaggedFrames)));
    let none = DecodedWav { channels: 0, sample_rate: 44100, samples: vec![] };
    assert_eq!(prepare_wav(&none), Err(WavError::Pcm(PcmError::NoChannels)));
    let slow = DecodedWav { channels: 1, sample_rate: 3, samples: vec![1] };
    assert_eq!(prepare_wav(&slow), Err(WavError::Pcm(PcmError::RateTooLow)));
}

#[test]
fn prepare_wav_normalizes() {
    let wav = DecodedWav { channels: 2, sample_rate: 44100, samples: vec![10, 20, -30, 40] };
    assert_eq!(prepare_wav(&wav), Ok(vec![10922, -32767, 16383, 32767]));
}
