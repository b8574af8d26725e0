//! Loading of WAVE data: the `hound` crate decodes the stream, and the
//! decoded samples are prepared for playback.

use vstd::prelude::*;
use crate::normalize::{prepare, prepared, PcmError};

verus! {

/// The error type of `hound`, carried through as it is.
#[verifier::external_type_specification]
#[verifier::external_body]
pub struct ExHoundError(hound::Error);

/// The content of a WAVE stream: its interleaved samples and what its
/// header says of them.
pub struct DecodedWav {
    /// Number of interleaved channels.
    pub channels: u16,
    /// Samples per second and channel.
    pub sample_rate: u32,
    /// The samples of all channels, frame by frame.
    pub samples: Vec<i16>,
}

/// Why WAVE data could not be loaded.
#[derive(Clone, Copy, Debug, PartialEq, Eq, Structural)]
pub enum WavError {
    /// `hound` does not read the bytes as a WAVE stream of 16-bit samples.
    Undecodable,
    /// The stream was decoded, but its samples could not be prepared.
    Pcm(PcmError),
}

/// What `hound` reads from a WAVE stream held in memory: the channel count
/// and sample rate of its header and its samples as `i16`, or nothing where
/// `hound` reports an error.
pub uninterp spec fn wav_stream(bytes: Seq<u8>) -> Option<(u16, u32, Seq<i16>)>;

/// Decodes `bytes` with `hound::WavReader`: the reader is made over the
/// bytes with `WavReader::new`, its header is taken with `spec`, and its
/// samples are collected from `samples::<i16>`. The contract claims only
/// that the outcome is a function of the bytes, named [`wav_stream`]: a
/// reader over memory consults nothing else.
#[verifier::external_body]
fn read_wav(bytes: &[u8]) -> (result: Result<DecodedWav, hound::Error>)
    ensures
        result matches Ok(wav) ==> wav_stream(bytes@) == Some(
            (wav.channels, wav.sample_rate, wav.samples@),
        ),
        result is Err ==> wav_stream(bytes@) is None,
{
    let mut reader = hound::WavReader::new(std::io::Cursor::new(bytes))?;
    let header = reader.spec();
    let samples = reader.samples::<i16>().collect::<Result<Vec<i16>, hound::Error>>()?;
    Ok(DecodedWav { channels: header.channels, sample_rate: header.sample_rate, samples })
}

/// What loading gives for each outcome of decoding.
pub open spec fn loaded(stream: Option<(u16, u32, Seq<i16>)>) -> Result<Seq<i16>, WavError> {
    match stream {
        None => Err(WavError::Undecodable),
        Some((channels, sample_rate, samples)) => match prepared(channels, sample_rate, samples) {
            Ok(pcm) => Ok(pcm),
            Err(error) => Err(WavError::Pcm(error)),
        },
    }
}

/// Prepares a decoded stream for playback.
pub fn prepare_wav(wav: &DecodedWav) -> (result: Result<Vec<i16>, WavError>)
    ensures
        match result {
            Ok(pcm) => loaded(Some((wav.channels, wav.sample_rate, wav.samples@))) == Ok::<
                Seq<i16>,
                WavError,
            >(pcm@),
            Err(error) => loaded(Some((wav.channels, wav.sample_rate, wav.samples@))) == Err::<
                Seq<i16>,
                WavError,
            >(error),
        },
{
    match prepare(wav.channels, wav.sample_rate, wav.samples.as_slice()) {
        Ok(pcm) => Ok(pcm),
        Err(error) => Err(WavError::Pcm(error)),
    }
}

/// Loads the content of a WAVE file: decodes it and prepares its samples
/// for playback.
pub fn load_wav_file(bytes: &[u8]) -> (result: Result<Vec<i16>, WavError>)
    ensures
        match result {
            Ok(pcm) => loaded(wav_stream(bytes@)) == Ok::<Seq<i16>, WavError>(pcm@),
            Err(error) => loaded(wav_stream(bytes@)) == Err::<Seq<i16>, WavError>(error),
        },
{
    match read_wav(bytes) {
        Ok(wav) => prepare_wav(&wav),
        Err(_) => Err(WavError::Undecodable),
    }
}

} // verus!
