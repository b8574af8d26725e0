//! A polyphonic synthesis and sample-playback engine in fixed-point arithmetic.
//!
//! Note messages are decoded by [`event`], routed to a bounded pool of voices
//! ([`synth`] for oscillator voices, [`sample_player`] for one-shot PCM
//! playback) and rendered into a two-channel [`block::StereoBlock`].
//!
//! All quantities are integers: a phase is a 32-bit fraction of a cycle, a
//! velocity counts 127ths, PCM samples are 16-bit, and mixed output is `i64`.

pub mod block;
pub mod event;
pub mod info;
pub mod mix;
pub mod normalize;
pub mod pool;
pub mod sample_player;
pub mod sample_voice;
pub mod store;
pub mod synth;
pub mod temperament;
pub mod tuning;
pub mod voice;
pub mod wav;
pub mod waveform;

use vstd::prelude::*;

verus! {

/// Number of voices that can sound at once.
pub const MAX_VOICES: usize = 128;

/// Sample rate, in Hz, of an engine whose rate was never set.
pub const DEFAULT_SAMPLE_RATE: u32 = 44100;

} // verus!
