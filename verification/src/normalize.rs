//! Preparation of decoded PCM for playback: the interleaved channels are
//! laid out one after the other, and each channel is normalized window by
//! window to the full 16-bit scale.

use vstd::prelude::*;

verus! {

/// The largest magnitude of a normalized sample.
pub const PCM_FULL_SCALE: i16 = 32767;

/// The largest magnitude of a decoded sample.
pub const PCM_PEAK_MAX: u32 = 32768;

/// Number of windows per second of audio.
pub const WINDOWS_PER_SECOND: u32 = 10;

/// Why decoded PCM could not be prepared.
#[derive(Clone, Copy, Debug, PartialEq, Eq, Structural)]
pub enum PcmError {
    /// The stream declares no channel.
    NoChannels,
    /// The number of samples is not a multiple of the number of channels.
    RaggedFrames,
    /// The sample rate is too low for a window to hold a sample.
    RateTooLow,
}

/// The magnitude of a sample.
pub open spec fn magnitude(sample: i16) -> int {
    if sample < 0 {
        -(sample as int)
    } else {
        sample as int
    }
}

/// A sample rescaled so that `peak` becomes full scale, rounded toward
/// zero. Under a peak of zero every sample is zero and stays so.
pub open spec fn rescaled(sample: i16, peak: int) -> int {
    if peak <= 0 {
        0
    } else if sample < 0 {
        -(magnitude(sample) * PCM_FULL_SCALE as int / peak)
    } else {
        magnitude(sample) * PCM_FULL_SCALE as int / peak
    }
}

/// Sample `t` of channel `c` of an interleaved stream.
pub open spec fn channel_sample(samples: Seq<i16>, channels: int, c: int, t: int) -> i16 {
    samples[t * channels + c]
}

/// The largest magnitude among samples `lo..hi` of channel `c`.
pub open spec fn window_peak(samples: Seq<i16>, channels: int, c: int, lo: int, hi: int) -> int
    decreases hi - lo,
{
    if hi <= lo {
        0
    } else {
        let rest = window_peak(samples, channels, c, lo, hi - 1);
        let last = magnitude(channel_sample(samples, channels, c, hi - 1));
        if last > rest {
            last
        } else {
            rest
        }
    }
}

/// Number of samples in a normalization window: a tenth of a second.
pub open spec fn window_len(sample_rate: u32) -> int {
    sample_rate as int / WINDOWS_PER_SECOND as int
}

/// First sample of the window that holds sample `t`.
pub open spec fn window_start(window: int, t: int) -> int {
    (t / window) * window
}

/// End of the window that starts at `lo`, in a channel of `frames` samples.
pub open spec fn window_end(window: int, frames: int, lo: int) -> int {
    if lo + window < frames {
        lo + window
    } else {
        frames
    }
}

/// Sample `t` of channel `c`, normalized by the peak of its window.
pub open spec fn normalized_sample(
    samples: Seq<i16>,
    channels: int,
    window: int,
    c: int,
    t: int,
) -> int {
    let frames = samples.len() as int / channels;
    let lo = window_start(window, t);
    let hi = window_end(window, frames, lo);
    rescaled(channel_sample(samples, channels, c, t), window_peak(samples, channels, c, lo, hi))
}

/// The prepared samples: channel after channel, each normalized window by
/// window.
pub open spec fn normalized_samples(samples: Seq<i16>, channels: int, window: int) -> Seq<i16> {
    let frames = samples.len() as int / channels;
    Seq::new(
        samples.len(),
        |k: int| normalized_sample(samples, channels, window, k / frames, k % frames) as i16,
    )
}

/// What preparing a decoded stream gives.
pub open spec fn prepared(channels: u16, sample_rate: u32, samples: Seq<i16>) -> Result<
    Seq<i16>,
    PcmError,
> {
    if channels == 0 {
        Err(PcmError::NoChannels)
    } else if samples.len() % (channels as nat) != 0 {
        Err(PcmError::RaggedFrames)
    } else if samples.len() > 0 && window_len(sample_rate) == 0 {
        Err(PcmError::RateTooLow)
    } else {
        Ok(normalized_samples(samples, channels as int, window_len(sample_rate)))
    }
}

/// The peak of a window bounds every magnitude in it, is itself a
/// magnitude found in it unless the window is empty, and never exceeds
/// 32768.
pub proof fn lemma_window_peak(samples: Seq<i16>, channels: int, c: int, lo: int, hi: int)
    ensures
        0 <= window_peak(samples, channels, c, lo, hi) <= PCM_PEAK_MAX,
        forall|t: int|
            lo <= t < hi ==> magnitude(#[trigger] channel_sample(samples, channels, c, t))
                <= window_peak(samples, channels, c, lo, hi),
        lo < hi ==> exists|t: int|
            lo <= t < hi && magnitude(#[trigger] channel_sample(samples, channels, c, t))
                == window_peak(samples, channels, c, lo, hi),
    decreases hi - lo,
{
    if hi > lo {
        lemma_window_peak(samples, channels, c, lo, hi - 1);
        let rest = window_peak(samples, channels, c, lo, hi - 1);
        let last = magnitude(channel_sample(samples, channels, c, hi - 1));
        if last > rest {
        } else {
            if lo < hi - 1 {
                let t = choose|t: int|
                    lo <= t < hi - 1 && magnitude(
                        #[trigger] channel_sample(samples, channels, c, t),
                    ) == rest;
                assert(lo <= t < hi);
            } else {
                assert(rest == 0);
                assert(last == 0);
            }
        }
    }
}

/// A rescaled sample keeps its sign and stays within full scale when the
/// peak bounds its magnitude; a sample at the peak becomes full scale.
pub proof fn lemma_rescaled(sample: i16, peak: int)
    requires
        magnitude(sample) <= peak,
    ensures
        -(PCM_FULL_SCALE as int) <= rescaled(sample, peak) <= PCM_FULL_SCALE as int,
        sample >= 0 ==> rescaled(sample, peak) >= 0,
        sample <= 0 ==> rescaled(sample, peak) <= 0,
        peak > 0 && magnitude(sample) == peak ==> rescaled(sample, peak) == if sample < 0 {
            -(PCM_FULL_SCALE as int)
        } else {
            PCM_FULL_SCALE as int
        },
{
    if peak > 0 {
        let m = magnitude(sample);
        assert(0 <= m * 32767 / peak <= 32767) by (nonlinear_arith)
            requires
                0 <= m <= peak,
                peak > 0,
        ;
        if m == peak {
            assert(peak * 32767 / peak == 32767) by (nonlinear_arith)
                requires
                    peak > 0,
            ;
        }
    }
}

/// The largest magnitude among samples `lo..hi` of channel `c`.
fn peak_of(samples: &[i16], channels: usize, c: usize, lo: usize, hi: usize) -> (peak: u32)
    requires
        c < channels,
        lo <= hi,
        hi * channels <= samples@.len(),
    ensures
        peak == window_peak(samples@, channels as int, c as int, lo as int, hi as int),
        peak <= PCM_PEAK_MAX,
{
    let len: usize = samples.len();
    let mut peak: u32 = 0;
    let mut t: usize = lo;
    while t < hi
        invariant
            lo <= t <= hi,
            c < channels,
            len == samples@.len(),
            hi * channels <= len,
            peak == window_peak(samples@, channels as int, c as int, lo as int, t as int),
            peak <= PCM_PEAK_MAX,
        decreases hi - t,
    {
        proof {
            lemma_interleaved_index(channels as int, hi as int, c as int, t as int);
        }
        let sample: i16 = samples[t * channels + c];
        let size: u32 = if sample < 0 {
            (-(sample as i32)) as u32
        } else {
            sample as u32
        };
        if size > peak {
            peak = size;
        }
        t += 1;
    }
    peak
}

/// `sample` rescaled so that `peak` becomes full scale.
fn rescale(sample: i16, peak: u32) -> (scaled: i16)
    requires
        magnitude(sample) <= peak <= PCM_PEAK_MAX,
    ensures
        scaled == rescaled(sample, peak as int),
{
    if peak == 0 {
        return 0;
    }
    proof {
        lemma_rescaled(sample, peak as int);
    }
    if sample < 0 {
        let size: u32 = (-(sample as i32)) as u32;
        let scaled: u32 = size * (PCM_FULL_SCALE as u32) / peak;
        (-(scaled as i32)) as i16
    } else {
        let size: u32 = sample as u32;
        let scaled: u32 = size * (PCM_FULL_SCALE as u32) / peak;
        scaled as i16
    }
}

/// Sample `t` of channel `c` lies within a stream of `frames` frames.
pub proof fn lemma_interleaved_index(channels: int, frames: int, c: int, t: int)
    requires
        0 <= c < channels,
        0 <= t < frames,
    ensures
        0 <= t * channels + c < frames * channels,
{
    assert(0 <= t * channels + c < frames * channels) by (nonlinear_arith)
        requires
            0 <= c < channels,
            0 <= t < frames,
    ;
}

/// Prepares a decoded stream for playback.
///
/// The result holds the channels one after the other. Within a channel,
/// every window of a tenth of a second is rescaled so that its largest
/// magnitude becomes full scale; a window of silence stays silent.
pub fn prepare(channels: u16, sample_rate: u32, samples: &[i16]) -> (result: Result<
    Vec<i16>,
    PcmError,
>)
    ensures
        match result {
            Ok(pcm) => prepared(channels, sample_rate, samples@) == Ok::<Seq<i16>, PcmError>(pcm@),
            Err(error) => prepared(channels, sample_rate, samples@) == Err::<Seq<i16>, PcmError>(
                error,
            ),
        },
{
    if channels == 0 {
        return Err(PcmError::NoChannels);
    }
    let count: usize = channels as usize;
    let len: usize = samples.len();
    if len % count != 0 {
        return Err(PcmError::RaggedFrames);
    }
    let window: usize = (sample_rate / WINDOWS_PER_SECOND) as usize;
    if len > 0 && window == 0 {
        return Err(PcmError::RateTooLow);
    }
    let frames: usize = len / count;
    let ghost goal = normalized_samples(samples@, channels as int, window as int);
    proof {
        vstd::arithmetic::div_mod::lemma_fundamental_div_mod(len as int, count as int);
        assert(frames * count == len) by (nonlinear_arith)
            requires
                len == count * frames + 0,
        ;
    }
    let mut out: Vec<i16> = Vec::with_capacity(len);
    let mut c: usize = 0;
    while c < count
        invariant
            c <= count,
            count == channels,
            len == samples@.len(),
            frames * count == len,
            frames == len as int / count as int,
            frames > 0 ==> window > 0,
            goal == normalized_samples(samples@, channels as int, window as int),
            goal.len() == len,
            out.len() == c * frames,
            forall|k: int| 0 <= k < out.len() ==> out[k] == goal[k],
        decreases count - c,
    {
        let mut lo: usize = 0;
        let ghost mut windows: int = 0;
        while lo < frames
            invariant
                lo <= frames,
                c < count,
                count == channels,
                len == samples@.len(),
                frames * count == len,
                frames == len as int / count as int,
                frames > 0 ==> window > 0,
                lo < frames ==> lo == windows * window,
                0 <= windows,
                goal == normalized_samples(samples@, channels as int, window as int),
                goal.len() == len,
                out.len() == c * frames + lo,
                forall|k: int| 0 <= k < out.len() ==> out[k] == goal[k],
            decreases frames - lo,
        {
            let hi: usize = if frames - lo > window {
                lo + window
            } else {
                frames
            };
            proof {
                assert(hi * count <= frames * count) by (nonlinear_arith)
                    requires
                        hi <= frames,
                        0 <= count,
                ;
            }
            let peak: u32 = peak_of(samples, count, c, lo, hi);
            let mut t: usize = lo;
            while t < hi
                invariant
                    lo <= t <= hi,
                    hi <= frames,
                    hi <= lo + window,
                    hi == window_end(window as int, frames as int, lo as int),
                    window > 0,
                    c < count,
                    count == channels,
                    len == samples@.len(),
                    frames * count == len,
                    frames == len as int / count as int,
                    lo == windows * window,
                    0 <= windows,
                    peak == window_peak(samples@, count as int, c as int, lo as int, hi as int),
                    peak <= PCM_PEAK_MAX,
                    goal == normalized_samples(samples@, channels as int, window as int),
                    goal.len() == len,
                    out.len() == c * frames + t,
                    forall|k: int| 0 <= k < out.len() ==> out[k] == goal[k],
                decreases hi - t,
            {
                proof {
                    lemma_interleaved_index(count as int, frames as int, c as int, t as int);
                    lemma_window_peak(samples@, count as int, c as int, lo as int, hi as int);
                    let k = c * frames + t;
                    assert(0 <= k < len) by (nonlinear_arith)
                        requires
                            k == c * frames + t,
                            0 <= t < frames,
                            0 <= c < count,
                            frames * count == len,
                    ;
                    vstd::arithmetic::div_mod::lemma_fundamental_div_mod_converse(
                        k as int,
                        frames as int,
                        c as int,
                        t as int,
                    );
                    vstd::arithmetic::div_mod::lemma_fundamental_div_mod_converse(
                        t as int,
                        window as int,
                        windows,
                        t - lo,
                    );
                    assert(window_start(window as int, t as int) == lo);
                }
                let sample: i16 = samples[t * count + c];
                assert(sample == channel_sample(samples@, count as int, c as int, t as int));
                let scaled: i16 = rescale(sample, peak);
                out.push(scaled);
                t += 1;
            }
            proof {
                assert((windows + 1) * window == windows * window + window) by (nonlinear_arith);
                if hi < frames {
                    windows = windows + 1;
                }
            }
            lo = hi;
        }
        proof {
            assert((c + 1) * frames == c * frames + frames) by (nonlinear_arith);
        }
        c += 1;
    }
    proof {
        assert(count * frames == frames * count) by (nonlinear_arith);
        assert(out@ =~= goal);
    }
    Ok(out)
}

} // verus!
