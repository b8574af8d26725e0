//! How the voices of the oscillator pool add up to one output sample.

use vstd::prelude::*;
use crate::voice::{Voice, AMPLITUDE_BOUND, FULL_VELOCITY, VOICE_FULL_SCALE};
use crate::MAX_VOICES;

verus! {

/// Division that rounds toward zero.
pub open spec fn trunc_div(x: int, d: int) -> int {
    if x >= 0 {
        x / d
    } else {
        -((-x) / d)
    }
}

/// What one voice adds to frame `i` of a block: its sample, attenuated by
/// the size of the pool.
pub open spec fn contribution(voice: Voice, i: nat) -> int {
    trunc_div(voice.sample_at(i), MAX_VOICES as int)
}

/// Frame `i` of a block: the sum of the contributions of all voices.
pub open spec fn mix(voices: Seq<Voice>, i: nat) -> int
    decreases voices.len(),
{
    if voices.len() == 0 {
        0
    } else {
        mix(voices.drop_last(), i) + contribution(voices.last(), i)
    }
}

/// The pool after a block of `frames` frames: every voice has yielded
/// `frames` samples.
pub open spec fn rendered(voices: Seq<Voice>, frames: nat) -> Seq<Voice> {
    Seq::new(voices.len(), |k: int| voices[k].after(frames))
}

/// The share of a pool of `MAX_VOICES` voices in a magnitude.
pub open spec fn share_of(bound: int) -> int {
    bound / MAX_VOICES as int
}

/// Attenuation never raises a magnitude: a sample within `bound` is
/// attenuated to within the share in `bound`.
pub proof fn lemma_contribution_bound(x: int, bound: int)
    requires
        -bound <= x <= bound,
    ensures
        -share_of(bound) <= trunc_div(x, MAX_VOICES as int) <= share_of(bound),
{
}

/// Mixing one more voice adds that voice's contribution.
pub proof fn lemma_mix_push(voices: Seq<Voice>, k: int, i: nat)
    requires
        0 <= k < voices.len(),
    ensures
        mix(voices.take(k + 1), i) == mix(voices.take(k), i) + contribution(voices[k], i),
{
    assert(voices.take(k + 1).drop_last() =~= voices.take(k));
}

/// If no voice exceeds `bound` in magnitude at frame `i`, the mix of a pool
/// of at most `MAX_VOICES` voices does not exceed it either.
pub proof fn lemma_mix_bounded(voices: Seq<Voice>, i: nat, bound: int)
    requires
        0 <= bound,
        voices.len() <= MAX_VOICES,
        forall|k: int|
            0 <= k < voices.len() ==> -bound <= (#[trigger] voices[k]).sample_at(i) <= bound,
    ensures
        -bound <= mix(voices, i) <= bound,
        -(voices.len() * share_of(bound)) <= mix(voices, i) <= voices.len() * share_of(bound),
    decreases voices.len(),
{
    let share = share_of(bound);
    let n = voices.len() as int;
    if n == 0 {
        assert(0 * share == 0);
    } else {
        let front = voices.drop_last();
        assert forall|k: int| 0 <= k < front.len() implies {
            -bound <= (#[trigger] front[k]).sample_at(i) <= bound
        } by {
            assert(front[k] == voices[k]);
        }
        lemma_mix_bounded(front, i, bound);
        assert(voices.last() == voices[n - 1]);
        lemma_contribution_bound(voices.last().sample_at(i), bound);
        assert((n - 1) * share + share == n * share) by (nonlinear_arith);
        assert(n * share <= MAX_VOICES * share) by (nonlinear_arith)
            requires
                0 <= n <= MAX_VOICES,
                0 <= share,
        ;
    }
}

/// A pool in which no voice sounds mixes to silence.
pub proof fn lemma_mix_silent(voices: Seq<Voice>, i: nat)
    requires
        forall|k: int| 0 <= k < voices.len() ==> !voices[k].active,
    ensures
        mix(voices, i) == 0,
    decreases voices.len(),
{
    if voices.len() > 0 {
        let front = voices.drop_last();
        assert forall|k: int| 0 <= k < front.len() implies !front[k].active by {
            assert(front[k] == voices[k]);
        }
        lemma_mix_silent(front, i);
        assert(voices.last() == voices[voices.len() - 1]);
    }
}

/// No sounding voice has a velocity above the largest that a well-formed
/// note message carries.
pub open spec fn within_full_velocity(voices: Seq<Voice>) -> bool {
    forall|k: int|
        0 <= k < voices.len() && (#[trigger] voices[k]).active ==> voices[k].velocity
            <= FULL_VELOCITY
}

/// The mix of a pool of at most `MAX_VOICES` voices stays within the
/// largest amplitude of a single voice.
pub proof fn lemma_pool_bound(voices: Seq<Voice>, i: nat)
    requires
        voices.len() <= MAX_VOICES,
    ensures
        -AMPLITUDE_BOUND <= mix(voices, i) <= AMPLITUDE_BOUND,
        -(voices.len() * share_of(AMPLITUDE_BOUND as int)) <= mix(voices, i),
        mix(voices, i) <= voices.len() * share_of(AMPLITUDE_BOUND as int),
{
    assert forall|k: int| 0 <= k < voices.len() implies {
        -AMPLITUDE_BOUND <= (#[trigger] voices[k]).sample_at(i) <= AMPLITUDE_BOUND
    } by {
        voices[k].lemma_sample_bound(i);
    }
    lemma_mix_bounded(voices, i, AMPLITUDE_BOUND as int);
}

/// Attenuation by the size of the pool prevents clipping: if every
/// sounding voice is within full velocity, then the mix of up to
/// `MAX_VOICES` voices, all of them at full scale if need be, is within
/// full scale.
pub proof fn lemma_full_velocity_bound(voices: Seq<Voice>, i: nat)
    requires
        voices.len() <= MAX_VOICES,
        within_full_velocity(voices),
    ensures
        -VOICE_FULL_SCALE <= mix(voices, i) <= VOICE_FULL_SCALE,
{
    assert forall|k: int| 0 <= k < voices.len() implies {
        -VOICE_FULL_SCALE <= (#[trigger] voices[k]).sample_at(i) <= VOICE_FULL_SCALE
    } by {
        voices[k].lemma_sample_bound(i);
    }
    lemma_mix_bounded(voices, i, VOICE_FULL_SCALE as int);
}

} // verus!
