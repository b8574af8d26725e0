//! The oscillator's waveform: a rising ramp driven by a phase accumulator.
//!
//! A phase is a fraction of a cycle with 32 fractional bits, so a whole cycle
//! is [`PHASE_ONE`] and every `u32` is a phase in `[0, 1)`. The ramp maps a
//! phase to an amplitude with the same 32 fractional bits.

use vstd::prelude::*;
use crate::tuning::{frequency, lemma_frequency_bounds, note_frequency, FREQUENCY_ONE};
use crate::DEFAULT_SAMPLE_RATE;

verus! {

/// One full cycle of phase.
pub const PHASE_ONE: u64 = 0x1_0000_0000;

/// The amplitude 1.0.
pub const AMPLITUDE_ONE: i64 = 0x1_0000_0000;

/// The rate that timing is computed with: a rate of zero stands for a rate
/// that was never set.
pub open spec fn effective_rate(sample_rate: u32) -> int {
    if sample_rate == 0 {
        DEFAULT_SAMPLE_RATE as int
    } else {
        sample_rate as int
    }
}

/// Phase gained per sample by a note: frequency over sample rate, rounded down.
///
/// The wrap of [`advanced`] is a single subtraction whenever this is below
/// [`PHASE_ONE`], that is, whenever the frequency is below the sample rate.
pub open spec fn phase_step(note: u8, sample_rate: u32) -> int {
    frequency(note as int) * FREQUENCY_ONE as int / effective_rate(sample_rate)
}

/// The ramp `2 * phase - 1`.
pub open spec fn ramp(phase: u32) -> int {
    2 * phase as int - PHASE_ONE as int
}

/// The phase one sample later: `(phase + step) mod 1`.
pub open spec fn advanced(phase: u32, step: int) -> u32 {
    ((phase as int + step) % PHASE_ONE as int) as u32
}

/// Every note gains phase with every sample, at every sample rate.
pub proof fn lemma_phase_step_positive(note: u8, sample_rate: u32)
    ensures
        phase_step(note, sample_rate) > 0,
{
    lemma_frequency_bounds(note as int);
    let scaled = frequency(note as int) * FREQUENCY_ONE as int;
    let rate = effective_rate(sample_rate);
    assert(scaled >= rate);
    vstd::arithmetic::div_mod::lemma_div_is_ordered(rate, scaled, rate);
    vstd::arithmetic::div_mod::lemma_div_basics(rate);
}

/// Number of samples in one cycle at `step` per sample, rounded up.
pub open spec fn period(step: int) -> int {
    (PHASE_ONE as int + step - 1) / step
}

/// How far `to` lies ahead of `from` on the cycle.
pub open spec fn phase_distance(from: u32, to: u32) -> int {
    (to as int - from as int) % PHASE_ONE as int
}

/// After one period the phase is back where it started, ahead by less
/// than one step, provided the step is a positive fraction of a cycle.
pub proof fn lemma_phase_periodic(phase: u32, step: int)
    requires
        0 < step < PHASE_ONE,
    ensures
        period(step) >= 1,
        0 <= phase_distance(phase, advanced(phase, period(step) * step)) < step,
        phase_distance(phase, advanced(phase, period(step) * step)) == period(step) * step
            - PHASE_ONE,
{
    let one = PHASE_ONE as int;
    let n = period(step);
    vstd::arithmetic::div_mod::lemma_fundamental_div_mod(one + step - 1, step);
    let r = (one + step - 1) % step;
    assert(0 <= r < step) by {
        vstd::arithmetic::div_mod::lemma_mod_pos_bound(one + step - 1, step);
    }
    let excess = n * step - one;
    assert(step * n == n * step) by (nonlinear_arith);
    assert(0 <= excess < step);
    assert(n >= 1) by (nonlinear_arith)
        requires
            n * step >= one,
            one > 0,
            step > 0,
    ;
    assert((phase as int + n * step) % one == (phase as int + excess) % one) by {
        vstd::arithmetic::div_mod::lemma_mod_add_multiples_vanish(phase as int + excess, one);
    }
}

/// Phase gained per sample by `note` at `sample_rate`.
pub fn phase_increment(note: u8, sample_rate: u32) -> (step: u64)
    ensures
        step == phase_step(note, sample_rate),
{
    let rate: u64 = if sample_rate == 0 {
        DEFAULT_SAMPLE_RATE as u64
    } else {
        sample_rate as u64
    };
    let f: u64 = note_frequency(note);
    f * FREQUENCY_ONE / rate
}

/// The ramp's amplitude at `phase`.
pub fn ramp_value(phase: u32) -> (value: i64)
    ensures
        value == ramp(phase),
        -AMPLITUDE_ONE <= value < AMPLITUDE_ONE,
{
    2 * (phase as i64) - AMPLITUDE_ONE
}

/// Moves `phase` forward by `step`, wrapping at one cycle.
pub fn advance(phase: u32, step: u64) -> (next: u32)
    ensures
        next == advanced(phase, step as int),
        step < PHASE_ONE && phase + step >= PHASE_ONE ==> next == phase + step - PHASE_ONE,
        step < PHASE_ONE && phase + step < PHASE_ONE ==> next == phase + step,
{
    let low: u64 = step % PHASE_ONE;
    proof {
        vstd::arithmetic::div_mod::lemma_add_mod_noop_right(
            phase as int,
            step as int,
            PHASE_ONE as int,
        );
    }
    let sum: u64 = phase as u64 + low;
    if sum >= PHASE_ONE {
        (sum - PHASE_ONE) as u32
    } else {
        sum as u32
    }
}

/// One step of the triangle oscillator: the amplitude at `phase`, and the
/// phase of the next sample.
pub fn triangle(note: u8, phase: u32, sample_rate: u32) -> (out: (i64, u32))
    ensures
        out.0 == ramp(phase),
        -AMPLITUDE_ONE <= out.0 < AMPLITUDE_ONE,
        out.1 == advanced(phase, phase_step(note, sample_rate)),
{
    let value: i64 = ramp_value(phase);
    let step: u64 = phase_increment(note, sample_rate);
    (value, advance(phase, step))
}

} // verus!
