//! An oscillator voice: one note's worth of phase-accumulator state.

use vstd::prelude::*;
use crate::waveform::{
    advanced,
    lemma_phase_periodic,
    lemma_phase_step_positive,
    period,
    phase_distance,
    phase_step,
    ramp,
    triangle,
    AMPLITUDE_ONE,
    PHASE_ONE,
};

verus! {

/// The largest velocity that a well-formed note message carries.
pub const FULL_VELOCITY: u8 = 127;

/// The amplitude of a voice at full velocity: 1.0 in the units of
/// [`Voice::next_sample`].
pub const VOICE_FULL_SCALE: i64 = 0x7F_0000_0000;

/// The largest magnitude that a voice of any velocity can yield.
pub const AMPLITUDE_BOUND: i64 = 0xFF_0000_0000;

/// One sounding note of the oscillator engine.
#[derive(Clone, Copy, Debug, PartialEq, Eq, Structural)]
pub struct Voice {
    /// Whether the voice contributes to the output.
    pub active: bool,
    /// The note that triggered the voice.
    pub note: u8,
    /// Amplitude scaling in 127ths, fixed at note-on.
    pub velocity: u8,
    /// Position within the cycle, as a 32-bit fraction.
    pub phase: u32,
    /// Samples per second; zero stands for the default rate.
    pub sample_rate: u32,
}

impl Voice {
    /// Phase gained with each sample.
    pub open spec fn step(self) -> int {
        phase_step(self.note, self.sample_rate)
    }

    /// The sample that the voice yields next.
    pub open spec fn sample(self) -> int {
        if self.active {
            ramp(self.phase) * self.velocity as int
        } else {
            0
        }
    }

    /// The voice after it has yielded `n` samples.
    pub open spec fn after(self, n: nat) -> Voice {
        if self.active {
            Voice { phase: advanced(self.phase, n * self.step()), ..self }
        } else {
            self
        }
    }

    /// The sample that the voice yields after `i` earlier ones.
    pub open spec fn sample_at(self, i: nat) -> int {
        self.after(i).sample()
    }

    /// Yielding one more sample after `n` gives the state after `n + 1`.
    pub proof fn lemma_after_step(self, n: nat)
        ensures
            self.after(n).after(1) == self.after(n + 1),
            self.after(0) == self,
    {
        if self.active {
            let m = PHASE_ONE as int;
            let p = self.phase as int;
            let s = self.step();
            assert(n * s + s == (n + 1) * s) by (nonlinear_arith);
            assert(1 * s == s);
            assert(0 * s == 0);
            vstd::arithmetic::div_mod::lemma_add_mod_noop(p + n * s, s, m);
            vstd::arithmetic::div_mod::lemma_mod_twice(p + n * s, m);
            vstd::arithmetic::div_mod::lemma_add_mod_noop((p + n * s) % m, s, m);
            vstd::arithmetic::div_mod::lemma_small_mod(self.phase as nat, m as nat);
        }
    }

    /// A sounding voice is periodic: after one period of samples its phase
    /// is back where it started, ahead by less than one step. This holds
    /// for every note whose frequency is below the sample rate.
    pub proof fn lemma_periodic(self)
        requires
            self.active,
            self.step() < PHASE_ONE,
        ensures
            0 < self.step(),
            0 <= phase_distance(self.phase, self.after(period(self.step()) as nat).phase)
                < self.step(),
    {
        lemma_phase_step_positive(self.note, self.sample_rate);
        lemma_phase_periodic(self.phase, self.step());
    }

    /// No sample of a voice exceeds the amplitude that its velocity allows.
    pub proof fn lemma_sample_bound(self, i: nat)
        ensures
            -AMPLITUDE_BOUND <= self.sample_at(i) <= AMPLITUDE_BOUND,
            self.velocity <= FULL_VELOCITY ==> -VOICE_FULL_SCALE <= self.sample_at(i)
                <= VOICE_FULL_SCALE,
            !self.active ==> self.sample_at(i) == 0,
    {
        let later = self.after(i);
        lemma_scaled_bound(ramp(later.phase), later.velocity as int);
    }

    /// A silent voice.
    pub fn new(sample_rate: u32) -> (voice: Voice)
        ensures
            voice == (Voice { active: false, note: 0, velocity: 0, phase: 0, sample_rate }),
    {
        Voice { active: false, note: 0, velocity: 0, phase: 0, sample_rate }
    }

    /// Starts the voice on `note` from phase zero.
    pub fn note_on(&mut self, note: u8, velocity: u8)
        ensures
            *final(self) == (Voice {
                active: true,
                note,
                velocity,
                phase: 0,
                sample_rate: old(self).sample_rate,
            }),
    {
        self.active = true;
        self.note = note;
        self.velocity = velocity;
        self.phase = 0;
    }

    /// Silences the voice; a silent voice stays as it is.
    pub fn note_off(&mut self)
        ensures
            *final(self) == (Voice { active: false, ..*old(self) }),
            !old(self).active ==> *final(self) == *old(self),
    {
        self.active = false;
    }

    /// Yields the next sample and moves the phase on; a silent voice yields
    /// zero and does not move.
    pub fn next_sample(&mut self) -> (sample: i64)
        ensures
            sample == old(self).sample(),
            *final(self) == old(self).after(1),
            !old(self).active ==> sample == 0,
            -AMPLITUDE_BOUND <= sample <= AMPLITUDE_BOUND,
            old(self).velocity <= FULL_VELOCITY ==> -VOICE_FULL_SCALE <= sample <= VOICE_FULL_SCALE,
    {
        if !self.active {
            return 0;
        }
        let (value, next) = triangle(self.note, self.phase, self.sample_rate);
        proof {
            assert(1 * self.step() == self.step());
            lemma_scaled_bound(value as int, self.velocity as int);
        }
        self.phase = next;
        value * (self.velocity as i64)
    }
}

/// A ramp value scaled by a velocity stays within the velocity's share of
/// the full amplitude.
pub proof fn lemma_scaled_bound(value: int, velocity: int)
    requires
        -AMPLITUDE_ONE <= value <= AMPLITUDE_ONE,
        0 <= velocity <= u8::MAX,
    ensures
        -AMPLITUDE_ONE * velocity <= value * velocity <= AMPLITUDE_ONE * velocity,
        -AMPLITUDE_BOUND <= value * velocity <= AMPLITUDE_BOUND,
        velocity <= FULL_VELOCITY ==> -VOICE_FULL_SCALE <= value * velocity <= VOICE_FULL_SCALE,
{
    assert(-0x1_0000_0000 * velocity <= value * velocity <= 0x1_0000_0000 * velocity)
        by (nonlinear_arith)
        requires
            -0x1_0000_0000 <= value <= 0x1_0000_0000,
            0 <= velocity,
    ;
}

} // verus!
