//! The oscillator engine: a fixed pool of triangle voices.

use vstd::prelude::*;
use crate::block::StereoBlock;
use crate::event::{decode, NoteEvent, NoteKind};
use crate::mix::{
    contribution,
    lemma_full_velocity_bound,
    lemma_mix_push,
    lemma_mix_silent,
    lemma_pool_bound,
    mix,
    rendered,
    within_full_velocity,
};
use crate::pool::{
    active_count,
    applied,
    applied_all,
    first_free,
    handled,
    lemma_active_count,
    lemma_first_free,
    lemma_note_on_count,
    lemma_release_idempotent,
    released,
    released_voice,
    with_note_on,
};
use crate::voice::{Voice, AMPLITUDE_BOUND, VOICE_FULL_SCALE};
use crate::{DEFAULT_SAMPLE_RATE, MAX_VOICES};

verus! {

/// A pool of `MAX_VOICES` silent voices at `sample_rate`.
pub open spec fn silent_pool(sample_rate: u32) -> Seq<Voice> {
    Seq::new(
        MAX_VOICES as nat,
        |k: int| Voice { active: false, note: 0, velocity: 0, phase: 0, sample_rate },
    )
}

/// The pool with every voice's timing basis set to `sample_rate`.
pub open spec fn retimed(voices: Seq<Voice>, sample_rate: u32) -> Seq<Voice> {
    Seq::new(voices.len(), |k: int| Voice { sample_rate, ..voices[k] })
}

/// The byte sequences of a batch of messages.
pub open spec fn messages(batch: Seq<Vec<u8>>) -> Seq<Seq<u8>> {
    Seq::new(batch.len(), |k: int| batch[k]@)
}

/// A polyphonic triangle-wave synthesizer with a fixed pool of voices.
///
/// Its view is the sequence of its voices.
pub struct TriangleSynth {
    voices: Vec<Voice>,
    sample_rate: u32,
}

impl View for TriangleSynth {
    type V = Seq<Voice>;

    closed spec fn view(&self) -> Seq<Voice> {
        self.voices@
    }
}

impl TriangleSynth {
    /// The sample rate that the engine was last given.
    pub closed spec fn rate(&self) -> u32 {
        self.sample_rate
    }

    /// The pool has its fixed size, and every voice runs at the engine's
    /// sample rate.
    pub open spec fn wf(&self) -> bool {
        &&& self@.len() == MAX_VOICES
        &&& forall|k: int| 0 <= k < self@.len() ==> (#[trigger] self@[k]).sample_rate == self.rate()
    }

    /// An engine of silent voices at the default sample rate.
    pub fn new() -> (synth: TriangleSynth)
        ensures
            synth.wf(),
            synth.rate() == DEFAULT_SAMPLE_RATE,
            synth@ == silent_pool(DEFAULT_SAMPLE_RATE),
            active_count(synth@) == 0,
    {
        let mut voices: Vec<Voice> = Vec::new();
        let mut k: usize = 0;
        while k < MAX_VOICES
            invariant
                k <= MAX_VOICES,
                voices.len() == k,
                forall|j: int| 0 <= j < k ==> voices[j] == silent_pool(DEFAULT_SAMPLE_RATE)[j],
            decreases MAX_VOICES - k,
        {
            voices.push(Voice::new(DEFAULT_SAMPLE_RATE));
            k += 1;
        }
        assert(voices@ =~= silent_pool(DEFAULT_SAMPLE_RATE));
        proof {
            lemma_active_count(voices@);
        }
        TriangleSynth { voices, sample_rate: DEFAULT_SAMPLE_RATE }
    }

    /// The sample rate that the engine was last given.
    pub fn sample_rate(&self) -> (rate: u32)
        ensures
            rate == self.rate(),
    {
        self.sample_rate
    }

    /// Voice `k` of the pool.
    pub fn voice(&self, k: usize) -> (voice: Voice)
        requires
            k < self@.len(),
        ensures
            voice == self@[k as int],
    {
        self.voices[k]
    }

    /// Number of voices in the pool.
    pub fn voice_count(&self) -> (n: usize)
        ensures
            n == self@.len(),
    {
        self.voices.len()
    }

    /// Number of voices that sound.
    pub fn active_voices(&self) -> (n: usize)
        ensures
            n == active_count(self@),
            n <= self@.len(),
    {
        let mut n: usize = 0;
        let mut k: usize = 0;
        while k < self.voices.len()
            invariant
                k <= self.voices.len(),
                n == active_count(self@.take(k as int)),
                n <= k,
            decreases self.voices.len() - k,
        {
            assert(self@.take(k + 1).drop_last() =~= self@.take(k as int));
            if self.voices[k].active {
                n += 1;
            }
            k += 1;
        }
        assert(self@.take(k as int) =~= self@);
        n
    }

    /// Sets the timing basis of the engine and of every voice.
    pub fn set_sample_rate(&mut self, rate: u32)
        requires
            old(self).wf(),
        ensures
            final(self).wf(),
            final(self).rate() == rate,
            final(self)@ == retimed(old(self)@, rate),
    {
        self.sample_rate = rate;
        let mut k: usize = 0;
        while k < self.voices.len()
            invariant
                k <= self.voices.len(),
                self.voices.len() == old(self)@.len(),
                self.sample_rate == rate,
                forall|j: int| 0 <= j < k ==> self.voices[j] == retimed(old(self)@, rate)[j],
                forall|j: int| k <= j < self.voices.len() ==> self.voices[j] == old(self)@[j],
            decreases self.voices.len() - k,
        {
            let mut voice: Voice = self.voices[k];
            voice.sample_rate = rate;
            self.voices.set(k, voice);
            k += 1;
        }
        assert(self@ =~= retimed(old(self)@, rate));
    }

    /// Starts the first silent voice on `note` and returns its index; with
    /// no silent voice the note is dropped and nothing changes.
    pub fn note_on(&mut self, note: u8, velocity: u8) -> (slot: Option<usize>)
        requires
            old(self).wf(),
        ensures
            final(self).wf(),
            final(self).rate() == old(self).rate(),
            final(self)@ == with_note_on(old(self)@, note, velocity),
            match slot {
                Some(k) => first_free(old(self)@) == Some(k as int),
                None => first_free(old(self)@) is None,
            },
            slot is None <==> active_count(old(self)@) == MAX_VOICES,
            slot is None ==> final(self)@ == old(self)@,
            slot is Some ==> active_count(final(self)@) == active_count(old(self)@) + 1,
            active_count(final(self)@) <= MAX_VOICES,
    {
        proof {
            lemma_first_free(self@);
            lemma_active_count(self@);
            lemma_note_on_count(self@, note, velocity);
        }
        let mut k: usize = 0;
        while k < self.voices.len()
            invariant
                k <= self.voices.len(),
                old(self).wf(),
                self.voices@ == old(self)@,
                self.sample_rate == old(self).sample_rate,
                forall|j: int| 0 <= j < k ==> self.voices[j].active,
            decreases self.voices.len() - k,
        {
            if !self.voices[k].active {
                proof {
                    lemma_first_free(self@);
                    lemma_active_count(self@);
                    lemma_note_on_count(self@, note, velocity);
                }
                let mut voice: Voice = self.voices[k];
                voice.note_on(note, velocity);
                self.voices.set(k, voice);
                return Some(k);
            }
            k += 1;
        }
        None
    }

    /// Silences every sounding voice on `note`.
    pub fn note_off(&mut self, note: u8)
        requires
            old(self).wf(),
        ensures
            final(self).wf(),
            final(self).rate() == old(self).rate(),
            final(self)@ == released(old(self)@, note),
            forall|j: int|
                0 <= j < final(self)@.len() ==> !((#[trigger] final(self)@[j]).active
                    && final(self)@[j].note == note),
            forall|j: int|
                0 <= j < final(self)@.len() && !(old(self)@[j].active && old(self)@[j].note == note)
                    ==> (#[trigger] final(self)@[j]) == old(self)@[j],
            (forall|j: int|
                0 <= j < old(self)@.len() ==> !((#[trigger] old(self)@[j]).active && old(
                    self,
                )@[j].note == note)) ==> final(self)@ == old(self)@,
    {
        proof {
            lemma_release_idempotent(self@, note);
        }
        let mut k: usize = 0;
        while k < self.voices.len()
            invariant
                k <= self.voices.len(),
                self.voices.len() == old(self)@.len(),
                self.sample_rate == old(self).sample_rate,
                forall|j: int| 0 <= j < k ==> self.voices[j] == released_voice(old(self)@[j], note),
                forall|j: int| k <= j < self.voices.len() ==> self.voices[j] == old(self)@[j],
            decreases self.voices.len() - k,
        {
            let mut voice: Voice = self.voices[k];
            if voice.active && voice.note == note {
                voice.note_off();
                self.voices.set(k, voice);
            }
            k += 1;
        }
        assert(self@ =~= released(old(self)@, note));
    }

    /// Applies one decoded event to the pool.
    pub fn handle_event(&mut self, event: NoteEvent)
        requires
            old(self).wf(),
        ensures
            final(self).wf(),
            final(self).rate() == old(self).rate(),
            final(self)@ == handled(old(self)@, event),
    {
        match event.kind {
            NoteKind::NoteOn => {
                if event.velocity > 0 {
                    let _ = self.note_on(event.note, event.velocity);
                } else {
                    self.note_off(event.note);
                }
            },
            NoteKind::NoteOff => {
                self.note_off(event.note);
            },
        }
    }

    /// Decodes one raw message and applies it; a message that does not
    /// decode changes nothing.
    pub fn process_midi_event(&mut self, message: &[u8])
        requires
            old(self).wf(),
        ensures
            final(self).wf(),
            final(self).rate() == old(self).rate(),
            final(self)@ == applied(old(self)@, message@),
    {
        match decode(message) {
            Some(event) => self.handle_event(event),
            None => {},
        }
    }

    /// Applies a batch of raw messages in order of arrival.
    pub fn process_events(&mut self, batch: &Vec<Vec<u8>>)
        requires
            old(self).wf(),
        ensures
            final(self).wf(),
            final(self).rate() == old(self).rate(),
            final(self)@ == applied_all(old(self)@, messages(batch@)),
    {
        let ghost all = messages(batch@);
        let mut k: usize = 0;
        while k < batch.len()
            invariant
                k <= batch.len(),
                all == messages(batch@),
                self.wf(),
                self.rate() == old(self).rate(),
                self@ == applied_all(old(self)@, all.take(k as int)),
            decreases batch.len() - k,
        {
            assert(all.take(k + 1).drop_last() =~= all.take(k as int));
            assert(all.take(k + 1).last() == batch[k as int]@);
            self.process_midi_event(batch[k].as_slice());
            k += 1;
        }
        assert(all.take(k as int) =~= all);
    }

    /// Renders one block: the block is zeroed, every sounding voice yields
    /// one sample per frame, and each sample, attenuated by the size of the
    /// pool, is added to both channels.
    pub fn process(&mut self, block: &mut StereoBlock)
        requires
            old(self).wf(),
            old(block).wf(),
        ensures
            final(self).wf(),
            final(self).rate() == old(self).rate(),
            final(block).wf(),
            final(block)@.left.len() == old(block)@.left.len(),
            final(self)@ == rendered(old(self)@, old(block)@.left.len()),
            forall|i: int|
                0 <= i < final(block)@.left.len() ==> {
                    &&& (#[trigger] final(block)@.left[i]) == mix(old(self)@, i as nat)
                    &&& -AMPLITUDE_BOUND <= final(block)@.left[i] <= AMPLITUDE_BOUND
                },
            forall|i: int|
                0 <= i < final(block)@.right.len() ==> {
                    (#[trigger] final(block)@.right[i]) == mix(old(self)@, i as nat)
                },
            active_count(old(self)@) == 0 ==> final(block).is_silent(),
            within_full_velocity(old(self)@) ==> forall|i: int|
                0 <= i < final(block)@.left.len() ==> {
                    -VOICE_FULL_SCALE <= (#[trigger] final(block)@.left[i]) <= VOICE_FULL_SCALE
                },
    {
        let ghost start = self@;
        block.clear();
        let frames: usize = block.frames();
        let mut k: usize = 0;
        while k < self.voices.len()
            invariant
                k <= self.voices.len(),
                self.wf(),
                block.wf(),
                start == old(self)@,
                start.len() == MAX_VOICES,
                self.rate() == old(self).rate(),
                block@.left.len() == frames,
                forall|j: int| 0 <= j < k ==> self@[j] == start[j].after(frames as nat),
                forall|j: int| k <= j < self@.len() ==> self@[j] == start[j],
                forall|i: int|
                    0 <= i < frames ==> (#[trigger] block@.left[i]) == mix(
                        start.take(k as int),
                        i as nat,
                    ),
                forall|i: int|
                    0 <= i < frames ==> (#[trigger] block@.right[i]) == mix(
                        start.take(k as int),
                        i as nat,
                    ),
            decreases self.voices.len() - k,
        {
            let mut voice: Voice = self.voices[k];
            if !voice.active {
                proof {
                    assert forall|i: int| 0 <= i < frames implies mix(
                        start.take(k as int + 1),
                        i as nat,
                    ) == #[trigger] mix(start.take(k as int), i as nat) by {
                        lemma_mix_push(start, k as int, i as nat);
                        start[k as int].lemma_sample_bound(i as nat);
                    }
                }
                k += 1;
                continue;
            }
            let mut i: usize = 0;
            while i < frames
                invariant
                    i <= frames,
                    k < self.voices.len(),
                    block.wf(),
                    start.len() == MAX_VOICES,
                    self@.len() == MAX_VOICES,
                    block@.left.len() == frames,
                    voice == start[k as int].after(i as nat),
                    forall|j: int|
                        0 <= j < i ==> (#[trigger] block@.left[j]) == mix(
                            start.take(k as int + 1),
                            j as nat,
                        ),
                    forall|j: int|
                        0 <= j < i ==> (#[trigger] block@.right[j]) == mix(
                            start.take(k as int + 1),
                            j as nat,
                        ),
                    forall|j: int|
                        i <= j < frames ==> (#[trigger] block@.left[j]) == mix(
                            start.take(k as int),
                            j as nat,
                        ),
                    forall|j: int|
                        i <= j < frames ==> (#[trigger] block@.right[j]) == mix(
                            start.take(k as int),
                            j as nat,
                        ),
                decreases frames - i,
            {
                let sample: i64 = voice.next_sample();
                let share: i64 = sample / (MAX_VOICES as i64);
                proof {
                    start[k as int].lemma_after_step(i as nat);
                    lemma_mix_push(start, k as int, i as nat);
                    lemma_pool_bound(start.take(k as int), i as nat);
                    lemma_pool_bound(start.take(k as int + 1), i as nat);
                    assert(share == contribution(start[k as int], i as nat));
                }
                block.accumulate(i, share);
                i += 1;
            }
            self.voices.set(k, voice);
            k += 1;
        }
        proof {
            assert(start.take(k as int) =~= start);
            assert(self@ =~= rendered(start, frames as nat));
            assert forall|i: int| 0 <= i < frames implies {
                -AMPLITUDE_BOUND <= (#[trigger] block@.left[i]) <= AMPLITUDE_BOUND
            } by {
                lemma_pool_bound(start, i as nat);
            }
            if active_count(start) == 0 {
                lemma_active_count(start);
                assert forall|i: int| 0 <= i < frames implies (#[trigger] block@.left[i]) == 0 by {
                    lemma_mix_silent(start, i as nat);
                }
                assert forall|i: int| 0 <= i < frames implies (#[trigger] block@.right[i]) == 0 by {
                    lemma_mix_silent(start, i as nat);
                }
            }
            if within_full_velocity(start) {
                assert forall|i: int| 0 <= i < frames implies {
                    -VOICE_FULL_SCALE <= (#[trigger] block@.left[i]) <= VOICE_FULL_SCALE
                } by {
                    lemma_full_velocity_bound(start, i as nat);
                }
            }
        }
    }
}

impl Default for TriangleSynth {
    /// An engine of silent voices at the default sample rate.
    fn default() -> (synth: TriangleSynth)
        ensures
            synth.wf(),
            synth.rate() == DEFAULT_SAMPLE_RATE,
            synth@ == silent_pool(DEFAULT_SAMPLE_RATE),
    {
        TriangleSynth::new()
    }
}

} // verus!
