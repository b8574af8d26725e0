//! A sample-playback voice: a cursor into a shared PCM buffer, played once.

use vstd::prelude::*;

verus! {

/// One playing instance of a sample.
#[derive(Clone, Copy, Debug, PartialEq, Eq, Structural)]
pub struct SampleVoice {
    /// Whether the voice still has samples to yield.
    pub active: bool,
    /// The note whose buffer the voice plays.
    pub note: u8,
    /// Index of the next sample in the buffer.
    pub cursor: usize,
}

impl SampleVoice {
    /// A sounding voice has a sample under its cursor.
    pub open spec fn wf_on(self, pcm: Seq<i16>) -> bool {
        self.active ==> self.cursor < pcm.len()
    }

    /// The voice as a trigger on `note` leaves it, for a buffer of `len`
    /// samples: at the start of the buffer, and sounding unless the buffer
    /// is empty.
    pub open spec fn triggered(note: u8, len: nat) -> SampleVoice {
        SampleVoice { active: len > 0, note, cursor: 0 }
    }

    /// The sample that the voice yields next.
    pub open spec fn sample(self, pcm: Seq<i16>) -> int {
        if self.active {
            pcm[self.cursor as int] as int
        } else {
            0
        }
    }

    /// The voice after it has yielded `n` samples: the cursor has moved on
    /// by `n`, or has stopped at the end of the buffer with the voice silent.
    pub open spec fn after(self, pcm: Seq<i16>, n: nat) -> SampleVoice {
        if !self.active {
            self
        } else if self.cursor + n < pcm.len() {
            SampleVoice { cursor: (self.cursor + n) as usize, ..self }
        } else {
            SampleVoice { active: false, cursor: pcm.len() as usize, ..self }
        }
    }

    /// The sample that the voice yields after `i` earlier ones.
    pub open spec fn sample_at(self, pcm: Seq<i16>, i: nat) -> int {
        self.after(pcm, i).sample(pcm)
    }

    /// Yielding one more sample after `n` gives the state after `n + 1`,
    /// and no number of samples takes the cursor past the buffer.
    pub proof fn lemma_after_step(self, pcm: Seq<i16>, n: nat)
        requires
            pcm.len() <= usize::MAX,
            self.wf_on(pcm),
        ensures
            self.after(pcm, n).wf_on(pcm),
            self.after(pcm, n).after(pcm, 1) == self.after(pcm, n + 1),
            self.after(pcm, 0) == self,
    {
    }

    /// A voice triggered on a buffer of `pcm.len()` samples yields exactly
    /// those samples, in order, and is silent for ever after.
    pub proof fn lemma_plays_once(note: u8, pcm: Seq<i16>, i: nat)
        requires
            pcm.len() <= usize::MAX,
        ensures
            Self::triggered(note, pcm.len()).wf_on(pcm),
            i < pcm.len() ==> Self::triggered(note, pcm.len()).sample_at(pcm, i) == pcm[i as int],
            i < pcm.len() ==> Self::triggered(note, pcm.len()).after(pcm, i).active,
            i >= pcm.len() ==> Self::triggered(note, pcm.len()).sample_at(pcm, i) == 0,
            i >= pcm.len() ==> !Self::triggered(note, pcm.len()).after(pcm, i).active,
    {
    }

    /// A silent voice yields silence, whatever the buffer, and stays silent.
    pub proof fn lemma_silent_stays(self, pcm: Seq<i16>, i: nat)
        requires
            !self.active,
        ensures
            self.sample_at(pcm, i) == 0,
            self.after(pcm, i) == self,
    {
    }

    /// A voice at the start of the buffer of `note`, `len` samples long.
    pub fn trigger(note: u8, len: usize) -> (voice: SampleVoice)
        ensures
            voice == Self::triggered(note, len as nat),
    {
        SampleVoice { active: len > 0, note, cursor: 0 }
    }

    /// Silences the voice before its buffer is exhausted; a silent voice
    /// stays as it is.
    pub fn note_off(&mut self)
        ensures
            *final(self) == (SampleVoice { active: false, ..*old(self) }),
            !old(self).active ==> *final(self) == *old(self),
    {
        self.active = false;
    }

    /// Yields the sample under the cursor and moves the cursor on; the voice
    /// falls silent when the cursor reaches the end of the buffer. A silent
    /// voice yields zero.
    pub fn next_sample(&mut self, pcm: &[i16]) -> (sample: i16)
        requires
            old(self).wf_on(pcm@),
        ensures
            sample == old(self).sample(pcm@),
            *final(self) == old(self).after(pcm@, 1),
            final(self).wf_on(pcm@),
            !old(self).active ==> sample == 0,
    {
        if !self.active {
            return 0;
        }
        let sample: i16 = pcm[self.cursor];
        self.cursor = self.cursor + 1;
        if self.cursor == pcm.len() {
            self.active = false;
        }
        sample
    }
}

} // verus!
