//! The sample engine: one-shot playback of loaded PCM buffers.
//!
//! A note-on starts a new playing instance of the buffer loaded for its
//! note, whatever its velocity. An instance ends by itself when its buffer
//! is exhausted; a note-off does not end it. Instances are summed without
//! attenuation.

use std::sync::Arc;
use vstd::prelude::*;
use crate::block::StereoBlock;
use crate::event::{decode, decoded, NoteEvent, NoteKind};
use crate::sample_voice::SampleVoice;
use crate::store::SampleStore;
use crate::{DEFAULT_SAMPLE_RATE, MAX_VOICES};

verus! {

/// The loaded assets, as contracts see them.
pub type Assets = Map<u8, Seq<i16>>;

/// The largest magnitude of a PCM sample.
pub const PCM_BOUND: i64 = 32768;

/// A playing instance reads a loaded buffer and has a sample under its
/// cursor.
pub open spec fn playing(assets: Assets, voice: SampleVoice) -> bool {
    &&& assets.contains_key(voice.note)
    &&& assets[voice.note].len() <= usize::MAX
    &&& voice.active
    &&& voice.cursor < assets[voice.note].len()
}

/// The instances after a trigger of `note`: a new instance at the start of
/// the note's buffer is appended. Without a buffer for the note, with an
/// empty one, or with `MAX_VOICES` instances already playing, nothing
/// changes.
pub open spec fn with_trigger(assets: Assets, voices: Seq<SampleVoice>, note: u8) -> Seq<
    SampleVoice,
> {
    if assets.contains_key(note) && assets[note].len() > 0 && voices.len() < MAX_VOICES {
        voices.push(SampleVoice { active: true, note, cursor: 0 })
    } else {
        voices
    }
}

/// The instances after one event: a note-on triggers, a note-off changes
/// nothing.
pub open spec fn handled(assets: Assets, voices: Seq<SampleVoice>, event: NoteEvent) -> Seq<
    SampleVoice,
> {
    match event.kind {
        NoteKind::NoteOn => with_trigger(assets, voices, event.note),
        NoteKind::NoteOff => voices,
    }
}

/// The instances after one raw message; a message that does not decode
/// changes nothing.
pub open spec fn applied(assets: Assets, voices: Seq<SampleVoice>, message: Seq<u8>) -> Seq<
    SampleVoice,
> {
    match decoded(message) {
        Some(event) => handled(assets, voices, event),
        None => voices,
    }
}

/// Frame `i` of a block: the sum of what each instance yields at that frame.
pub open spec fn sample_mix(assets: Assets, voices: Seq<SampleVoice>, i: nat) -> int
    decreases voices.len(),
{
    if voices.len() == 0 {
        0
    } else {
        sample_mix(assets, voices.drop_last(), i) + voices.last().sample_at(
            assets[voices.last().note],
            i,
        )
    }
}

/// Every instance after it has yielded `frames` samples.
pub open spec fn advanced_all(assets: Assets, voices: Seq<SampleVoice>, frames: nat) -> Seq<
    SampleVoice,
> {
    Seq::new(voices.len(), |k: int| voices[k].after(assets[voices[k].note], frames))
}

/// The instances that still sound, in their order.
pub open spec fn sounding(voices: Seq<SampleVoice>) -> Seq<SampleVoice>
    decreases voices.len(),
{
    if voices.len() == 0 {
        voices
    } else if voices.last().active {
        sounding(voices.drop_last()).push(voices.last())
    } else {
        sounding(voices.drop_last())
    }
}

/// The instances after a block of `frames` frames: each has moved on by
/// `frames` samples, and those whose buffer is exhausted are gone.
pub open spec fn survivors(assets: Assets, voices: Seq<SampleVoice>, frames: nat) -> Seq<
    SampleVoice,
> {
    sounding(advanced_all(assets, voices, frames))
}

/// Only sounding instances are kept, and no more than there were.
pub proof fn lemma_sounding(voices: Seq<SampleVoice>)
    ensures
        sounding(voices).len() <= voices.len(),
        forall|k: int| 0 <= k < sounding(voices).len() ==> (#[trigger] sounding(voices)[k]).active,
        forall|k: int|
            0 <= k < sounding(voices).len() ==> exists|j: int|
                0 <= j < voices.len() && voices[j] == #[trigger] sounding(voices)[k],
        (forall|j: int| 0 <= j < voices.len() ==> voices[j].active) ==> sounding(voices) == voices,
    decreases voices.len(),
{
    if voices.len() > 0 {
        let front = voices.drop_last();
        lemma_sounding(front);
        assert forall|k: int| 0 <= k < sounding(voices).len() implies exists|j: int|
            0 <= j < voices.len() && voices[j] == #[trigger] sounding(voices)[k] by {
            if k < sounding(front).len() {
                let j = choose|j: int| 0 <= j < front.len() && front[j] == sounding(front)[k];
                assert(voices[j] == sounding(voices)[k]);
            } else {
                assert(voices[voices.len() - 1] == sounding(voices)[k]);
            }
        }
        if forall|j: int| 0 <= j < voices.len() ==> voices[j].active {
            assert forall|j: int| 0 <= j < front.len() implies front[j].active by {
                assert(front[j] == voices[j]);
            }
            assert(sounding(voices) =~= voices);
        }
    }
}

/// Mixing one more instance adds what that instance yields.
pub proof fn lemma_sample_mix_push(assets: Assets, voices: Seq<SampleVoice>, k: int, i: nat)
    requires
        0 <= k < voices.len(),
    ensures
        sample_mix(assets, voices.take(k + 1), i) == sample_mix(assets, voices.take(k), i)
            + voices[k].sample_at(assets[voices[k].note], i),
{
    assert(voices.take(k + 1).drop_last() =~= voices.take(k));
}

/// The sum of `n` instances is within `n` times the largest PCM magnitude.
pub proof fn lemma_sample_mix_bound(assets: Assets, voices: Seq<SampleVoice>, i: nat)
    ensures
        -(voices.len() * PCM_BOUND) <= sample_mix(assets, voices, i) <= voices.len() * PCM_BOUND,
    decreases voices.len(),
{
    if voices.len() > 0 {
        lemma_sample_mix_bound(assets, voices.drop_last(), i);
    }
}

/// Without instances every frame is zero.
pub proof fn lemma_sample_mix_empty(assets: Assets, voices: Seq<SampleVoice>, i: nat)
    requires
        voices.len() == 0,
    ensures
        sample_mix(assets, voices, i) == 0,
{
}

/// A polyphonic one-shot sample player.
///
/// The player reads its assets from a store that it shares with whoever
/// else holds it; nothing can change a shared store. Its view is the
/// sequence of its playing instances.
pub struct SamplePlayer {
    store: Arc<SampleStore>,
    voices: Vec<SampleVoice>,
    sample_rate: u32,
}

impl View for SamplePlayer {
    type V = Seq<SampleVoice>;

    closed spec fn view(&self) -> Seq<SampleVoice> {
        self.voices@
    }
}

impl SamplePlayer {
    /// The loaded assets.
    pub closed spec fn assets(&self) -> Assets {
        self.store@
    }

    /// The sample rate that the player was last given.
    pub closed spec fn rate(&self) -> u32 {
        self.sample_rate
    }

    /// The shared store is well-formed.
    pub closed spec fn store_wf(&self) -> bool {
        self.store.wf()
    }

    /// At most `MAX_VOICES` instances play, and each of them is playing a
    /// loaded buffer.
    pub open spec fn wf(&self) -> bool {
        &&& self.store_wf()
        &&& self@.len() <= MAX_VOICES
        &&& forall|k: int| 0 <= k < self@.len() ==> playing(self.assets(), #[trigger] self@[k])
    }

    /// A player without assets and without playing instances, at the
    /// default sample rate.
    pub fn new() -> (player: SamplePlayer)
        ensures
            player.wf(),
            player@.len() == 0,
            player.assets() == Map::<u8, Seq<i16>>::empty(),
            player.rate() == DEFAULT_SAMPLE_RATE,
    {
        SamplePlayer {
            store: Arc::new(SampleStore::new()),
            voices: Vec::new(),
            sample_rate: DEFAULT_SAMPLE_RATE,
        }
    }

    /// A player over the assets of `store`, without playing instances, at
    /// the default sample rate.
    pub fn with_store(store: Arc<SampleStore>) -> (player: SamplePlayer)
        requires
            store.wf(),
        ensures
            player.wf(),
            player@.len() == 0,
            player.assets() == store@,
            player.rate() == DEFAULT_SAMPLE_RATE,
    {
        SamplePlayer { store, voices: Vec::new(), sample_rate: DEFAULT_SAMPLE_RATE }
    }

    /// The sample rate that the player was last given.
    pub fn sample_rate(&self) -> (rate: u32)
        ensures
            rate == self.rate(),
    {
        self.sample_rate
    }

    /// Number of playing instances.
    pub fn active_voices(&self) -> (n: usize)
        ensures
            n == self@.len(),
    {
        self.voices.len()
    }

    /// Playing instance `k`.
    pub fn voice(&self, k: usize) -> (voice: SampleVoice)
        requires
            k < self@.len(),
        ensures
            voice == self@[k as int],
    {
        self.voices[k]
    }

    /// Records the sample rate. Buffers are played as they are, one sample
    /// per frame, at any rate.
    pub fn set_sample_rate(&mut self, rate: u32)
        ensures
            final(self).rate() == rate,
            final(self)@ == old(self)@,
            final(self).assets() == old(self).assets(),
            old(self).wf() ==> final(self).wf(),
    {
        self.sample_rate = rate;
    }

    /// Starts a new playing instance of the buffer of `note`, and says
    /// whether it did.
    pub fn trigger(&mut self, note: u8) -> (started: bool)
        requires
            old(self).wf(),
        ensures
            final(self).wf(),
            final(self).rate() == old(self).rate(),
            final(self).assets() == old(self).assets(),
            final(self)@ == with_trigger(old(self).assets(), old(self)@, note),
            started == (final(self)@.len() == old(self)@.len() + 1),
    {
        if self.voices.len() >= MAX_VOICES {
            return false;
        }
        let len: usize = match self.store.get(note) {
            Some(pcm) => pcm.len(),
            None => 0,
        };
        let voice: SampleVoice = SampleVoice::trigger(note, len);
        if !voice.active {
            return false;
        }
        self.voices.push(voice);
        true
    }

    /// Applies one decoded event.
    pub fn handle_event(&mut self, event: NoteEvent)
        requires
            old(self).wf(),
        ensures
            final(self).wf(),
            final(self).rate() == old(self).rate(),
            final(self).assets() == old(self).assets(),
            final(self)@ == handled(old(self).assets(), old(self)@, event),
    {
        match event.kind {
            NoteKind::NoteOn => {
                let _ = self.trigger(event.note);
            },
            NoteKind::NoteOff => {},
        }
    }

    /// Decodes one raw message and applies it; a message that does not
    /// decode changes nothing.
    pub fn process_midi_event(&mut self, message: &[u8])
        requires
            old(self).wf(),
        ensures
            final(self).wf(),
            final(self).rate() == old(self).rate(),
            final(self).assets() == old(self).assets(),
            final(self)@ == applied(old(self).assets(), old(self)@, message@),
    {
        match decode(message) {
            Some(event) => self.handle_event(event),
            None => {},
        }
    }

    /// Renders one block: the block is zeroed, every playing instance
    /// yields one sample per frame until its buffer is exhausted, and the
    /// samples are added, as they are, to both channels. Exhausted instances
    /// are then removed, the others keeping their order.
    pub fn process(&mut self, block: &mut StereoBlock)
        requires
            old(self).wf(),
            old(block).wf(),
        ensures
            final(self).wf(),
            final(self).rate() == old(self).rate(),
            final(self).assets() == old(self).assets(),
            final(block).wf(),
            final(block)@.left.len() == old(block)@.left.len(),
            final(self)@ == survivors(old(self).assets(), old(self)@, old(block)@.left.len()),
            forall|i: int|
                0 <= i < final(block)@.left.len() ==> (#[trigger] final(block)@.left[i])
                    == sample_mix(old(self).assets(), old(self)@, i as nat),
            forall|i: int|
                0 <= i < final(block)@.right.len() ==> (#[trigger] final(block)@.right[i])
                    == sample_mix(old(self).assets(), old(self)@, i as nat),
            old(self)@.len() == 0 ==> final(block).is_silent(),
    {
        let ghost start = self@;
        let ghost assets = self.assets();
        block.clear();
        let frames: usize = block.frames();
        let count: usize = self.voices.len();
        let mut k: usize = 0;
        while k < count
            invariant
                k <= count,
                count == self.voices.len(),
                count <= MAX_VOICES,
                old(self).wf(),
                self.store_wf(),
                self.assets() == assets,
                self.rate() == old(self).rate(),
                block.wf(),
                start == old(self)@,
                assets == old(self).assets(),
                start.len() == count,
                block@.left.len() == frames,
                forall|j: int|
                    0 <= j < k ==> self@[j] == (#[trigger] start[j]).after(
                        assets[start[j].note],
                        frames as nat,
                    ),
                forall|j: int| k <= j < count ==> self@[j] == start[j],
                forall|i: int|
                    0 <= i < frames ==> (#[trigger] block@.left[i]) == sample_mix(
                        assets,
                        start.take(k as int),
                        i as nat,
                    ),
                forall|i: int|
                    0 <= i < frames ==> (#[trigger] block@.right[i]) == sample_mix(
                        assets,
                        start.take(k as int),
                        i as nat,
                    ),
            decreases count - k,
        {
            let mut voice: SampleVoice = self.voices[k];
            assert(playing(assets, start[k as int]));
            let pcm: &Vec<i16> = match self.store.get(voice.note) {
                Some(pcm) => pcm,
                None => {
                    k += 1;
                    continue;
                },
            };
            let mut i: usize = 0;
            while i < frames && voice.active
                invariant
                    i <= frames,
                    k < count,
                    count <= MAX_VOICES,
                    start.len() == count,
                    block.wf(),
                    block@.left.len() == frames,
                    playing(assets, start[k as int]),
                    pcm@ == assets[start[k as int].note],
                    start[k as int].wf_on(pcm@),
                    voice == start[k as int].after(pcm@, i as nat),
                    voice.wf_on(pcm@),
                    forall|j: int|
                        0 <= j < i ==> (#[trigger] block@.left[j]) == sample_mix(
                            assets,
                            start.take(k as int + 1),
                            j as nat,
                        ),
                    forall|j: int|
                        0 <= j < i ==> (#[trigger] block@.right[j]) == sample_mix(
                            assets,
                            start.take(k as int + 1),
                            j as nat,
                        ),
                    forall|j: int|
                        i <= j < frames ==> (#[trigger] block@.left[j]) == sample_mix(
                            assets,
                            start.take(k as int),
                            j as nat,
                        ),
                    forall|j: int|
                        i <= j < frames ==> (#[trigger] block@.right[j]) == sample_mix(
                            assets,
                            start.take(k as int),
                            j as nat,
                        ),
                decreases frames - i,
            {
                let sample: i16 = voice.next_sample(pcm.as_slice());
                proof {
                    start[k as int].lemma_after_step(pcm@, i as nat);
                    lemma_sample_mix_push(assets, start, k as int, i as nat);
                    lemma_sample_mix_bound(assets, start.take(k as int), i as nat);
                }
                block.accumulate(i, sample as i64);
                i += 1;
            }
            proof {
                assert forall|j: int| i <= j < frames implies sample_mix(
                    assets,
                    start.take(k as int + 1),
                    j as nat,
                ) == #[trigger] sample_mix(assets, start.take(k as int), j as nat) by {
                    lemma_sample_mix_push(assets, start, k as int, j as nat);
                }
            }
            self.voices.set(k, voice);
            k += 1;
        }
        let ghost moved = advanced_all(assets, start, frames as nat);
        assert(self@ =~= moved);
        assert(start.take(k as int) =~= start);
        let mut kept: usize = 0;
        let mut next: usize = 0;
        while next < count
            invariant
                kept <= next <= count,
                count == self.voices.len(),
                moved.len() == count,
                self.store_wf(),
                self.assets() == assets,
                self.rate() == old(self).rate(),
                self@.take(kept as int) == sounding(moved.take(next as int)),
                forall|j: int| next <= j < count ==> self@[j] == moved[j],
            decreases count - next,
        {
            let voice: SampleVoice = self.voices[next];
            assert(moved.take(next + 1).drop_last() =~= moved.take(next as int));
            if voice.active {
                self.voices.set(kept, voice);
                assert(self@.take(kept + 1) =~= sounding(moved.take(next as int)).push(voice));
                kept += 1;
            } else {
                assert(self@.take(kept as int) =~= sounding(moved.take(next as int)));
            }
            next += 1;
        }
        self.voices.truncate(kept);
        proof {
            assert(moved.take(next as int) =~= moved);
            assert(self@ =~= sounding(moved));
            lemma_sounding(moved);
            assert forall|j: int| 0 <= j < self@.len() implies playing(
                self.assets(),
                #[trigger] self@[j],
            ) by {
                let v = self@[j];
                let m = choose|m: int| 0 <= m < moved.len() && moved[m] == sounding(moved)[j];
                assert(playing(assets, start[m]));
            }
            if start.len() == 0 {
                assert forall|i: int| 0 <= i < frames implies (#[trigger] block@.left[i]) == 0 by {
                    lemma_sample_mix_empty(assets, start, i as nat);
                }
                assert forall|i: int| 0 <= i < frames implies (#[trigger] block@.right[i]) == 0 by {
                    lemma_sample_mix_empty(assets, start, i as nat);
                }
            }
        }
    }
}

} // verus!
