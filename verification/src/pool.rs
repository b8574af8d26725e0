//! The allocation rules of the oscillator pool, as functions on the
//! sequence of its voices.

use vstd::prelude::*;
use crate::event::{decoded, NoteEvent, NoteKind};
use crate::voice::Voice;

verus! {

/// Index of the first silent voice, if there is one.
pub open spec fn first_free(voices: Seq<Voice>) -> Option<int>
    decreases voices.len(),
{
    if voices.len() == 0 {
        None
    } else {
        match first_free(voices.drop_last()) {
            Some(k) => Some(k),
            None => if voices.last().active {
                None
            } else {
                Some(voices.len() - 1)
            },
        }
    }
}

/// Number of sounding voices.
pub open spec fn active_count(voices: Seq<Voice>) -> nat
    decreases voices.len(),
{
    if voices.len() == 0 {
        0
    } else {
        active_count(voices.drop_last()) + if voices.last().active {
            1nat
        } else {
            0nat
        }
    }
}

/// A voice as `note_on` leaves it.
pub open spec fn started(voice: Voice, note: u8, velocity: u8) -> Voice {
    Voice { active: true, note, velocity, phase: 0, sample_rate: voice.sample_rate }
}

/// A voice as a release of `note` leaves it.
pub open spec fn released_voice(voice: Voice, note: u8) -> Voice {
    if voice.active && voice.note == note {
        Voice { active: false, ..voice }
    } else {
        voice
    }
}

/// The pool after a note-on: the first silent voice is started; a pool
/// without a silent voice stays as it is.
pub open spec fn with_note_on(voices: Seq<Voice>, note: u8, velocity: u8) -> Seq<Voice> {
    match first_free(voices) {
        Some(k) => voices.update(k, started(voices[k], note, velocity)),
        None => voices,
    }
}

/// The pool after a release of `note`: every sounding voice on that note is
/// silenced, and no other voice changes.
pub open spec fn released(voices: Seq<Voice>, note: u8) -> Seq<Voice> {
    Seq::new(voices.len(), |i: int| released_voice(voices[i], note))
}

/// The pool after one event. A note-on of velocity zero is a release.
pub open spec fn handled(voices: Seq<Voice>, event: NoteEvent) -> Seq<Voice> {
    match event.kind {
        NoteKind::NoteOn => if event.velocity > 0 {
            with_note_on(voices, event.note, event.velocity)
        } else {
            released(voices, event.note)
        },
        NoteKind::NoteOff => released(voices, event.note),
    }
}

/// The pool after one raw message; a message that does not decode changes
/// nothing.
pub open spec fn applied(voices: Seq<Voice>, message: Seq<u8>) -> Seq<Voice> {
    match decoded(message) {
        Some(event) => handled(voices, event),
        None => voices,
    }
}

/// The pool after a batch of raw messages, applied in order of arrival.
pub open spec fn applied_all(voices: Seq<Voice>, batch: Seq<Seq<u8>>) -> Seq<Voice>
    decreases batch.len(),
{
    if batch.len() == 0 {
        voices
    } else {
        applied(applied_all(voices, batch.drop_last()), batch.last())
    }
}

/// `first_free` names the lowest index of a silent voice, and names none
/// exactly when every voice sounds.
pub proof fn lemma_first_free(voices: Seq<Voice>)
    ensures
        match first_free(voices) {
            Some(k) => {
                &&& 0 <= k < voices.len()
                &&& !voices[k].active
                &&& forall|j: int| 0 <= j < k ==> voices[j].active
            },
            None => forall|j: int| 0 <= j < voices.len() ==> voices[j].active,
        },
    decreases voices.len(),
{
    if voices.len() > 0 {
        let front = voices.drop_last();
        lemma_first_free(front);
        assert(forall|j: int| 0 <= j < front.len() ==> front[j] == voices[j]);
    }
}

/// The count of sounding voices never exceeds the size of the pool, and
/// reaches it exactly when no voice is silent.
pub proof fn lemma_active_count(voices: Seq<Voice>)
    ensures
        active_count(voices) <= voices.len(),
        active_count(voices) == voices.len() <==> first_free(voices) is None,
        active_count(voices) == 0 <==> forall|j: int| 0 <= j < voices.len() ==> !voices[j].active,
    decreases voices.len(),
{
    if voices.len() > 0 {
        let front = voices.drop_last();
        lemma_active_count(front);
        lemma_first_free(front);
        assert(forall|j: int| 0 <= j < front.len() ==> front[j] == voices[j]);
        if active_count(voices) == 0 {
            assert forall|j: int| 0 <= j < voices.len() implies !voices[j].active by {
                if j < front.len() {
                    assert(front[j] == voices[j]);
                }
            }
        }
    }
}

/// Changing one voice changes the count of sounding voices by that voice's
/// share.
pub proof fn lemma_active_count_update(voices: Seq<Voice>, k: int, voice: Voice)
    requires
        0 <= k < voices.len(),
    ensures
        active_count(voices.update(k, voice)) + (if voices[k].active { 1int } else { 0int })
            == active_count(voices) + (if voice.active { 1int } else { 0int }),
    decreases voices.len(),
{
    let changed = voices.update(k, voice);
    if k == voices.len() - 1 {
        assert(changed.drop_last() =~= voices.drop_last());
    } else {
        lemma_active_count_update(voices.drop_last(), k, voice);
        assert(changed.drop_last() =~= voices.drop_last().update(k, voice));
    }
}

/// A note-on into a pool with a silent voice adds one sounding voice; into
/// a full pool it changes nothing. Either way the pool keeps its size.
pub proof fn lemma_note_on_count(voices: Seq<Voice>, note: u8, velocity: u8)
    ensures
        with_note_on(voices, note, velocity).len() == voices.len(),
        active_count(voices) < voices.len() ==> active_count(
            with_note_on(voices, note, velocity),
        ) == active_count(voices) + 1,
        active_count(voices) == voices.len() ==> with_note_on(voices, note, velocity) == voices,
        active_count(with_note_on(voices, note, velocity)) <= voices.len(),
{
    lemma_first_free(voices);
    lemma_active_count(voices);
    lemma_active_count(with_note_on(voices, note, velocity));
    match first_free(voices) {
        Some(k) => {
            lemma_active_count_update(voices, k, started(voices[k], note, velocity));
        },
        None => {},
    }
}

/// After a release of `note` no sounding voice is on that note, however many
/// were before.
pub proof fn lemma_release_silences_all(voices: Seq<Voice>, note: u8)
    ensures
        released(voices, note).len() == voices.len(),
        forall|j: int|
            0 <= j < voices.len() ==> !(#[trigger] released(voices, note)[j].active && released(
                voices,
                note,
            )[j].note == note),
        forall|j: int|
            0 <= j < voices.len() && !(voices[j].active && voices[j].note == note)
                ==> #[trigger] released(voices, note)[j] == voices[j],
{
}

/// A release of a note that no sounding voice is on changes nothing, and a
/// second release of the same note changes nothing more.
pub proof fn lemma_release_idempotent(voices: Seq<Voice>, note: u8)
    ensures
        (forall|j: int| 0 <= j < voices.len() ==> !(voices[j].active && voices[j].note == note))
            ==> released(voices, note) == voices,
        released(released(voices, note), note) == released(voices, note),
{
    if forall|j: int| 0 <= j < voices.len() ==> !(voices[j].active && voices[j].note == note) {
        assert(released(voices, note) =~= voices);
    }
    assert(released(released(voices, note), note) =~= released(voices, note));
}

/// No event makes the pool larger or smaller, and after it no more voices
/// sound than the pool holds.
pub proof fn lemma_handled_capacity(voices: Seq<Voice>, event: NoteEvent)
    ensures
        handled(voices, event).len() == voices.len(),
        active_count(handled(voices, event)) <= voices.len(),
{
    lemma_first_free(voices);
    lemma_active_count(handled(voices, event));
}

/// Whatever messages arrive, in whatever number, the pool keeps its size
/// and no more voices sound than it holds.
pub proof fn lemma_capacity_holds(voices: Seq<Voice>, batch: Seq<Seq<u8>>)
    ensures
        applied_all(voices, batch).len() == voices.len(),
        active_count(applied_all(voices, batch)) <= voices.len(),
    decreases batch.len(),
{
    lemma_active_count(voices);
    if batch.len() > 0 {
        let before = applied_all(voices, batch.drop_last());
        lemma_capacity_holds(voices, batch.drop_last());
        match decoded(batch.last()) {
            Some(event) => lemma_handled_capacity(before, event),
            None => {},
        }
    }
}

} // verus!
