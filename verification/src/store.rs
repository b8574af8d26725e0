//! The sample asset store: decoded PCM buffers, one per note number.
//!
//! A buffer is loaded once and never changed afterwards, so every playing
//! instance can read it while holding nothing but its own cursor.

use vstd::prelude::*;

verus! {

/// Number of note numbers that an asset can be stored under.
pub const NOTE_SLOTS: usize = 256;

/// Decoded PCM for one note.
pub struct SampleAsset {
    /// The note that plays this buffer.
    pub note: u8,
    /// The samples, in playing order.
    pub pcm: Vec<i16>,
}

/// The loaded assets, indexed by note number.
///
/// Its view maps each note that has an asset to that asset's samples.
pub struct SampleStore {
    slots: Vec<Option<Vec<i16>>>,
}

impl View for SampleStore {
    type V = Map<u8, Seq<i16>>;

    closed spec fn view(&self) -> Map<u8, Seq<i16>> {
        Map::new(
            |note: u8| note < self.slots.len() && self.slots[note as int] is Some,
            |note: u8| self.slots[note as int]->0@,
        )
    }
}

impl SampleStore {
    /// The store has a slot for every note number.
    pub closed spec fn wf(&self) -> bool {
        self.slots.len() == NOTE_SLOTS
    }

    /// A store without assets.
    pub fn new() -> (store: SampleStore)
        ensures
            store.wf(),
            store@ == Map::<u8, Seq<i16>>::empty(),
    {
        let mut slots: Vec<Option<Vec<i16>>> = Vec::new();
        let mut k: usize = 0;
        while k < NOTE_SLOTS
            invariant
                k <= NOTE_SLOTS,
                slots.len() == k,
                forall|j: int| 0 <= j < k ==> slots[j] is None,
            decreases NOTE_SLOTS - k,
        {
            slots.push(None);
            k += 1;
        }
        let store = SampleStore { slots };
        assert(store@ =~= Map::<u8, Seq<i16>>::empty());
        store
    }

    /// Whether an asset is loaded for `note`.
    pub fn contains(&self, note: u8) -> (found: bool)
        requires
            self.wf(),
        ensures
            found == self@.contains_key(note),
    {
        self.slots[note as usize].is_some()
    }

    /// The samples loaded for `note`, if any.
    pub fn get(&self, note: u8) -> (pcm: Option<&Vec<i16>>)
        requires
            self.wf(),
        ensures
            match pcm {
                Some(samples) => self@.contains_key(note) && self@[note] == samples@,
                None => !self@.contains_key(note),
            },
    {
        self.slots[note as usize].as_ref()
    }

    /// Loads an asset under its note. A note that already has an asset keeps
    /// it: the call then changes nothing and returns `false`.
    pub fn insert(&mut self, asset: SampleAsset) -> (loaded: bool)
        requires
            old(self).wf(),
        ensures
            final(self).wf(),
            loaded == !old(self)@.contains_key(asset.note),
            loaded ==> final(self)@ == old(self)@.insert(asset.note, asset.pcm@),
            !loaded ==> final(self)@ == old(self)@,
    {
        let note: usize = asset.note as usize;
        if self.slots[note].is_some() {
            return false;
        }
        self.slots.set(note, Some(asset.pcm));
        assert(self@ =~= old(self)@.insert(asset.note, asset.pcm@));
        true
    }
}

} // verus!
