//! The two-channel block that an engine renders into.

use vstd::prelude::*;

verus! {

/// What a [`StereoBlock`] holds: one sequence of samples per channel.
pub struct BlockView {
    pub left: Seq<i64>,
    pub right: Seq<i64>,
}

/// A block of audio frames in two channels of equal length.
pub struct StereoBlock {
    left: Vec<i64>,
    right: Vec<i64>,
}

impl View for StereoBlock {
    type V = BlockView;

    closed spec fn view(&self) -> BlockView {
        BlockView { left: self.left@, right: self.right@ }
    }
}

impl StereoBlock {
    /// Both channels hold the same number of frames.
    pub open spec fn wf(&self) -> bool {
        self@.left.len() == self@.right.len()
    }

    /// Whether every sample of both channels is zero.
    pub open spec fn is_silent(&self) -> bool {
        &&& forall|i: int| 0 <= i < self@.left.len() ==> self@.left[i] == 0
        &&& forall|i: int| 0 <= i < self@.right.len() ==> self@.right[i] == 0
    }

    /// A silent block of `frames` frames.
    pub fn new(frames: usize) -> (block: StereoBlock)
        ensures
            block.wf(),
            block@.left.len() == frames,
            block@.right.len() == frames,
            block.is_silent(),
    {
        let mut left: Vec<i64> = Vec::new();
        let mut right: Vec<i64> = Vec::new();
        let mut i: usize = 0;
        while i < frames
            invariant
                i <= frames,
                left.len() == i,
                right.len() == i,
                forall|j: int| 0 <= j < i ==> left[j] == 0,
                forall|j: int| 0 <= j < i ==> right[j] == 0,
            decreases frames - i,
        {
            left.push(0);
            right.push(0);
            i += 1;
        }
        StereoBlock { left, right }
    }

    /// Number of frames in the block.
    pub fn frames(&self) -> (n: usize)
        ensures
            n == self@.left.len(),
    {
        self.left.len()
    }

    /// The left channel.
    pub fn left(&self) -> (samples: &Vec<i64>)
        ensures
            samples@ == self@.left,
    {
        &self.left
    }

    /// The right channel.
    pub fn right(&self) -> (samples: &Vec<i64>)
        ensures
            samples@ == self@.right,
    {
        &self.right
    }

    /// Sets every sample of both channels to zero.
    pub fn clear(&mut self)
        requires
            old(self).wf(),
        ensures
            final(self).wf(),
            final(self)@.left.len() == old(self)@.left.len(),
            final(self)@.right.len() == old(self)@.right.len(),
            final(self).is_silent(),
    {
        let n: usize = self.left.len();
        let mut i: usize = 0;
        while i < n
            invariant
                i <= n,
                self.left.len() == n,
                self.right.len() == n,
                forall|j: int| 0 <= j < i ==> self.left[j] == 0,
                forall|j: int| 0 <= j < i ==> self.right[j] == 0,
            decreases n - i,
        {
            self.left.set(i, 0);
            self.right.set(i, 0);
            i += 1;
        }
    }

    /// Adds `value` to frame `i` of both channels.
    pub fn accumulate(&mut self, i: usize, value: i64)
        requires
            old(self).wf(),
            i < old(self)@.left.len(),
            i64::MIN <= old(self)@.left[i as int] + value <= i64::MAX,
            i64::MIN <= old(self)@.right[i as int] + value <= i64::MAX,
        ensures
            final(self).wf(),
            final(self)@.left == old(self)@.left.update(i as int, (old(self)@.left[i as int] + value) as i64),
            final(self)@.right == old(self)@.right.update(i as int, (old(self)@.right[i as int] + value) as i64),
    {
        let l: i64 = self.left[i];
        let r: i64 = self.right[i];
        self.left.set(i, l + value);
        self.right.set(i, r + value);
    }
}

} // verus!
