//! The playback cursor: ping-pong traversal over a baked frame sequence,
//! bouncing between the first and last frame instead of wrapping.
//!
//! Convention: each tick first flips the direction at either end, then
//! steps one frame in the (possibly new) direction. Starting at index 0
//! going forward, the first tick therefore lands on index 1.

use vstd::prelude::*;

verus! {

/// Position and direction of playback over `count` frames.
pub struct Cursor {
    pub index: usize,
    pub reverse: bool,
    pub count: usize,
}

/// The direction after a tick: backward at the top end, forward at the
/// bottom end, otherwise unchanged.
pub open spec fn next_reverse(index: int, reverse: bool, count: int) -> bool {
    if index >= count - 1 {
        true
    } else if index <= 0 {
        false
    } else {
        reverse
    }
}

/// The index after a tick: one step in the post-flip direction.
pub open spec fn next_index(index: int, reverse: bool, count: int) -> int {
    if next_reverse(index, reverse, count) {
        index - 1
    } else {
        index + 1
    }
}

impl Cursor {
    /// The cursor stays between the first and last frame.
    pub open spec fn wf(&self) -> bool {
        &&& self.count >= 1
        &&& self.index < self.count
    }

    /// Start at the first frame, going forward.
    pub fn new(count: usize) -> (c: Cursor)
        requires
            count >= 1,
        ensures
            c.wf(),
            c.count == count,
            c.index == 0,
            !c.reverse,
    {
        Cursor { index: 0, reverse: false, count }
    }

    /// Advance one tick: flip the direction at either end, then step.
    /// With a single frame there is nowhere to step; the cursor stays put.
    pub fn tick(&mut self)
        requires
            old(self).wf(),
        ensures
            final(self).wf(),
            final(self).count == old(self).count,
            old(self).count == 1 ==> final(self).index == old(self).index && final(self).reverse
                == old(self).reverse,
            old(self).count > 1 ==> final(self).reverse == next_reverse(
                old(self).index as int,
                old(self).reverse,
                old(self).count as int,
            ),
            old(self).count > 1 ==> final(self).index as int == next_index(
                old(self).index as int,
                old(self).reverse,
                old(self).count as int,
            ),
    {
        if self.count == 1 {
            return ;
        }
        if self.index >= self.count - 1 {
            self.reverse = true;
        } else if self.index == 0 {
            self.reverse = false;
        }
        if self.reverse {
            self.index = self.index - 1;
        } else {
            self.index = self.index + 1;
        }
    }
}

/// Ping-pong traversal never leaves the frame range and reverses exactly
/// at the two ends: stepping from the last frame turns backward, and
/// stepping from the first frame turns forward.
pub proof fn lemma_ping_pong(index: int, reverse: bool, count: int)
    requires
        count >= 2,
        0 <= index < count,
    ensures
        0 <= next_index(index, reverse, count) < count,
        index == count - 1 ==> next_reverse(index, reverse, count) && next_index(
            index,
            reverse,
            count,
        ) == count - 2,
        index == 0 ==> !next_reverse(index, reverse, count) && next_index(index, reverse, count)
            == 1,
{
}

} // verus!
