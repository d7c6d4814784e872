//! The frame counter by which idle entries age.

use vstd::prelude::*;

verus! {

/// A counter of frames that only grows.
#[derive(Debug)]
pub struct FrameCounter {
    frame: u64,
}

impl FrameCounter {
    /// The current frame.
    pub closed spec fn frame(&self) -> u64 {
        self.frame
    }

    /// A counter before its first frame.
    pub fn new() -> (counter: Self)
        ensures
            counter.frame() == 0,
    {
        FrameCounter { frame: 0 }
    }
}

/// Moves the counter on by one frame and returns the new frame.
pub fn bump_frame_counter(counter: &mut FrameCounter) -> (frame: u64)
    requires
        old(counter).frame() < u64::MAX,
    ensures
        was_bumped(*old(counter), *final(counter), frame),
        frame == old(counter).frame() + 1,
        final(counter).frame() == frame,
{
    counter.frame = counter.frame + 1;
    counter.frame
}

/// The current frame; the counter stays where it is.
pub fn current_frame_counter(counter: &FrameCounter) -> (frame: u64)
    ensures
        frame == counter.frame(),
{
    counter.frame
}

/// What moving a counter on does.
pub open spec fn was_bumped(before: FrameCounter, after: FrameCounter, frame: u64) -> bool {
    after.frame() == before.frame() + 1 && frame == after.frame()
}

/// Frames are numbered one after the other: after so many bumps the counter is that many frames
/// on, each bump tells the frame that it moved to, and no frame comes twice.
pub proof fn law_frames_are_numbered_one_after_the_other(
    counters: Seq<FrameCounter>,
    frames: Seq<u64>,
    i: int,
)
    requires
        counters.len() == frames.len() + 1,
        forall|k: int|
            0 <= k < frames.len() ==> was_bumped(
                counters[k],
                counters[k + 1],
                #[trigger] frames[k],
            ),
        0 <= i < counters.len(),
    ensures
        counters[i].frame() == counters[0].frame() + i,
        0 < i ==> frames[i - 1] == counters[0].frame() + i,
    decreases i,
{
    if i > 0 {
        law_frames_are_numbered_one_after_the_other(counters, frames, i - 1);
        assert(was_bumped(counters[i - 1], counters[i], frames[i - 1]));
    }
}

} // verus!
