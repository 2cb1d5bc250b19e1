//! Keeps frames at 60 Hz.

use vstd::prelude::*;

verus! {

/// Nanoseconds per frame.
pub const FRAME_NS: u64 = 16666667;

/// When the next frame is due, in nanoseconds.
pub struct Pacer {
    pub next_frame_time: u64,
}

/// The due time of the next frame. Frames that are up to three frames late are caught
/// up with; beyond that the schedule starts over.
pub open spec fn rescheduled(due: int, now: int) -> int {
    if now - (due + FRAME_NS) > 3 * FRAME_NS {
        now
    } else {
        due + FRAME_NS
    }
}

/// How long to wait for the next frame.
pub open spec fn wait_for(due: int, now: int) -> int {
    if due + FRAME_NS > now {
        due + FRAME_NS - now
    } else {
        0
    }
}

impl Pacer {
    pub fn new(now: u64) -> (p: Pacer)
        ensures
            p.next_frame_time == now,
    {
        Pacer { next_frame_time: now }
    }

    /// Called when a frame is done: returns how many nanoseconds to wait.
    pub fn frame_done(&mut self, now: u64) -> (wait: u64)
        requires
            old(self).next_frame_time <= u64::MAX - FRAME_NS,
        ensures
            wait == wait_for(old(self).next_frame_time as int, now as int),
            final(self).next_frame_time == rescheduled(
                old(self).next_frame_time as int,
                now as int,
            ),
    {
        self.next_frame_time = self.next_frame_time + FRAME_NS;
        if self.next_frame_time > now {
            self.next_frame_time - now
        } else {
            if now - self.next_frame_time > 3 * FRAME_NS {
                self.next_frame_time = now;
            }
            0
        }
    }
}

/// Due time and clock after frames that took `work` nanoseconds each.
pub open spec fn after_frames(due: int, now: int, work: Seq<int>) -> (int, int)
    decreases work.len(),
{
    if work.len() == 0 {
        (due, now)
    } else {
        let before = after_frames(due, now, work.drop_last());
        let done = before.1 + work.last();
        (rescheduled(before.0, done), done + wait_for(before.0, done))
    }
}

/// As long as no frame takes longer than its time, frames do not drift: the clock
/// stands exactly where the schedule does.
pub proof fn pacing_does_not_drift(start: int, work: Seq<int>)
    requires
        forall|i: int| 0 <= i < work.len() ==> 0 <= #[trigger] work[i] <= FRAME_NS,
    ensures
        after_frames(start, start, work) == (
            start + work.len() * FRAME_NS,
            start + work.len() * FRAME_NS,
        ),
    decreases work.len(),
{
    if work.len() > 0 {
        pacing_does_not_drift(start, work.drop_last());
        assert(work.last() == work[work.len() - 1]);
        assert(work.len() * FRAME_NS == (work.len() - 1) * FRAME_NS + FRAME_NS) by (nonlinear_arith)
            requires
                work.len() > 0,
        ;
    }
}

} // verus!
