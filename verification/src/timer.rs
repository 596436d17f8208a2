use vstd::prelude::*;

use crate::stopper::Stopper;

verus! {

/// Length of the one-shot round countdown, in milliseconds.
pub const ROUND_MS: u64 = 60_000;

/// The round countdown: absent until the first shape is locked, then
/// counting down once, then finished for good.
#[derive(Clone, Copy, PartialEq, Eq, Structural, Debug)]
pub enum MinuteTimer {
    NotStarted,
    Running(u64),
    Finished,
}

impl MinuteTimer {
    /// A running countdown holds between one millisecond and the full round
    /// length; at zero it would already be finished.
    pub open spec fn wf(self) -> bool {
        match self {
            MinuteTimer::Running(rem) => 1 <= rem <= ROUND_MS,
            _ => true,
        }
    }
}

/// One frame of the countdown: while it runs it ticks down by the frame
/// delta, and on reaching zero it finishes and forces the round over; while
/// absent it starts, without ticking, the frame after the round first stands
/// at `Under(1)`; once finished it stays finished.
pub open spec fn spec_timer_step(st: Stopper, t: MinuteTimer, d: int) -> (Stopper, MinuteTimer) {
    match t {
        MinuteTimer::Running(rem) => if d >= rem {
            (Stopper::Done, MinuteTimer::Finished)
        } else {
            (st, MinuteTimer::Running((rem - d) as u64))
        },
        MinuteTimer::NotStarted => if st == Stopper::Under(1) {
            (st, MinuteTimer::Running(ROUND_MS))
        } else {
            (st, t)
        },
        MinuteTimer::Finished => (st, t),
    }
}

/// Drive the countdown by one frame of `d` milliseconds.
pub fn minute_timer(stopper: &mut Stopper, timer: &mut MinuteTimer, d: u64)
    requires
        old(timer).wf(),
    ensures
        (*final(stopper), *final(timer)) == spec_timer_step(*old(stopper), *old(timer), d as int),
        final(timer).wf(),
        old(stopper).wf() ==> final(stopper).wf(),
{
    match *timer {
        MinuteTimer::Running(rem) => {
            if d >= rem {
                *stopper = Stopper::Done;
                *timer = MinuteTimer::Finished;
            } else {
                *timer = MinuteTimer::Running(rem - d);
            }
        },
        MinuteTimer::NotStarted => {
            if *stopper == Stopper::Under(1) {
                *timer = MinuteTimer::Running(ROUND_MS);
            }
        },
        MinuteTimer::Finished => {},
    }
}

} // verus!
