use vstd::prelude::*;

use crate::stopper::{Stopper, NUM_SHAPES};
use crate::timer::MinuteTimer;

verus! {

/// The discrete, edge-triggered events the input source hands the core:
/// lock the live shape, start the round over, or hand the row to the next
/// player.
#[derive(Clone, Copy, PartialEq, Eq, Structural, Debug)]
pub enum InputEvent {
    Advance,
    ResetRound,
    NextRound,
}

/// A row of empty per-shape score texts.
pub open spec fn spec_blank_texts() -> Seq<Option<u32>> {
    Seq::new(NUM_SHAPES as nat, |i: int| None::<u32>)
}

/// How one event moves the round.  An advance locks the live shape (and is a
/// no-op once `Done`).  A reset starts the round over and blanks the score
/// texts, unless the countdown has already finished, which locks the round;
/// a not-yet-started countdown does not block it.  A next-round event starts
/// over, blanks the texts and clears the countdown, unconditionally.
pub open spec fn spec_input_step(
    st: Stopper,
    t: MinuteTimer,
    texts: Seq<Option<u32>>,
    e: Option<InputEvent>,
) -> (Stopper, MinuteTimer, Seq<Option<u32>>) {
    match e {
        None => (st, t, texts),
        Some(InputEvent::Advance) => (st.spec_next(), t, texts),
        Some(InputEvent::ResetRound) => if t == MinuteTimer::Finished {
            (st, t, texts)
        } else {
            (Stopper::Under(0), t, spec_blank_texts())
        },
        Some(InputEvent::NextRound) => (Stopper::Under(0), MinuteTimer::NotStarted, spec_blank_texts()),
    }
}

/// Blank every per-shape score text.
fn clear_texts(texts: &mut Vec<Option<u32>>)
    requires
        old(texts).len() == NUM_SHAPES as usize,
    ensures
        final(texts)@ == spec_blank_texts(),
{
    let mut i: usize = 0;
    while i < NUM_SHAPES as usize
        invariant
            i <= NUM_SHAPES as usize,
            texts.len() == NUM_SHAPES as usize,
            forall|j: int| 0 <= j < i as int ==> #[trigger] texts@[j] is None,
        decreases NUM_SHAPES as usize - i,
    {
        texts.set(i, None);
        i = i + 1;
    }
    proof {
        assert(texts@ =~= spec_blank_texts());
    }
}

/// Apply one frame's input event, if any, to the round.
pub fn key_input(
    stopper: &mut Stopper,
    timer: &mut MinuteTimer,
    texts: &mut Vec<Option<u32>>,
    e: Option<InputEvent>,
)
    requires
        old(stopper).wf(),
        old(texts).len() == NUM_SHAPES as usize,
    ensures
        (*final(stopper), *final(timer), final(texts)@) == spec_input_step(
            *old(stopper),
            *old(timer),
            old(texts)@,
            e,
        ),
        final(stopper).wf(),
        final(texts).len() == NUM_SHAPES as usize,
{
    match e {
        None => {},
        Some(InputEvent::Advance) => {
            stopper.next();
        },
        Some(InputEvent::ResetRound) => {
            let finished = matches!(*timer, MinuteTimer::Finished);
            if !finished {
                *stopper = Stopper::Under(0);
                clear_texts(texts);
            }
        },
        Some(InputEvent::NextRound) => {
            *timer = MinuteTimer::NotStarted;
            *stopper = Stopper::Under(0);
            clear_texts(texts);
        },
    }
}

} // verus!
