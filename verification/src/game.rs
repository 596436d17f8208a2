use vstd::prelude::*;

use crate::input::{key_input, spec_blank_texts, spec_input_step, InputEvent};
use crate::rotation::{rotate, spec_rotate_all, ORIENT_LIMIT};
use crate::score::{spec_aggregate, spec_texts_after, update_score};
use crate::stopper::{Stopper, NUM_SHAPES};
use crate::timer::{minute_timer, spec_timer_step, MinuteTimer};

verus! {

/// The whole game state as the contracts see it.
#[verifier::ext_equal]
pub struct StateView {
    pub stopper: Stopper,
    pub timer: MinuteTimer,
    pub orientations: Seq<i128>,
    pub texts: Seq<Option<u32>>,
    pub aggregate: u32,
    pub highlight: bool,
}

impl StateView {
    pub open spec fn wf(self) -> bool {
        &&& self.stopper.wf()
        &&& self.timer.wf()
        &&& self.orientations.len() == NUM_SHAPES as int
        &&& self.texts.len() == NUM_SHAPES as int
        &&& forall|k: int|
            0 <= k < NUM_SHAPES as int ==> -ORIENT_LIMIT <= #[trigger] self.orientations[k]
                <= ORIENT_LIMIT
    }
}

/// The state of a fresh round: nothing locked, countdown absent, every shape
/// flat on its side (orientation zero, a quarter turn from both targets), no
/// score text, aggregate zero, no highlight.
pub open spec fn spec_initial() -> StateView {
    StateView {
        stopper: Stopper::Under(0),
        timer: MinuteTimer::NotStarted,
        orientations: Seq::new(NUM_SHAPES as nat, |i: int| 0i128),
        texts: spec_blank_texts(),
        aggregate: 0,
        highlight: false,
    }
}

/// One frame, in the fixed order: countdown first, then the frame's input
/// event, then rotation under the already-updated progression, then scoring
/// from the already-updated orientations.  The aggregate highlight turns on
/// once the round stands at `Done` and then stays.
pub open spec fn spec_tick(v: StateView, e: Option<InputEvent>, d: int) -> StateView {
    let (st1, t1) = spec_timer_step(v.stopper, v.timer, d);
    let (st2, t2, tx2) = spec_input_step(st1, t1, v.texts, e);
    let or3 = spec_rotate_all(v.orientations, st2.spec_level(), d);
    StateView {
        stopper: st2,
        timer: t2,
        orientations: or3,
        texts: spec_texts_after(st2, or3, tx2),
        aggregate: spec_aggregate(or3) as u32,
        highlight: v.highlight || st2 == Stopper::Done,
    }
}

/// After any tick the aggregate equals the round-half-to-even total over
/// every shape, locked or not: the lock state never enters it.
pub proof fn lemma_tick_aggregate(v: StateView, e: Option<InputEvent>, d: int)
    ensures
        spec_tick(v, e, d).aggregate == spec_aggregate(spec_tick(v, e, d).orientations) as u32,
{
}

/// The game state a renderer reads each frame: the round's progression, the
/// countdown, every shape's orientation, the per-shape score texts, the
/// aggregate score and its highlight flag.
pub struct GameState {
    stopper: Stopper,
    timer: MinuteTimer,
    orientations: Vec<i128>,
    texts: Vec<Option<u32>>,
    aggregate: u32,
    highlight: bool,
}

impl View for GameState {
    type V = StateView;

    closed spec fn view(&self) -> StateView {
        StateView {
            stopper: self.stopper,
            timer: self.timer,
            orientations: self.orientations@,
            texts: self.texts@,
            aggregate: self.aggregate,
            highlight: self.highlight,
        }
    }
}

impl GameState {
    /// Set up a fresh round.
    pub fn new() -> (s: GameState)
        ensures
            s@ == spec_initial(),
            s@.wf(),
    {
        let mut orientations: Vec<i128> = Vec::new();
        let mut texts: Vec<Option<u32>> = Vec::new();
        let mut i: usize = 0;
        while i < NUM_SHAPES as usize
            invariant
                i <= NUM_SHAPES as usize,
                orientations.len() == i,
                texts.len() == i,
                forall|j: int| 0 <= j < i as int ==> #[trigger] orientations@[j] == 0i128,
                forall|j: int| 0 <= j < i as int ==> #[trigger] texts@[j] is None,
            decreases NUM_SHAPES as usize - i,
        {
            orientations.push(0);
            texts.push(None);
            i = i + 1;
        }
        let s = GameState {
            stopper: Stopper::Under(0),
            timer: MinuteTimer::NotStarted,
            orientations,
            texts,
            aggregate: 0,
            highlight: false,
        };
        proof {
            assert(s@ =~= spec_initial());
        }
        s
    }

    /// One frame: the optional input event of the frame, and the frame
    /// clock's elapsed milliseconds.
    pub fn tick(&mut self, e: Option<InputEvent>, d: u64)
        requires
            old(self)@.wf(),
        ensures
            final(self)@ == spec_tick(old(self)@, e, d as int),
            final(self)@.wf(),
    {
        minute_timer(&mut self.stopper, &mut self.timer, d);
        key_input(&mut self.stopper, &mut self.timer, &mut self.texts, e);
        rotate(&self.stopper, &mut self.orientations, d);
        self.aggregate = update_score(&self.stopper, &self.orientations, &mut self.texts);
        if matches!(self.stopper, Stopper::Done) {
            self.highlight = true;
        }
        proof {
            assert(self@ =~= spec_tick(old(self)@, e, d as int));
        }
    }

    /// The round's progression.
    pub fn stopper(&self) -> (r: Stopper)
        ensures
            r == self@.stopper,
    {
        self.stopper
    }

    /// The countdown's phase: not yet started, remaining milliseconds, or
    /// finished.
    pub fn timer(&self) -> (r: MinuteTimer)
        ensures
            r == self@.timer,
    {
        self.timer
    }

    /// Orientation of shape `i`, in orientation units.
    pub fn orientation(&self, i: usize) -> (r: i128)
        requires
            self@.wf(),
            i < NUM_SHAPES as usize,
        ensures
            r == self@.orientations[i as int],
    {
        self.orientations[i]
    }

    /// Displayed score text of shape `i`: its whole points once displayed,
    /// nothing while hidden.
    pub fn score_text(&self, i: usize) -> (r: Option<u32>)
        requires
            self@.wf(),
            i < NUM_SHAPES as usize,
        ensures
            r == self@.texts[i as int],
    {
        self.texts[i]
    }

    /// The displayed aggregate score, in whole points.
    pub fn aggregate_score(&self) -> (r: u32)
        ensures
            r == self@.aggregate,
    {
        self.aggregate
    }

    /// Whether the aggregate score is shown in the end-of-round highlight
    /// colour.
    pub fn aggregate_highlight(&self) -> (r: bool)
        ensures
            r == self@.highlight,
    {
        self.highlight
    }
}

} // verus!
