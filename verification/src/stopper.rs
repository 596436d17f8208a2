use vstd::prelude::*;

verus! {

/// Number of shape slots in a round.
pub const NUM_SHAPES: u8 = 10;

/// Progression of a round.  `Under(n)` means shapes with index below `n` are
/// locked and shape `n` is the live one; `Done` means every shape is locked
/// and the round is over.
#[derive(Clone, Copy, PartialEq, Eq, Structural, Debug)]
pub enum Stopper {
    Done,
    Under(u8),
}

impl Stopper {
    /// An `Under` level never exceeds the last shape index.
    pub open spec fn wf(self) -> bool {
        match self {
            Stopper::Done => true,
            Stopper::Under(n) => n < NUM_SHAPES,
        }
    }

    /// Lowest shape index that still rotates: `n` under `Under(n)`, and
    /// `NUM_SHAPES` (nothing rotates) once `Done`.
    pub open spec fn spec_level(self) -> int {
        match self {
            Stopper::Done => NUM_SHAPES as int,
            Stopper::Under(n) => n as int,
        }
    }

    /// The state one advance event later: `Under(n)` steps to `Under(n + 1)`,
    /// the last level steps to `Done`, and `Done` is absorbing.
    pub open spec fn spec_next(self) -> Stopper {
        match self {
            Stopper::Done => Stopper::Done,
            Stopper::Under(n) => if n == NUM_SHAPES - 1 {
                Stopper::Done
            } else {
                Stopper::Under((n + 1) as u8)
            },
        }
    }

    /// Lock the live shape and move on to the next one.
    pub fn next(&mut self)
        requires
            old(self).wf(),
        ensures
            *final(self) == old(self).spec_next(),
            final(self).wf(),
    {
        *self = match *self {
            Stopper::Done => Stopper::Done,
            Stopper::Under(n) => if n == NUM_SHAPES - 1 {
                Stopper::Done
            } else {
                Stopper::Under(n + 1)
            },
        };
    }

    /// Lowest shape index that still rotates.
    pub fn level(&self) -> (r: u8)
        ensures
            r as int == self.spec_level(),
    {
        match *self {
            Stopper::Done => NUM_SHAPES,
            Stopper::Under(n) => n,
        }
    }
}

} // verus!
