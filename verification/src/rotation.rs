use vstd::arithmetic::mul::{lemma_mul_nonnegative, lemma_mul_upper_bound};
use vstd::prelude::*;

use crate::score::{spec_weight, weight, MAX_WEIGHT};
use crate::stopper::{Stopper, NUM_SHAPES};

verus! {

/// Largest orientation magnitude the simulation carries, in orientation
/// units: 10^18 degrees.  An orientation accumulates without wrapping; only
/// at this (practically unreachable) bound does it stop growing.
pub const ORIENT_LIMIT: i128 = 1_000_000_000_000_000_000_000_000_000_000;

/// Angular velocity of shape `i`, in orientation units per millisecond:
/// 1.1^i * 120 / 40 degrees per second, held exactly as
/// 3 * 11^i * 10^(9 - i).
pub open spec fn spec_rate(i: int) -> int
    recommends
        0 <= i < NUM_SHAPES as int,
{
    3 * spec_weight(i)
}

/// Spin direction of shape `i`: even indices rotate negatively, odd ones
/// positively.
pub open spec fn spec_dir(i: int) -> int {
    if i % 2 == 0 {
        -1
    } else {
        1
    }
}

/// An orientation pinned into the representable band.
pub open spec fn spec_clamp(x: int) -> i128 {
    if x > ORIENT_LIMIT {
        ORIENT_LIMIT
    } else if x < -ORIENT_LIMIT {
        (-ORIENT_LIMIT) as i128
    } else {
        x as i128
    }
}

/// Orientation of shape `i` after `d` milliseconds at stopper level `level`:
/// a shape below the level is frozen; any other turns by its signed angular
/// velocity times the elapsed time.
pub open spec fn spec_rotated(theta: i128, i: int, level: int, d: int) -> i128 {
    if i < level {
        theta
    } else {
        spec_clamp(theta + spec_dir(i) * (spec_rate(i) * d))
    }
}

/// One frame of rotation for the whole row.
pub open spec fn spec_rotate_all(orients: Seq<i128>, level: int, d: int) -> Seq<i128> {
    Seq::new(NUM_SHAPES as nat, |i: int| spec_rotated(orients[i], i, level, d))
}

/// Below the level a tick moves nothing, whatever the delta; at or above it
/// the orientation changes by exactly the signed angular velocity times the
/// delta, as long as the result stays in the representable band.
pub proof fn lemma_rotation_exact(theta: i128, i: int, level: int, d: int)
    requires
        0 <= i < NUM_SHAPES as int,
        0 <= d,
    ensures
        i < level ==> spec_rotated(theta, i, level, d) == theta,
        i >= level && -ORIENT_LIMIT <= theta + spec_dir(i) * (spec_rate(i) * d) <= ORIENT_LIMIT
            ==> spec_rotated(theta, i, level, d) == theta + spec_dir(i) * (spec_rate(i) * d),
{
}

/// Angular velocity of shape `i`, in orientation units per millisecond.
pub fn rate(i: u8) -> (r: u64)
    requires
        i < NUM_SHAPES,
    ensures
        r as int == spec_rate(i as int),
        r <= 3 * MAX_WEIGHT,
{
    3 * weight(i)
}

/// One frame of rotation: every shape at or above the stopper level turns by
/// its signed angular velocity times the elapsed milliseconds, the frozen
/// ones keep their orientation.
pub fn rotate(stopper: &Stopper, orients: &mut Vec<i128>, d: u64)
    requires
        old(orients).len() == NUM_SHAPES as usize,
        forall|k: int|
            0 <= k < NUM_SHAPES as int ==> -ORIENT_LIMIT <= #[trigger] old(orients)@[k]
                <= ORIENT_LIMIT,
    ensures
        final(orients)@ == spec_rotate_all(old(orients)@, stopper.spec_level(), d as int),
        forall|k: int|
            0 <= k < NUM_SHAPES as int ==> -ORIENT_LIMIT <= #[trigger] final(orients)@[k]
                <= ORIENT_LIMIT,
{
    let level: u8 = stopper.level();
    let mut i: usize = 0;
    while i < NUM_SHAPES as usize
        invariant
            i <= NUM_SHAPES as usize,
            orients.len() == NUM_SHAPES as usize,
            level as int == stopper.spec_level(),
            forall|k: int|
                0 <= k < NUM_SHAPES as int ==> -ORIENT_LIMIT <= #[trigger] orients@[k]
                    <= ORIENT_LIMIT,
            forall|k: int|
                0 <= k < NUM_SHAPES as int ==> #[trigger] orients@[k] == (
                if k < i as int {
                    spec_rotated(old(orients)@[k], k, stopper.spec_level(), d as int)
                } else {
                    old(orients)@[k]
                }),
        decreases NUM_SHAPES as usize - i,
    {
        if i as u8 >= level {
            let th: i128 = orients[i];
            let step: u64 = rate(i as u8);
            proof {
                lemma_mul_upper_bound(step as int, 3 * MAX_WEIGHT as int, d as int, u64::MAX as int);
                lemma_mul_nonnegative(step as int, d as int);
            }
            let delta: i128 = (step as i128) * (d as i128);
            let turned: i128 = if i % 2 == 0 {
                th - delta
            } else {
                th + delta
            };
            let clamped: i128 = if turned > ORIENT_LIMIT {
                ORIENT_LIMIT
            } else if turned < -ORIENT_LIMIT {
                -ORIENT_LIMIT
            } else {
                turned
            };
            orients.set(i, clamped);
        }
        proof {
            assert(orients@[i as int] == spec_rotated(
                old(orients)@[i as int],
                i as int,
                stopper.spec_level(),
                d as int,
            ));
        }
        i = i + 1;
    }
    proof {
        assert(orients@ =~= spec_rotate_all(old(orients)@, stopper.spec_level(), d as int));
    }
}

} // verus!
