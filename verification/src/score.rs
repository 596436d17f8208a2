use vstd::arithmetic::div_mod::{
    lemma_div_is_ordered, lemma_fundamental_div_mod, lemma_mod_division_less_than_divisor,
    lemma_mod_multiples_vanish, lemma_small_mod,
};
use vstd::arithmetic::mul::{lemma_mul_strict_inequality, lemma_mul_upper_bound};
use vstd::prelude::*;

use crate::rotation::ORIENT_LIMIT;
use crate::stopper::{Stopper, NUM_SHAPES};

verus! {

/// Fixed-point resolution of an orientation: units to the degree.
pub const UNITS_PER_DEGREE: i128 = 1_000_000_000_000;

/// Half a turn, in orientation units.  The two flat targets (90 deg and
/// 270 deg) sit half a turn apart, so the distance to the nearer one depends
/// only on the orientation folded into a half turn.
pub const HALF_TURN: i128 = 180 * UNITS_PER_DEGREE;

/// A quarter turn, in orientation units: the largest possible distance to the
/// nearer flat target, and also the closeness value of a perfectly flat shape
/// (90 deg).
pub const QUARTER_TURN: i128 = 90 * UNITS_PER_DEGREE;

/// A full turn, in orientation units.
pub const FULL_TURN: i128 = 360 * UNITS_PER_DEGREE;

/// Fixed-point resolution of a score: units to the point.  A closeness is in
/// orientation units (10^12 to the degree) and a weight carries nine more
/// fractional decimal digits, so one point is 10^21 score units.
pub const SCORE_SCALE: u128 = 1_000_000_000_000_000_000_000;

/// Half of `SCORE_SCALE`, the tie threshold of round-half-to-even.
pub const HALF_SCORE_SCALE: u128 = 500_000_000_000_000_000_000;

/// Largest difficulty weight: `spec_weight(9)`, that is 11^9.
pub const MAX_WEIGHT: u64 = 2_357_947_691;

/// Largest score of a single shape, in score units: a perfectly flat last
/// shape, `QUARTER_TURN * MAX_WEIGHT`, that is 90 * 1.1^9 points.
pub const MAX_SHAPE_SCORE: u128 = 212_215_292_190_000_000_000_000;

pub open spec fn abs_val(x: int) -> int {
    if x < 0 {
        -x
    } else {
        x
    }
}

pub open spec fn pow11(e: nat) -> int
    decreases e,
{
    if e == 0 {
        1
    } else {
        11 * pow11((e - 1) as nat)
    }
}

pub open spec fn pow10(e: nat) -> int
    decreases e,
{
    if e == 0 {
        1
    } else {
        10 * pow10((e - 1) as nat)
    }
}

/// Difficulty weight of shape `i`: 1.1^i, held exactly as 11^i * 10^(9 - i),
/// that is 1.1^i scaled by 10^9.  The same weight drives both the spin rate
/// and the score of a shape.
pub open spec fn spec_weight(i: int) -> int
    recommends
        0 <= i < NUM_SHAPES as int,
{
    pow11(i as nat) * pow10((NUM_SHAPES - 1 - i) as nat)
}

/// Undirected angular distance, in orientation units, from `theta` to the
/// nearer of the two flat targets (90 deg and 270 deg).  The targets are half
/// a turn apart, so the distance is the gap between `theta` folded into a
/// half turn and a quarter turn; folding is insensitive to the spin
/// direction.
pub open spec fn spec_deviation(theta: int) -> int {
    abs_val(abs_val(theta) % (HALF_TURN as int) - QUARTER_TURN as int)
}

/// How flat the shape lies, in orientation units: a quarter turn (90 deg worth)
/// when exactly on a target, zero when as far from both targets as possible.
pub open spec fn spec_closeness(theta: int) -> int {
    QUARTER_TURN - spec_deviation(theta)
}

/// Score of shape `i` at orientation `theta`, in score units:
/// closeness times the difficulty weight 1.1^i.
pub open spec fn spec_score(theta: int, i: int) -> int
    recommends
        0 <= i < NUM_SHAPES as int,
{
    spec_closeness(theta) * spec_weight(i)
}

/// Displayed per-shape score: whole points, truncated toward zero.
pub open spec fn spec_points(theta: int, i: int) -> int
    recommends
        0 <= i < NUM_SHAPES as int,
{
    spec_score(theta, i) / SCORE_SCALE as int
}

/// `n / m` rounded to the nearest integer, ties to the even neighbour.
pub open spec fn spec_round_half_even(n: int, m: int) -> int
    recommends
        n >= 0,
        m > 0,
        m % 2 == 0,
{
    let q = n / m;
    let r = n % m;
    if 2 * r > m {
        q + 1
    } else if 2 * r < m {
        q
    } else if q % 2 == 0 {
        q
    } else {
        q + 1
    }
}

/// Sum of the scores of shapes `0 .. n`, in score units.
pub open spec fn spec_total(orients: Seq<i128>, n: int) -> int
    decreases n,
{
    if n <= 0 {
        0
    } else {
        spec_total(orients, n - 1) + spec_score(orients[n - 1] as int, n - 1)
    }
}

/// Aggregate score, in whole points: the round-half-to-even sum of the scores
/// of every shape, locked or not.  It reads the orientations alone, never the
/// round's progression.
pub open spec fn spec_aggregate(orients: Seq<i128>) -> int {
    spec_round_half_even(spec_total(orients, NUM_SHAPES as int), SCORE_SCALE as int)
}

/// Highest shape index whose score is displayed: the locked shapes and the
/// live one under `Under(n)`, every shape once `Done`.
pub open spec fn spec_display_cutoff(st: Stopper) -> int {
    match st {
        Stopper::Done => NUM_SHAPES as int - 1,
        Stopper::Under(n) => n as int,
    }
}

/// The per-shape score texts after one scoring pass: shapes up to the display
/// cutoff show their current whole-point score, the texts of the others stay
/// as they were.
pub open spec fn spec_texts_after(
    st: Stopper,
    orients: Seq<i128>,
    texts: Seq<Option<u32>>,
) -> Seq<Option<u32>> {
    Seq::new(
        NUM_SHAPES as nat,
        |i: int|
            if i <= spec_display_cutoff(st) {
                Some(spec_points(orients[i] as int, i) as u32)
            } else {
                texts[i]
            },
    )
}

/// The difficulty weight of each shape, evaluated: 1.1^i scaled by 10^9.
pub proof fn lemma_weight_value(i: int)
    requires
        0 <= i < NUM_SHAPES as int,
    ensures
        spec_weight(i) == (if i == 0 {
            1_000_000_000int
        } else if i == 1 {
            1_100_000_000int
        } else if i == 2 {
            1_210_000_000int
        } else if i == 3 {
            1_331_000_000int
        } else if i == 4 {
            1_464_100_000int
        } else if i == 5 {
            1_610_510_000int
        } else if i == 6 {
            1_771_561_000int
        } else if i == 7 {
            1_948_717_100int
        } else if i == 8 {
            2_143_588_810int
        } else {
            2_357_947_691int
        }),
{
    reveal_with_fuel(pow11, 11);
    reveal_with_fuel(pow10, 11);
    if i == 0 {
        assert(spec_weight(0) == 1 * pow10(9));
    } else if i == 1 {
        assert(pow11(1) == 11);
        assert(spec_weight(1) == 11 * pow10(8));
    } else if i == 2 {
        assert(pow11(2) == 121);
        assert(spec_weight(2) == 121 * pow10(7));
    } else if i == 3 {
        assert(pow11(3) == 1331);
        assert(spec_weight(3) == 1331 * pow10(6));
    } else if i == 4 {
        assert(pow11(4) == 14641);
        assert(spec_weight(4) == 14641 * pow10(5));
    } else if i == 5 {
        assert(pow11(5) == 161051);
        assert(spec_weight(5) == 161051 * pow10(4));
    } else if i == 6 {
        assert(pow11(6) == 1771561);
        assert(spec_weight(6) == 1771561 * pow10(3));
    } else if i == 7 {
        assert(pow11(7) == 19487171);
        assert(spec_weight(7) == 19487171 * pow10(2));
    } else if i == 8 {
        assert(pow11(8) == 214358881);
        assert(spec_weight(8) == 214358881 * pow10(1));
    } else {
        assert(pow11(9) == 2357947691);
        assert(spec_weight(9) == 2357947691 * pow10(0));
    }
}

/// The difficulty weight of every shape lies between 1 and `MAX_WEIGHT`.
pub proof fn lemma_weight_bounds(i: int)
    requires
        0 <= i < NUM_SHAPES as int,
    ensures
        1 <= spec_weight(i) <= MAX_WEIGHT as int,
{
    lemma_weight_value(i);
}

/// Undirected distance between two angles on the circle of a full turn.
pub open spec fn spec_circular_distance(a: int, b: int) -> int {
    let d = (a - b) % (FULL_TURN as int);
    if d <= FULL_TURN as int - d {
        d
    } else {
        FULL_TURN as int - d
    }
}

/// Negating a nonnegative angle mirrors its half-turn remainder.
proof fn lemma_neg_mod_half(x: int)
    requires
        x >= 0,
    ensures
        (-x) % (HALF_TURN as int) == (if x % (HALF_TURN as int) == 0 {
            0int
        } else {
            HALF_TURN as int - x % (HALF_TURN as int)
        }),
{
    let h = HALF_TURN as int;
    lemma_fundamental_div_mod(x, h);
    lemma_mod_division_less_than_divisor(x, h);
    let q = x / h;
    let s = x % h;
    if s == 0 {
        assert(-x == h * (-q) + 0);
        lemma_mod_multiples_vanish(-q, 0, h);
        lemma_small_mod(0, h as nat);
    } else {
        assert(-x == h * (-q - 1) + (h - s));
        lemma_mod_multiples_vanish(-q - 1, h - s, h);
        lemma_small_mod((h - s) as nat, h as nat);
    }
}

/// The deviation is the gap between `theta`'s Euclidean half-turn remainder
/// and a quarter turn: folding through the magnitude loses nothing.
proof fn lemma_deviation_fold(theta: int)
    ensures
        spec_deviation(theta) == abs_val(theta % (HALF_TURN as int) - QUARTER_TURN as int),
{
    let h = HALF_TURN as int;
    if theta < 0 {
        lemma_neg_mod_half(-theta);
        lemma_mod_division_less_than_divisor(-theta, h);
    }
}

/// An angle and its full-turn remainder share their half-turn remainder.
proof fn lemma_mod_half_of_mod_full(theta: int)
    ensures
        theta % (HALF_TURN as int) == (theta % (FULL_TURN as int)) % (HALF_TURN as int),
{
    let h = HALF_TURN as int;
    let f = FULL_TURN as int;
    lemma_fundamental_div_mod(theta, f);
    let q = theta / f;
    let r = theta % f;
    assert(theta == h * (2 * q) + r);
    lemma_mod_multiples_vanish(2 * q, r, h);
}

/// The deviation is exactly the smaller of the two undirected circular
/// distances from `theta` to the flat targets at 90 deg and 270 deg.
pub proof fn lemma_deviation_is_distance_to_nearer_target(theta: int)
    ensures
        spec_deviation(theta) <= spec_circular_distance(theta, QUARTER_TURN as int),
        spec_deviation(theta) <= spec_circular_distance(theta, 3 * (QUARTER_TURN as int)),
        spec_deviation(theta) == spec_circular_distance(theta, QUARTER_TURN as int)
            || spec_deviation(theta) == spec_circular_distance(theta, 3 * (QUARTER_TURN as int)),
{
    let h = HALF_TURN as int;
    let f = FULL_TURN as int;
    let qt = QUARTER_TURN as int;
    lemma_deviation_fold(theta);
    lemma_mod_half_of_mod_full(theta);
    lemma_fundamental_div_mod(theta, f);
    lemma_mod_division_less_than_divisor(theta, f);
    let k = theta / f;
    let r = theta % f;
    assert(theta - qt == f * k + (r - qt));
    lemma_mod_multiples_vanish(k, r - qt, f);
    assert(theta - 3 * qt == f * k + (r - 3 * qt));
    lemma_mod_multiples_vanish(k, r - 3 * qt, f);
    if r >= qt {
        lemma_small_mod((r - qt) as nat, f as nat);
    } else {
        assert(r - qt == f * (-1) + (r - qt + f));
        lemma_mod_multiples_vanish(-1, r - qt + f, f);
        lemma_small_mod((r - qt + f) as nat, f as nat);
    }
    if r >= 3 * qt {
        lemma_small_mod((r - 3 * qt) as nat, f as nat);
    } else {
        assert(r - 3 * qt == f * (-1) + (r - 3 * qt + f));
        lemma_mod_multiples_vanish(-1, r - 3 * qt + f, f);
        lemma_small_mod((r - 3 * qt + f) as nat, f as nat);
    }
    if r < h {
        lemma_small_mod(r as nat, h as nat);
    } else {
        assert(r == h * 1 + (r - h));
        lemma_mod_multiples_vanish(1, r - h, h);
        lemma_small_mod((r - h) as nat, h as nat);
    }
}

/// The distance to the nearer flat target is at most a quarter turn: the two
/// targets are half a turn apart, so no orientation is farther from both.
pub proof fn lemma_deviation_range(theta: int)
    ensures
        0 <= spec_deviation(theta) <= QUARTER_TURN as int,
{
    lemma_mod_division_less_than_divisor(abs_val(theta), HALF_TURN as int);
}

/// A shape's score is largest, 90 * 1.1^i points held exactly as
/// `QUARTER_TURN * spec_weight(i)` score units, exactly when its orientation
/// sits on a flat target, and is zero exactly when it is a full quarter turn
/// from both targets.
pub proof fn lemma_score_extremes(theta: int, i: int)
    requires
        0 <= i < NUM_SHAPES as int,
    ensures
        spec_score(theta, i) <= QUARTER_TURN * spec_weight(i),
        spec_score(theta, i) == QUARTER_TURN * spec_weight(i) <==> spec_deviation(theta) == 0,
        spec_score(theta, i) == 0 <==> spec_deviation(theta) == QUARTER_TURN as int,
{
    lemma_weight_bounds(i);
    lemma_deviation_range(theta);
    let c = spec_closeness(theta);
    let w = spec_weight(i);
    assert(c * w <= QUARTER_TURN * w && (c * w == QUARTER_TURN * w <==> c == QUARTER_TURN as int)
        && (c * w == 0 <==> c == 0)) by (nonlinear_arith)
        requires
            0 <= c <= QUARTER_TURN as int,
            1 <= w;
}

/// The score of a shape strictly grows as its orientation moves nearer a
/// flat target.
pub proof fn lemma_score_monotone(t1: int, t2: int, i: int)
    requires
        0 <= i < NUM_SHAPES as int,
        spec_deviation(t1) < spec_deviation(t2),
    ensures
        spec_score(t1, i) > spec_score(t2, i),
{
    lemma_weight_bounds(i);
    lemma_mul_strict_inequality(spec_closeness(t2), spec_closeness(t1), spec_weight(i));
}

/// Difficulty weight of shape `i`, exactly `spec_weight(i)`.
pub fn weight(i: u8) -> (r: u64)
    requires
        i < NUM_SHAPES,
    ensures
        r as int == spec_weight(i as int),
        1 <= r <= MAX_WEIGHT,
{
    proof {
        lemma_weight_value(i as int);
    }
    match i {
        0 => 1_000_000_000,
        1 => 1_100_000_000,
        2 => 1_210_000_000,
        3 => 1_331_000_000,
        4 => 1_464_100_000,
        5 => 1_610_510_000,
        6 => 1_771_561_000,
        7 => 1_948_717_100,
        8 => 2_143_588_810,
        _ => 2_357_947_691,
    }
}

/// Score of shape `i` at orientation `theta`, in score units.
pub fn shape_score(theta: i128, i: u8) -> (r: u128)
    requires
        i < NUM_SHAPES,
        -ORIENT_LIMIT <= theta <= ORIENT_LIMIT,
    ensures
        r as int == spec_score(theta as int, i as int),
        r <= MAX_SHAPE_SCORE,
{
    let a: i128 = if theta < 0 {
        -theta
    } else {
        theta
    };
    let au: u128 = a as u128;
    let m: u128 = au % (HALF_TURN as u128);
    proof {
        lemma_mod_division_less_than_divisor(au as int, HALF_TURN as int);
    }
    let dev: u128 = if m >= QUARTER_TURN as u128 {
        m - QUARTER_TURN as u128
    } else {
        QUARTER_TURN as u128 - m
    };
    let c: u128 = QUARTER_TURN as u128 - dev;
    let w: u64 = weight(i);
    proof {
        lemma_mul_upper_bound(c as int, QUARTER_TURN as int, w as int, MAX_WEIGHT as int);
    }
    c * (w as u128)
}

/// Displayed score of shape `i` at orientation `theta`: whole points,
/// truncated toward zero.
pub fn shape_points(theta: i128, i: u8) -> (r: u32)
    requires
        i < NUM_SHAPES,
        -ORIENT_LIMIT <= theta <= ORIENT_LIMIT,
    ensures
        r as int == spec_points(theta as int, i as int),
{
    let s: u128 = shape_score(theta, i);
    proof {
        lemma_div_is_ordered(s as int, MAX_SHAPE_SCORE as int, SCORE_SCALE as int);
    }
    (s / SCORE_SCALE) as u32
}

/// One scoring pass, recomputed from the current orientations: refresh the
/// displayed text of every shape up to the display cutoff, and return the
/// aggregate score, the round-half-to-even sum over every shape.
pub fn update_score(stopper: &Stopper, orients: &Vec<i128>, texts: &mut Vec<Option<u32>>) -> (agg:
    u32)
    requires
        orients.len() == NUM_SHAPES as usize,
        old(texts).len() == NUM_SHAPES as usize,
        forall|k: int|
            0 <= k < NUM_SHAPES as int ==> -ORIENT_LIMIT <= #[trigger] orients@[k] <= ORIENT_LIMIT,
    ensures
        agg as int == spec_aggregate(orients@),
        final(texts)@ == spec_texts_after(*stopper, orients@, old(texts)@),
{
    let cutoff: u8 = match *stopper {
        Stopper::Done => NUM_SHAPES - 1,
        Stopper::Under(n) => n,
    };
    let mut total: u128 = 0;
    let mut i: usize = 0;
    while i < NUM_SHAPES as usize
        invariant
            i <= NUM_SHAPES as usize,
            orients.len() == NUM_SHAPES as usize,
            texts.len() == NUM_SHAPES as usize,
            forall|k: int|
                0 <= k < NUM_SHAPES as int ==> -ORIENT_LIMIT <= #[trigger] orients@[k]
                    <= ORIENT_LIMIT,
            cutoff as int == spec_display_cutoff(*stopper),
            total as int == spec_total(orients@, i as int),
            total <= i * (MAX_SHAPE_SCORE as u128),
            forall|j: int|
                0 <= j < NUM_SHAPES as int ==> #[trigger] texts@[j] == (
                if j < i as int && j <= spec_display_cutoff(*stopper) {
                    Some(spec_points(orients@[j] as int, j) as u32)
                } else {
                    old(texts)@[j]
                }),
        decreases NUM_SHAPES as usize - i,
    {
        let s: u128 = shape_score(orients[i], i as u8);
        proof {
            assert(total as int + s as int <= (i as int + 1) * (MAX_SHAPE_SCORE as int)
                && total as int + s as int <= 10 * (MAX_SHAPE_SCORE as int)) by (nonlinear_arith)
                requires
                    total as int <= (i as int) * (MAX_SHAPE_SCORE as int),
                    s as int <= MAX_SHAPE_SCORE as int,
                    0 <= (i as int) < 10;
        }
        total = total + s;
        if i as u8 <= cutoff {
            let p: u128 = s / SCORE_SCALE;
            proof {
                lemma_div_is_ordered(s as int, MAX_SHAPE_SCORE as int, SCORE_SCALE as int);
            }
            texts.set(i, Some(p as u32));
        }
        i = i + 1;
    }
    proof {
        assert(texts@ =~= spec_texts_after(*stopper, orients@, old(texts)@));
        lemma_div_is_ordered(
            total as int,
            NUM_SHAPES as int * MAX_SHAPE_SCORE as int,
            SCORE_SCALE as int,
        );
    }
    let q: u128 = total / SCORE_SCALE;
    let r: u128 = total % SCORE_SCALE;
    let rounded: u128 = if r > HALF_SCORE_SCALE {
        q + 1
    } else if r < HALF_SCORE_SCALE {
        q
    } else if q % 2 == 0 {
        q
    } else {
        q + 1
    };
    rounded as u32
}

/// Aggregate score of a row of orientations, in whole points: the
/// round-half-to-even sum of every shape's score.  The round's progression
/// plays no part in it.
pub fn aggregate_score(orients: &Vec<i128>) -> (r: u32)
    requires
        orients.len() == NUM_SHAPES as usize,
        forall|k: int|
            0 <= k < NUM_SHAPES as int ==> -ORIENT_LIMIT <= #[trigger] orients@[k] <= ORIENT_LIMIT,
    ensures
        r as int == spec_aggregate(orients@),
{
    let mut texts: Vec<Option<u32>> = Vec::new();
    let mut i: usize = 0;
    while i < NUM_SHAPES as usize
        invariant
            i <= NUM_SHAPES as usize,
            texts.len() == i,
        decreases NUM_SHAPES as usize - i,
    {
        texts.push(None);
        i = i + 1;
    }
    update_score(&Stopper::Done, orients, &mut texts)
}

} // verus!
