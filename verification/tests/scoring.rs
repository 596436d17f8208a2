use jellybeans::rotation::{rate, ORIENT_LIMIT};
use jellybeans::score::{aggregate_score, shape_points, shape_score, weight};

const UNIT: i128 = 1_000_000_000_000;

#[test]
fn weight_table_is_eleven_tenths_powers() {
    assert_eq!(weight(0), 1_000_000_000);
    assert_eq!(weight(1), 1_100_000_000);
    assert_eq!(weight(4), 1_464_100_000);
    assert_eq!(weight(9), 2_357_947_691);
}

#[test]
fn rates_grow_exponentially() {
    assert_eq!(rate(0), 3_000_000_000);
    assert_eq!(rate(1), 3_300_000_000);
    assert_eq!(rate(9), 7_073_843_073);
}

#[test]
fn flat_shape_scores_the_maximum() {
    // 90 deg on the nose: 90 * 1.1^1 = 99 points exactly.
    assert_eq!(shape_points(90 * UNIT, 1), 99);
    // The other flat target counts the same: 90 * 1.1^4 = 131.769.
    assert_eq!(shape_score(270 * UNIT, 4), 131_769_000_000_000_000_000_000);
    assert_eq!(shape_points(270 * UNIT, 4), 131);
    // A shape that has turned many times scores by where it landed.
    assert_eq!(shape_points(990 * UNIT, 1), 99);
}

#[test]
fn score_falls_with_distance_to_the_nearer_target() {
    assert_eq!(shape_points(90 * UNIT, 0), 90);
    assert_eq!(shape_points(91 * UNIT, 0), 89);
    assert_eq!(shape_points(45 * UNIT, 0), 45);
    assert!(shape_score(90 * UNIT, 3) > shape_score(100 * UNIT, 3));
    assert!(shape_score(100 * UNIT, 3) > shape_score(120 * UNIT, 3));
    assert!(shape_score(120 * UNIT, 3) > shape_score(180 * UNIT, 3));
    // A quarter turn from both targets: zero.
    assert_eq!(shape_score(0, 7), 0);
    assert_eq!(shape_score(180 * UNIT, 7), 0);
}

#[test]
fn spin_direction_does_not_matter_to_the_score() {
    assert_eq!(shape_score(-90 * UNIT, 2), shape_score(90 * UNIT, 2));
    assert_eq!(shape_score(-37 * UNIT, 5), shape_score(37 * UNIT, 5));
}

#[test]
fn aggregate_counts_every_shape() {
    // All ten flat: sum of 90 * 1.1^i = 1434.368..., rounded to 1434.
    let all_flat: Vec<i128> = vec![90 * UNIT; 10];
    assert_eq!(aggregate_score(&all_flat), 1434);
}

#[test]
fn aggregate_rounds_ties_to_even() {
    // Shape 0 half a point from nothing, everyone else at zero closeness:
    // 0.5 rounds down to the even 0.
    let mut row: Vec<i128> = vec![0; 10];
    row[0] = UNIT / 2;
    assert_eq!(aggregate_score(&row), 0);
    // 1.5 rounds up to the even 2.
    row[0] = 3 * UNIT / 2;
    assert_eq!(aggregate_score(&row), 2);
}

#[test]
fn per_shape_truncates_while_aggregate_rounds() {
    // 89.5 points: the per-shape text truncates to 89, the aggregate rounds
    // the same half up to the even 90.
    let theta: i128 = 89 * UNIT + UNIT / 2;
    assert_eq!(shape_points(theta, 0), 89);
    let mut row: Vec<i128> = vec![0; 10];
    row[0] = theta;
    assert_eq!(aggregate_score(&row), 90);
}

#[test]
fn scores_accept_the_whole_orientation_band() {
    // The band's edge, 10^18 degrees, lands 100 degrees into a half turn:
    // 10 degrees off a target, closeness 80.
    assert_eq!(shape_points(ORIENT_LIMIT, 0), 80);
    assert_eq!(shape_points(-ORIENT_LIMIT, 0), 80);
}
