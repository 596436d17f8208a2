use jellybeans::game::GameState;
use jellybeans::input::InputEvent;
use jellybeans::rotation::ORIENT_LIMIT;
use jellybeans::stopper::Stopper;
use jellybeans::timer::MinuteTimer;

const UNIT: i128 = 1_000_000_000_000;

#[test]
fn advance_walks_every_level_and_done_absorbs() {
    let mut s = Stopper::Under(0);
    for n in 1..=9u8 {
        s.next();
        assert_eq!(s, Stopper::Under(n));
    }
    s.next();
    assert_eq!(s, Stopper::Done);
    s.next();
    assert_eq!(s, Stopper::Done);
}

#[test]
fn stopper_level_counts_locked_shapes() {
    assert_eq!(Stopper::Under(3).level(), 3);
    assert_eq!(Stopper::Done.level(), 10);
}

#[test]
fn shapes_spin_at_their_signed_rates() {
    let mut g = GameState::new();
    g.tick(None, 1000);
    // Even indices turn negatively, odd ones positively, 3 * 1.1^i deg/s.
    assert_eq!(g.orientation(0), -3 * UNIT);
    assert_eq!(g.orientation(1), 3_300_000_000_000);
    assert_eq!(g.orientation(9), 7_073_843_073_000);
}

#[test]
fn locked_shapes_hold_still() {
    let mut g = GameState::new();
    g.tick(Some(InputEvent::Advance), 0);
    assert_eq!(g.stopper(), Stopper::Under(1));
    g.tick(None, 500);
    assert_eq!(g.orientation(0), 0);
    assert_eq!(g.orientation(1), 1_650_000_000_000);
}

#[test]
fn only_reached_shapes_show_a_score() {
    let mut g = GameState::new();
    g.tick(None, 250);
    assert_eq!(g.score_text(0), Some(0));
    for i in 1..10 {
        assert_eq!(g.score_text(i), None);
    }
}

#[test]
fn locking_a_flat_shape_scores_ninety_nine() {
    // Lock shape 0, then let shape 1 accumulate 990 degrees (90 modulo a
    // half turn): 90 * 1.1 = 99 points on its text.
    let mut g = GameState::new();
    g.tick(Some(InputEvent::Advance), 0);
    g.tick(None, 300_000);
    assert_eq!(g.orientation(1), 990 * UNIT);
    assert_eq!(g.score_text(0), Some(0));
    assert_eq!(g.score_text(1), Some(99));
}

#[test]
fn aggregate_ignores_lock_state() {
    let mut g = GameState::new();
    g.tick(None, 700);
    let before = g.aggregate_score();
    // Locking a shape moves no orientation, so the aggregate stands.
    g.tick(Some(InputEvent::Advance), 0);
    assert_eq!(g.aggregate_score(), before);
}

#[test]
fn timer_starts_only_after_the_first_lock() {
    let mut g = GameState::new();
    g.tick(None, 5_000);
    assert_eq!(g.timer(), MinuteTimer::NotStarted);
    g.tick(Some(InputEvent::Advance), 0);
    // The countdown starts the frame after the round stands at Under(1).
    assert_eq!(g.timer(), MinuteTimer::NotStarted);
    g.tick(None, 0);
    assert_eq!(g.timer(), MinuteTimer::Running(60_000));
    g.tick(None, 59_999);
    assert_eq!(g.timer(), MinuteTimer::Running(1));
}

#[test]
fn expiry_forces_done_and_locks_the_round() {
    let mut g = GameState::new();
    g.tick(Some(InputEvent::Advance), 0);
    g.tick(None, 0);
    g.tick(None, 60_000);
    assert_eq!(g.timer(), MinuteTimer::Finished);
    assert_eq!(g.stopper(), Stopper::Done);
    assert!(g.aggregate_highlight());
    // Done shows every score.
    for i in 0..10 {
        assert!(g.score_text(i).is_some());
    }
    // Advancing and resetting are now no-ops: the round is locked.
    g.tick(Some(InputEvent::Advance), 0);
    assert_eq!(g.stopper(), Stopper::Done);
    g.tick(Some(InputEvent::ResetRound), 0);
    assert_eq!(g.stopper(), Stopper::Done);
    assert_eq!(g.timer(), MinuteTimer::Finished);
    assert!(g.score_text(5).is_some());
}

#[test]
fn reset_is_allowed_until_the_timer_finishes() {
    let mut g = GameState::new();
    g.tick(Some(InputEvent::Advance), 0);
    // The countdown starts this frame, then the reset lands: back to the
    // first shape, countdown kept.
    g.tick(Some(InputEvent::ResetRound), 0);
    assert_eq!(g.stopper(), Stopper::Under(0));
    assert_eq!(g.timer(), MinuteTimer::Running(60_000));
    for i in 1..10 {
        assert_eq!(g.score_text(i), None);
    }
}

#[test]
fn next_round_resets_everything_mid_round() {
    let mut g = GameState::new();
    for _ in 0..5 {
        g.tick(Some(InputEvent::Advance), 0);
    }
    assert_eq!(g.stopper(), Stopper::Under(5));
    assert_eq!(g.timer(), MinuteTimer::Running(60_000));
    g.tick(Some(InputEvent::NextRound), 100);
    assert_eq!(g.stopper(), Stopper::Under(0));
    assert_eq!(g.timer(), MinuteTimer::NotStarted);
    // Only the live shape's text is refreshed; the cleared ones stay blank.
    for i in 1..10 {
        assert_eq!(g.score_text(i), None);
    }
}

#[test]
fn orientation_stops_at_the_representable_band() {
    let mut g = GameState::new();
    for _ in 0..25 {
        g.tick(None, u64::MAX);
    }
    assert_eq!(g.orientation(0), -ORIENT_LIMIT);
    assert_eq!(g.orientation(9), ORIENT_LIMIT);
}
