//! The player's air, depth and score.
use misterdrillerterm::constants::{NANOS_PER_MS, OXYGEN_MAX, OXYGEN_UNIT};
use misterdrillerterm::player::Player;

/// Seconds, in nanoseconds.
fn seconds(s: u64) -> u64 {
    millis(s * 1000)
}

/// Milliseconds, in nanoseconds.
fn millis(ms: u64) -> u64 {
    ms * NANOS_PER_MS
}

/// Points of air.
fn points(p: f64) -> u64 {
    (p * OXYGEN_UNIT as f64).round() as u64
}

#[test]
fn add_oxygen_clamps_at_max() {
    let mut player = Player::new();
    player.oxygen = points(90.0);

    player.add_oxygen(points(50.0));

    assert_eq!(player.oxygen, OXYGEN_MAX);
}

#[test]
fn add_oxygen_below_max_adds_normally() {
    let mut player = Player::new();
    player.oxygen = points(30.0);

    player.add_oxygen(points(20.0));

    assert_eq!(player.oxygen, points(50.0));
}

#[test]
fn decay_oxygen_does_not_go_below_zero() {
    let mut player = Player::new();
    player.oxygen = points(5.0);

    player.decay_oxygen(2, seconds(10));

    assert_eq!(player.oxygen, points(0.0));
    assert!(player.is_out_of_oxygen());
}

#[test]
fn is_out_of_oxygen_is_false_while_oxygen_remains() {
    let mut player = Player::new();
    player.oxygen = points(0.1);

    assert!(!player.is_out_of_oxygen());
}

#[test]
fn depth_m_is_row_plus_one() {
    let mut player = Player::new();
    player.row = 0;
    assert_eq!(player.depth_m(), 1);

    player.row = 999;
    assert_eq!(player.depth_m(), 1000);
}

#[test]
fn total_score_combines_depth_diamonds_and_time_bonus() {
    let mut player = Player::new();
    player.row = 99;
    player.diamond_score = 1500;
    player.time_bonus_total = 2000;

    let score = player.total_score(10);

    assert_eq!(score, 100 * 10 + 1500 + 2000);
}

#[test]
fn total_score_with_no_diamonds_or_bonus_is_depth_score_only() {
    let mut player = Player::new();
    player.row = 49;

    let score = player.total_score(10);

    assert_eq!(score, 500);
}
