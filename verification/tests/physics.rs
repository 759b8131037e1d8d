//! Steps, drill strokes, gravity and free fall on small fields.
use misterdrillerterm::board::{Board, Cell, ColorKind, ItemEffect};
use misterdrillerterm::constants::{
    FIELD_WIDTH_DEFAULT, NANOS_PER_MS, OXYGEN_CAPSULE_RESTORE, OXYGEN_DECAY_PER_SEC, OXYGEN_MAX,
    OXYGEN_UNIT, ROCK_HITS_TO_BREAK, SHAKE_TICKS,
};
use misterdrillerterm::gravity::GravityState;
use misterdrillerterm::groups::Pickup;
use misterdrillerterm::physics::{
    DrillOutcome, FreeFallOutcome, GravityTickResult, LateralOutcome, apply_oxygen_decay,
    apply_player_free_fall, drill_facing, is_falling_hazard, move_lateral, process_gravity_tick,
};
use misterdrillerterm::player::{Direction, Player};

/// Seconds, in nanoseconds.
fn seconds(s: u64) -> u64 {
    millis(s * 1000)
}

/// Milliseconds, in nanoseconds.
fn millis(ms: u64) -> u64 {
    ms * NANOS_PER_MS
}

/// Points of air.
fn points(p: f64) -> u64 {
    (p * OXYGEN_UNIT as f64).round() as u64
}

fn empty_board(rows: usize) -> Board {
    Board {
        rows: vec![vec![Cell::Empty; FIELD_WIDTH_DEFAULT]; rows],
        width: FIELD_WIDTH_DEFAULT,
    }
}

fn shake_out_then_process_tick(
    board: &mut Board,
    player: &mut Player,
    gravity: &mut GravityState,
    invulnerable: bool,
) -> GravityTickResult {
    for _ in 0..SHAKE_TICKS {
        process_gravity_tick(board, player, &[], gravity, invulnerable, SHAKE_TICKS);
    }
    process_gravity_tick(board, player, &[], gravity, invulnerable, SHAKE_TICKS)
}

#[test]
fn move_lateral_at_left_boundary_is_a_complete_no_op() {
    let mut board = empty_board(3);
    let mut player = Player::new();
    player.col = 0;
    player.facing = Direction::Up;

    let outcome = move_lateral(&mut board, &mut player, Direction::Left);

    assert_eq!(outcome, LateralOutcome::OutOfBounds);
    assert_eq!(player.col, 0);
    assert_eq!(player.facing, Direction::Up);
}

#[test]
fn move_lateral_into_empty_moves_and_sets_facing() {
    let mut board = empty_board(3);
    let mut player = Player::new();

    let outcome = move_lateral(&mut board, &mut player, Direction::Right);

    assert_eq!(outcome, LateralOutcome::MovedLevel);
    assert_eq!(player.col, FIELD_WIDTH_DEFAULT / 2 + 1);
    assert_eq!(player.row, 0);
    assert_eq!(player.facing, Direction::Right);
}

#[test]
fn move_lateral_first_bump_stops_without_climbing_even_when_row_above_is_empty() {
    let mut board = empty_board(3);
    let mut player = Player::new();
    player.row = 1;
    let target_col = player.col + 1;
    board.rows[player.row][target_col] = Cell::Color(ColorKind::Red);

    let outcome = move_lateral(&mut board, &mut player, Direction::Right);

    assert_eq!(outcome, LateralOutcome::Blocked);
    assert_eq!(player.row, 1);
    assert_eq!(player.col, target_col - 1);
    assert_eq!(player.facing, Direction::Right);
    assert_eq!(player.bumped_direction, Some(Direction::Right));

    assert_eq!(board.cell(1, target_col), Cell::Color(ColorKind::Red));
    assert_eq!(player.score, 0);
}

#[test]
fn move_lateral_second_press_same_direction_climbs_the_step() {
    let mut board = empty_board(3);
    let mut player = Player::new();
    player.row = 1;
    let target_col = player.col + 1;
    board.rows[player.row][target_col] = Cell::Color(ColorKind::Red);

    let first = move_lateral(&mut board, &mut player, Direction::Right);
    let second = move_lateral(&mut board, &mut player, Direction::Right);

    assert_eq!(first, LateralOutcome::Blocked);
    assert_eq!(second, LateralOutcome::ClimbedStep { overhead: None, landing: None, });
    assert_eq!(player.row, 0);
    assert_eq!(player.col, target_col);
    assert_eq!(player.facing, Direction::Right);
    assert_eq!(player.bumped_direction, None);

    assert_eq!(board.cell(1, target_col), Cell::Color(ColorKind::Red));
    assert_eq!(player.score, 0);
}

#[test]
fn move_lateral_into_unbroken_rock_climbs_on_second_press_same_direction() {
    let mut board = empty_board(3);
    let mut player = Player::new();
    player.row = 1;
    let target_col = player.col + 1;
    board.rows[player.row][target_col] = Cell::Rock { hits: 0 };

    move_lateral(&mut board, &mut player, Direction::Right);
    let outcome = move_lateral(&mut board, &mut player, Direction::Right);

    assert_eq!(outcome, LateralOutcome::ClimbedStep { overhead: None, landing: None, });
    assert_eq!(player.row, 0);
    assert_eq!(player.col, target_col);

    assert!(matches!(board.cell(1, target_col), Cell::Rock { hits: 0 }));
}

#[test]
fn move_lateral_does_not_climb_when_a_block_is_directly_above_the_player() {
    let mut board = empty_board(3);
    let mut player = Player::new();
    player.row = 1;
    let target_col = player.col + 1;
    board.rows[player.row][target_col] = Cell::Color(ColorKind::Red);
    board.rows[player.row - 1][player.col] = Cell::Rock { hits: 0 };

    move_lateral(&mut board, &mut player, Direction::Right);
    let outcome = move_lateral(&mut board, &mut player, Direction::Right);

    assert_eq!(outcome, LateralOutcome::Blocked);
    assert_eq!(player.row, 1);
    assert_eq!(player.col, target_col - 1);
    assert_eq!(board.cell(1, target_col), Cell::Color(ColorKind::Red));
}

#[test]
fn move_lateral_switching_direction_resets_the_bump() {
    let mut board = empty_board(3);
    let mut player = Player::new();
    player.row = 1;
    let left_col = player.col - 1;
    let right_col = player.col + 1;
    board.rows[player.row][left_col] = Cell::Color(ColorKind::Red);
    board.rows[player.row][right_col] = Cell::Color(ColorKind::Blue);

    move_lateral(&mut board, &mut player, Direction::Left);
    assert_eq!(player.bumped_direction, Some(Direction::Left));

    let outcome = move_lateral(&mut board, &mut player, Direction::Right);

    assert_eq!(outcome, LateralOutcome::Blocked);
    assert_eq!(player.row, 1);
    assert_eq!(player.bumped_direction, Some(Direction::Right));
}

#[test]
fn move_lateral_is_blocked_when_adjacent_and_row_above_both_occupied() {
    let mut board = empty_board(3);
    let mut player = Player::new();
    player.row = 1;
    let target_col = player.col + 1;
    board.rows[player.row][target_col] = Cell::Rock {
        hits: ROCK_HITS_TO_BREAK - 1,
    };
    board.rows[player.row - 1][target_col] = Cell::Color(ColorKind::Blue);

    move_lateral(&mut board, &mut player, Direction::Right);
    let outcome = move_lateral(&mut board, &mut player, Direction::Right);

    assert_eq!(outcome, LateralOutcome::Blocked);
    assert_eq!(player.col, target_col - 1);
    assert_eq!(player.row, 1);
    assert_eq!(player.facing, Direction::Right);

    assert!(matches!(board.cell(1, target_col), Cell::Rock { hits } if hits == ROCK_HITS_TO_BREAK - 1));
    assert_eq!(board.cell(0, target_col), Cell::Color(ColorKind::Blue));
    assert_eq!(player.oxygen, OXYGEN_MAX);
}

#[test]
fn move_lateral_into_oxygen_capsule_collects_it_without_drilling() {
    let mut board = empty_board(3);
    let mut player = Player::new();
    player.oxygen = points(40.0);
    let target_col = player.col + 1;
    board.rows[player.row][target_col] = Cell::Oxygen;

    let outcome = move_lateral(&mut board, &mut player, Direction::Right);

    assert_eq!(outcome, LateralOutcome::MovedLevelAndCollectedOxygen);
    assert_eq!(player.col, target_col);
    assert_eq!(player.oxygen, points(40.0) + OXYGEN_CAPSULE_RESTORE);
    assert_eq!(player.score, 100);
    assert_eq!(board.cell(0, target_col), Cell::Empty);
}

#[test]
fn move_lateral_climbing_a_step_into_oxygen_capsule_collects_it() {
    let mut board = empty_board(3);
    let mut player = Player::new();
    player.row = 1;
    let target_col = player.col + 1;
    board.rows[player.row][target_col] = Cell::Rock { hits: 0 };
    board.rows[player.row - 1][target_col] = Cell::Oxygen;

    move_lateral(&mut board, &mut player, Direction::Right);
    let outcome = move_lateral(&mut board, &mut player, Direction::Right);

    assert_eq!(outcome, LateralOutcome::ClimbedStep { overhead: None, landing: Some(Pickup::Oxygen), });
    assert_eq!(player.row, 0);
    assert_eq!(player.col, target_col);
    assert_eq!(player.oxygen, OXYGEN_MAX);
    assert_eq!(player.score, 100);
    assert_eq!(board.cell(0, target_col), Cell::Empty);

    assert!(matches!(board.cell(1, target_col), Cell::Rock { hits: 0 }));
}

#[test]
fn move_lateral_into_oxygen_capsule_via_left_direction_also_collects_it() {
    let mut board = empty_board(3);
    let mut player = Player::new();
    player.oxygen = points(40.0);
    let target_col = player.col - 1;
    board.rows[player.row][target_col] = Cell::Oxygen;

    let outcome = move_lateral(&mut board, &mut player, Direction::Left);

    assert_eq!(outcome, LateralOutcome::MovedLevelAndCollectedOxygen);
    assert_eq!(player.col, target_col);
    assert_eq!(player.oxygen, points(40.0) + OXYGEN_CAPSULE_RESTORE);
    assert_eq!(player.score, 100);
    assert_eq!(board.cell(0, target_col), Cell::Empty);
}

#[test]
fn move_lateral_climbs_when_an_item_is_directly_above_the_player_and_collects_it() {
    let mut board = empty_board(3);
    let mut player = Player::new();
    player.row = 1;
    let target_col = player.col + 1;
    board.rows[player.row][target_col] = Cell::Color(ColorKind::Red);
    board.rows[player.row - 1][player.col] = Cell::Item(ItemEffect::ClearAbove);

    move_lateral(&mut board, &mut player, Direction::Right);
    let outcome = move_lateral(&mut board, &mut player, Direction::Right);

    assert_eq!(outcome, LateralOutcome::ClimbedStep { overhead: Some(Pickup::Item(ItemEffect::ClearAbove)), landing: None, });
    assert_eq!(player.row, 0);
    assert_eq!(player.col, target_col);
    assert_eq!(player.bumped_direction, None);
    assert_eq!(board.cell(0, target_col - 1), Cell::Empty);

    assert_eq!(board.cell(1, target_col), Cell::Color(ColorKind::Red));
    assert_eq!(player.score, 0);
}

#[test]
fn move_lateral_climbs_when_oxygen_is_directly_above_the_player_and_collects_it() {
    let mut board = empty_board(3);
    let mut player = Player::new();
    player.row = 1;
    player.oxygen = points(40.0);
    let target_col = player.col + 1;
    board.rows[player.row][target_col] = Cell::Color(ColorKind::Red);
    board.rows[player.row - 1][player.col] = Cell::Oxygen;

    move_lateral(&mut board, &mut player, Direction::Right);
    let outcome = move_lateral(&mut board, &mut player, Direction::Right);

    assert_eq!(outcome, LateralOutcome::ClimbedStep { overhead: Some(Pickup::Oxygen), landing: None, });
    assert_eq!(player.row, 0);
    assert_eq!(player.col, target_col);
    assert_eq!(player.oxygen, points(40.0) + OXYGEN_CAPSULE_RESTORE);
    assert_eq!(player.score, 100);
    assert_eq!(board.cell(0, target_col - 1), Cell::Empty);
}

#[test]
fn move_lateral_collects_both_overhead_and_landing_items_when_climbing() {
    let mut board = empty_board(3);
    let mut player = Player::new();
    player.row = 1;
    let target_col = player.col + 1;
    board.rows[player.row][target_col] = Cell::Rock { hits: 0 };
    board.rows[player.row - 1][player.col] = Cell::Item(ItemEffect::UnifyColors);
    board.rows[player.row - 1][target_col] = Cell::Item(ItemEffect::StarifyScreen);

    move_lateral(&mut board, &mut player, Direction::Right);
    let outcome = move_lateral(&mut board, &mut player, Direction::Right);

    assert_eq!(outcome, LateralOutcome::ClimbedStep { overhead: Some(Pickup::Item(ItemEffect::UnifyColors)), landing: Some(Pickup::Item(ItemEffect::StarifyScreen)), });
    assert_eq!(player.row, 0);
    assert_eq!(player.col, target_col);
    assert_eq!(board.cell(0, target_col - 1), Cell::Empty);
    assert_eq!(board.cell(0, target_col), Cell::Empty);
    assert!(matches!(board.cell(1, target_col), Cell::Rock { hits: 0 }));
}

#[test]
fn move_lateral_collects_two_oxygen_capsules_when_both_overhead_and_landing_hold_one() {
    let mut board = empty_board(3);
    let mut player = Player::new();
    player.row = 1;
    player.oxygen = points(40.0);
    let target_col = player.col + 1;
    board.rows[player.row][target_col] = Cell::Rock { hits: 0 };
    board.rows[player.row - 1][player.col] = Cell::Oxygen;
    board.rows[player.row - 1][target_col] = Cell::Oxygen;

    move_lateral(&mut board, &mut player, Direction::Right);
    let outcome = move_lateral(&mut board, &mut player, Direction::Right);

    assert_eq!(outcome, LateralOutcome::ClimbedStep { overhead: Some(Pickup::Oxygen), landing: Some(Pickup::Oxygen), });
    assert_eq!(player.oxygen, OXYGEN_MAX);
    assert_eq!(player.score, 300);
    assert_eq!(player.oxygen_capsules_collected, 2);
    assert_eq!(board.cell(0, target_col - 1), Cell::Empty);
    assert_eq!(board.cell(0, target_col), Cell::Empty);
}

#[test]
fn move_lateral_first_press_does_not_collect_the_overhead_item() {
    let mut board = empty_board(3);
    let mut player = Player::new();
    player.row = 1;
    let target_col = player.col + 1;
    board.rows[player.row][target_col] = Cell::Color(ColorKind::Red);
    board.rows[player.row - 1][player.col] = Cell::Item(ItemEffect::ClearAbove);

    let outcome = move_lateral(&mut board, &mut player, Direction::Right);

    assert_eq!(outcome, LateralOutcome::Blocked);
    assert_eq!(player.row, 1);
    assert_eq!(player.col, target_col - 1);
    assert_eq!(player.bumped_direction, Some(Direction::Right));
    assert_eq!(board.cell(0, target_col - 1), Cell::Item(ItemEffect::ClearAbove));
}

#[test]
fn move_lateral_does_not_collect_the_overhead_item_when_the_landing_cell_is_blocked() {
    let mut board = empty_board(3);
    let mut player = Player::new();
    player.row = 1;
    let target_col = player.col + 1;
    board.rows[player.row][target_col] = Cell::Rock { hits: 0 };
    board.rows[player.row - 1][player.col] = Cell::Item(ItemEffect::ClearAbove);
    board.rows[player.row - 1][target_col] = Cell::Color(ColorKind::Blue);

    move_lateral(&mut board, &mut player, Direction::Right);
    let outcome = move_lateral(&mut board, &mut player, Direction::Right);

    assert_eq!(outcome, LateralOutcome::Blocked);
    assert_eq!(player.row, 1);
    assert_eq!(player.col, target_col - 1);
    assert_eq!(board.cell(0, target_col - 1), Cell::Item(ItemEffect::ClearAbove));
    assert_eq!(board.cell(0, target_col), Cell::Color(ColorKind::Blue));
}

#[test]
fn move_lateral_still_refuses_to_climb_under_a_physical_block() {
    for overhead in [
        Cell::Color(ColorKind::Red),
        Cell::Rock { hits: 0 },
        Cell::Diamond,
        Cell::Star { visible_ms: 0 },
    ] {
        let mut board = empty_board(3);
        let mut player = Player::new();
        player.row = 1;
        let target_col = player.col + 1;
        board.rows[player.row][target_col] = Cell::Color(ColorKind::Red);
        board.rows[player.row - 1][player.col] = overhead;

        move_lateral(&mut board, &mut player, Direction::Right);
        let outcome = move_lateral(&mut board, &mut player, Direction::Right);

        assert_eq!(outcome, LateralOutcome::Blocked);
        assert_eq!(player.row, 1);
        assert_eq!(player.col, target_col - 1);
        assert_eq!(board.cell(0, target_col - 1), overhead);
    }
}

#[test]
fn move_lateral_left_climbs_under_an_overhead_item_too() {
    let mut board = empty_board(3);
    let mut player = Player::new();
    player.row = 1;
    let target_col = player.col - 1;
    board.rows[player.row][target_col] = Cell::Color(ColorKind::Red);
    board.rows[player.row - 1][player.col] = Cell::Item(ItemEffect::ClearAbove);

    move_lateral(&mut board, &mut player, Direction::Left);
    let outcome = move_lateral(&mut board, &mut player, Direction::Left);

    assert_eq!(outcome, LateralOutcome::ClimbedStep { overhead: Some(Pickup::Item(ItemEffect::ClearAbove)), landing: None, });
    assert_eq!(player.row, 0);
    assert_eq!(player.col, target_col);
    assert_eq!(board.cell(0, target_col + 1), Cell::Empty);
    assert_eq!(board.cell(1, target_col), Cell::Color(ColorKind::Red));
}

#[test]
fn drill_facing_does_not_reset_the_bumped_direction() {
    let mut board = empty_board(3);
    let mut player = Player::new();
    player.bumped_direction = Some(Direction::Right);

    drill_facing(&mut board, &mut player, &GravityState::new(), &[]);

    assert_eq!(player.bumped_direction, Some(Direction::Right));
}

#[test]
fn drill_facing_left_does_not_move_player() {
    let mut board = empty_board(3);
    let mut player = Player::new();
    player.facing = Direction::Left;
    let target_col = player.col - 1;
    board.rows[player.row][target_col] = Cell::Color(ColorKind::Blue);

    let outcome = drill_facing(&mut board, &mut player, &GravityState::new(), &[]);

    assert_eq!(outcome, DrillOutcome::ColorDestroyed { blocks: 1 });
    assert_eq!(player.col, target_col + 1);
}

#[test]
fn drill_facing_down_clears_the_cell_but_does_not_move_the_player() {
    let mut board = empty_board(3);
    let mut player = Player::new();
    player.facing = Direction::Down;
    board.rows[player.row + 1][player.col] = Cell::Color(ColorKind::Green);

    let outcome = drill_facing(&mut board, &mut player, &GravityState::new(), &[]);

    assert_eq!(outcome, DrillOutcome::ColorDestroyed { blocks: 1 });
    assert_eq!(player.row, 0);
    assert_eq!(board.cell(1, player.col), Cell::Empty);

    let fall_outcome = apply_player_free_fall(&mut board, &mut player);
    assert_eq!(fall_outcome, FreeFallOutcome::Fell);
    assert_eq!(player.row, 1);
}

#[test]
fn drill_facing_down_does_not_descend_when_rock_still_intact() {
    let mut board = empty_board(3);
    let mut player = Player::new();
    player.facing = Direction::Down;
    board.rows[player.row + 1][player.col] = Cell::Rock { hits: 0 };

    let outcome = drill_facing(&mut board, &mut player, &GravityState::new(), &[]);

    assert_eq!(outcome, DrillOutcome::RockHitIntact);
    assert_eq!(player.row, 0);
}

#[test]
fn drill_facing_up_into_empty_has_no_effect() {
    let mut board = empty_board(3);
    let mut player = Player::new();
    player.row = 1;
    player.facing = Direction::Up;

    let outcome = drill_facing(&mut board, &mut player, &GravityState::new(), &[]);

    assert_eq!(outcome, DrillOutcome::NoEffect);
    assert_eq!(player.row, 1);
}

#[test]
fn is_overhead_unstable_crushes_when_diamond_above_is_unsupported() {
    let mut board = empty_board(3);
    let mut player = Player::new();
    player.row = 1;
    player.facing = Direction::Up;
    board.rows[0][player.col] = Cell::Diamond;

    let outcome = drill_facing(&mut board, &mut player, &GravityState::new(), &[]);

    assert_eq!(outcome, DrillOutcome::CrushedByUnstableOverhead);
}

#[test]
fn is_overhead_unstable_still_allows_drilling_a_lone_shaking_block_with_nothing_above() {
    let mut board = empty_board(3);
    board.rows[0][5] = Cell::Color(ColorKind::Red);
    let mut player = Player::new();
    player.row = 1;
    player.col = 5;
    player.facing = Direction::Up;
    let mut gravity = GravityState::new();
    process_gravity_tick(
        &mut board,
        &mut player,
        &[],
        &mut gravity,
        false,
        SHAKE_TICKS,
    );
    assert!(gravity.is_shaking((0, 5)));

    let outcome = drill_facing(&mut board, &mut player, &gravity, &[]);

    assert_eq!(outcome, DrillOutcome::ColorDestroyed { blocks: 1 });
}

#[test]
fn is_overhead_unstable_crushes_when_a_second_block_still_looms_above_a_shaking_one() {
    let mut board = empty_board(4);
    board.rows[0][5] = Cell::Color(ColorKind::Blue);
    board.rows[1][5] = Cell::Color(ColorKind::Blue);
    let mut player = Player::new();
    player.row = 2;
    player.col = 5;
    player.facing = Direction::Up;
    let mut gravity = GravityState::new();
    process_gravity_tick(
        &mut board,
        &mut player,
        &[],
        &mut gravity,
        false,
        SHAKE_TICKS,
    );
    assert!(gravity.is_shaking((1, 5)));

    let outcome = drill_facing(&mut board, &mut player, &gravity, &[]);

    assert_eq!(outcome, DrillOutcome::CrushedByUnstableOverhead);
}

#[test]
fn oxygen_decay_reduces_by_rate_times_delta() {
    let mut player = Player::new();

    apply_oxygen_decay(&mut player, seconds(1));

    assert_eq!(player.oxygen, OXYGEN_MAX - OXYGEN_DECAY_PER_SEC * OXYGEN_UNIT);
}

#[test]
fn process_gravity_tick_awards_auto_vanish_score() {
    let mut board = empty_board(2);
    board.rows[0][0] = Cell::Color(ColorKind::Red);
    board.rows[0][1] = Cell::Color(ColorKind::Red);
    board.rows[0][2] = Cell::Color(ColorKind::Red);
    board.rows[1][3] = Cell::Color(ColorKind::Red);
    let mut player = Player::new();
    player.row = 99;
    player.col = 99;
    let mut gravity = GravityState::new();

    let result = shake_out_then_process_tick(&mut board, &mut player, &mut gravity, false);

    assert_eq!(result.auto_vanished_blocks, 4);
    assert_eq!(player.score, 4 * 30);
}

#[test]
fn process_gravity_tick_merges_falling_group_with_supported_same_color_block_directly_below() {
    let mut board = empty_board(3);
    board.rows[2][0] = Cell::Color(ColorKind::Red);
    board.rows[2][1] = Cell::Color(ColorKind::Red);
    board.rows[0][0] = Cell::Color(ColorKind::Red);
    board.rows[0][1] = Cell::Color(ColorKind::Red);
    let mut player = Player::new();
    player.row = 99;
    player.col = 99;
    let mut gravity = GravityState::new();

    let result = shake_out_then_process_tick(&mut board, &mut player, &mut gravity, false);

    assert_eq!(result.auto_vanished_blocks, 4);
    assert_eq!(player.score, 4 * 30);
    assert_eq!(board.cell(1, 0), Cell::Empty);
    assert_eq!(board.cell(2, 0), Cell::Empty);
}

#[test]
fn process_gravity_tick_rock_auto_vanishes_without_awarding_score() {
    let mut board = empty_board(3);
    board.rows[2][0] = Cell::Rock { hits: 1 };
    board.rows[2][1] = Cell::Rock { hits: 3 };
    board.rows[0][0] = Cell::Rock { hits: 4 };
    board.rows[0][1] = Cell::Rock { hits: 0 };
    let mut player = Player::new();
    player.row = 99;
    player.col = 99;
    let mut gravity = GravityState::new();

    let result = shake_out_then_process_tick(&mut board, &mut player, &mut gravity, false);

    assert_eq!(result.auto_vanished_rock_blocks, 4);
    assert_eq!(result.auto_vanished_blocks, 0);
    assert_eq!(player.score, 0);
    assert_eq!(board.cell(1, 0), Cell::Empty);
    assert_eq!(board.cell(2, 0), Cell::Empty);
}

#[test]
fn process_gravity_tick_crush_is_suppressed_while_invulnerable() {
    let mut board = empty_board(2);
    board.rows[0][0] = Cell::Color(ColorKind::Red);
    let mut player = Player::new();
    player.row = 1;
    player.col = 0;
    let mut gravity = GravityState::new();

    let result = shake_out_then_process_tick(&mut board, &mut player, &mut gravity, true);

    assert!(!result.life_lost_to_crush);

    assert_eq!(board.cell(1, 0), Cell::Color(ColorKind::Red));
}

#[test]
fn process_gravity_tick_crush_triggers_life_loss_when_not_invulnerable() {
    let mut board = empty_board(2);
    board.rows[0][0] = Cell::Color(ColorKind::Red);
    let mut player = Player::new();
    player.row = 1;
    player.col = 0;
    let mut gravity = GravityState::new();

    let result = shake_out_then_process_tick(&mut board, &mut player, &mut gravity, false);

    assert!(result.life_lost_to_crush);
}

#[test]
fn drilling_away_the_support_does_not_cause_an_immediate_fall_it_shakes_first() {
    let mut board = empty_board(3);
    board.rows[1][0] = Cell::Color(ColorKind::Blue);
    board.rows[0][0] = Cell::Color(ColorKind::Red);
    let mut player = Player::new();
    player.row = 1;
    player.col = 1;
    player.facing = Direction::Left;
    let mut gravity = GravityState::new();

    let drill_outcome = drill_facing(&mut board, &mut player, &gravity, &[]);
    assert_eq!(drill_outcome, DrillOutcome::ColorDestroyed { blocks: 1 });
    assert_eq!(board.cell(1, 0), Cell::Empty);
    assert_eq!(player.col, 1);

    for _ in 0..SHAKE_TICKS {
        let tick = process_gravity_tick(
            &mut board,
            &mut player,
            &[],
            &mut gravity,
            false,
            SHAKE_TICKS,
        );
        assert_eq!(tick.moved_cells.len(), 0);
    }
    assert_eq!(board.cell(0, 0), Cell::Color(ColorKind::Red));

    let tick = process_gravity_tick(
        &mut board,
        &mut player,
        &[],
        &mut gravity,
        false,
        SHAKE_TICKS,
    );
    assert_eq!(tick.moved_cells.len(), 1);
    assert_eq!(board.cell(0, 0), Cell::Empty);
    assert_eq!(board.cell(1, 0), Cell::Color(ColorKind::Red));
}

#[test]
fn apply_player_free_fall_drops_one_row_when_below_is_empty() {
    let mut board = empty_board(5);
    let mut player = Player::new();
    player.row = 2;

    let outcome = apply_player_free_fall(&mut board, &mut player);

    assert_eq!(outcome, FreeFallOutcome::Fell);
    assert_eq!(player.row, 3);
}

#[test]
fn apply_player_free_fall_does_nothing_when_supported() {
    let mut board = empty_board(5);
    let mut player = Player::new();
    player.row = 2;
    board.rows[3][player.col] = Cell::Color(ColorKind::Red);

    let outcome = apply_player_free_fall(&mut board, &mut player);

    assert_eq!(outcome, FreeFallOutcome::DidNotFall);
    assert_eq!(player.row, 2);
}

#[test]
fn apply_player_free_fall_does_nothing_at_the_deepest_row() {
    let mut board = empty_board(3);
    let mut player = Player::new();
    player.row = 2;

    let outcome = apply_player_free_fall(&mut board, &mut player);

    assert_eq!(outcome, FreeFallOutcome::DidNotFall);
    assert_eq!(player.row, 2);
}

#[test]
fn a_step_off_the_side_is_refused_in_any_row() {
    let mut board = empty_board(3);
    let mut player = Player::new();
    player.row = 7;
    player.col = 0;
    let facing = player.facing;

    assert_eq!(move_lateral(&mut board, &mut player, Direction::Left), LateralOutcome::OutOfBounds);
    assert_eq!(player.position(), (7, 0));
    assert_eq!(player.facing, facing);
}

#[test]
fn nobody_falls_past_the_deepest_row_or_off_an_empty_field() {
    let mut board = empty_board(3);
    let mut player = Player::new();
    player.row = 7;

    assert_eq!(apply_player_free_fall(&mut board, &mut player), FreeFallOutcome::DidNotFall);
    assert_eq!(player.row, 7);

    let mut nothing = empty_board(0);
    assert_eq!(apply_player_free_fall(&mut nothing, &mut player), FreeFallOutcome::DidNotFall);
    assert_eq!(player.row, 7);
}

#[test]
fn apply_player_free_fall_onto_oxygen_capsule_collects_it_and_restores_oxygen() {
    let mut board = empty_board(5);
    let mut player = Player::new();
    board.rows[3][player.col] = Cell::Oxygen;
    player.row = 2;
    player.oxygen = points(10.0);

    let outcome = apply_player_free_fall(&mut board, &mut player);

    assert_eq!(outcome, FreeFallOutcome::FellAndCollectedOxygen);
    assert_eq!(player.row, 3);
    assert_eq!(board.cell(3, player.col), Cell::Empty);
    assert_eq!(player.oxygen, points(10.0) + OXYGEN_CAPSULE_RESTORE);
}

fn board_with_a_group_over_an_overlay() -> (Board, Player) {
    let mut board = empty_board(4);
    let mut player = Player::new();
    player.row = 2;
    player.col = 1;
    player.facing = Direction::Up;
    board.rows[1][0] = Cell::Color(ColorKind::Red);
    board.rows[1][1] = Cell::Color(ColorKind::Red);
    (board, player)
}

#[test]
fn drilling_up_into_a_group_held_by_a_solid_overlay_is_not_a_crush() {
    let (mut board, mut player) = board_with_a_group_over_an_overlay();
    let solid = [(2usize, 0usize)];

    let outcome = drill_facing(&mut board, &mut player, &GravityState::new(), &solid);

    assert_eq!(outcome, DrillOutcome::ColorDestroyed { blocks: 2 });
}

#[test]
fn drilling_up_into_the_same_group_without_a_solid_overlay_still_crushes() {
    let (mut board, mut player) = board_with_a_group_over_an_overlay();

    let outcome = drill_facing(&mut board, &mut player, &GravityState::new(), &[]);

    assert_eq!(outcome, DrillOutcome::CrushedByUnstableOverhead);
}

#[test]
fn is_falling_hazard_is_false_for_a_group_held_by_a_solid_overlay() {
    let (board, player) = board_with_a_group_over_an_overlay();
    let gravity = GravityState::new();
    let player_pos = player.position();
    let solid = [(2usize, 0usize)];

    assert!(!is_falling_hazard(&board, &gravity, (1, 1), player_pos, &solid));
    assert!(is_falling_hazard(&board, &gravity, (1, 1), player_pos, &[]));
}

#[test]
fn is_falling_hazard_is_false_for_a_single_cell_resting_on_a_solid_overlay() {
    for kind in [Cell::Diamond, Cell::Star { visible_ms: 0 }] {
        let mut board = empty_board(4);
        board.rows[1][1] = kind;
        let gravity = GravityState::new();
        let player_pos = (3usize, 5usize);
        let solid = [(2usize, 1usize)];

        assert!(!is_falling_hazard(&board, &gravity, (1, 1), player_pos, &solid));
        assert!(is_falling_hazard(&board, &gravity, (1, 1), player_pos, &[]));
    }
}
