//! Games from the outside: digging, falling, missing, checkpoints and rewinding.
use misterdrillerterm::board::{Cell, ColorKind, ItemEffect};
use misterdrillerterm::constants::{
    BLOCK_VANISH_FLASH_MIN_MS, BLOCK_VANISH_FLASH_MS, BONUS_FLOOR_DEPTH_M, CHECKPOINT_FLASH_MS,
    CHECKPOINT_SAFE_ZONE_M, CHECKPOINT_STEP_M, CHECKPOINT_ZONE_GAP_M, CRUSH_ASCEND_MS,
    CRUSH_FLASH_MS, DEBUG_FALL_TICK_MS_MIN, DODGE_SLIDE_MS, DRILL_ANIM_FRAME_MS, DRILL_ANIM_MS,
    FALL_TICK_MS, FIELD_DEPTH_M, FIELD_WIDTH_DEFAULT, FIELD_WIDTH_MAX, FIELD_WIDTH_MIN,
    FRAME_INTERVAL_MS, INPUT_COOLDOWN_MS, LEVEL_STEP_M, LIVES_DEFAULT, LIVES_MAX,
    MOVE_ANIM_DURATION_MS, MOVE_COOLDOWN_MS_MAX, MOVE_COOLDOWN_MS_MIN, NANOS_PER_MS,
    OXYGEN_CAPSULE_RESTORE, OXYGEN_MAX, OXYGEN_UNIT, PLAYER_SCREEN_ROWS_ABOVE, REWIND_STOCK_INITIAL,
    REWIND_STOCK_MAX_DEFAULT, REWIND_STOCK_PER_CHECKPOINT, ROCK_HITS_TO_BREAK, SHAKE_TICKS,
    STAR_MELT_DURATION_MS, STAR_VISIBLE_GRACE_MS,
};
use misterdrillerterm::flash::Progress;
use misterdrillerterm::game::{
    DodgeStage, Game, GameEvent, GameOverChoice, GameStatus, InputAction, MissCause,
};
use misterdrillerterm::player::Direction;

/// Seconds, in nanoseconds.
fn seconds(s: u64) -> u64 {
    millis(s * 1000)
}

/// Milliseconds, in nanoseconds.
fn millis(ms: u64) -> u64 {
    ms * NANOS_PER_MS
}

/// Points of air.
fn points(p: f64) -> u64 {
    (p * OXYGEN_UNIT as f64).round() as u64
}

/// A share, as a number.
fn ratio(p: Progress) -> f64 {
    p.done as f64 / p.total as f64
}

fn clear_board(game: &mut Game) {
    for row in game.board.rows.iter_mut() {
        for cell in row.iter_mut() {
            *cell = Cell::Empty;
        }
    }
}

fn advance_one_step(game: &mut Game, step: usize) {
    match step % 3 {
        0 => {
            game.face_down();
            game.try_drill();
        }
        1 => {
            game.try_move_right();
        }
        _ => {
            game.try_move_left();
        }
    }
    game.update(millis(FALL_TICK_MS));
}

fn assert_same_state(actual: &mut Game, expected: &mut Game) {
    assert_eq!(actual.board.depth_rows(), expected.board.depth_rows());
    assert_eq!(actual.board.width(), expected.board.width());
    for row in 0..expected.board.depth_rows() {
        for col in 0..expected.board.width() {
            assert_eq!(actual.board.cell(row, col), expected.board.cell(row, col));
        }
    }
    assert_eq!(actual.player.position(), expected.player.position());
    assert_eq!(actual.player.facing, expected.player.facing);
    assert_eq!(actual.player.score, expected.player.score);
    assert_eq!(actual.player.lives, expected.player.lives);
    assert_eq!(actual.player.oxygen, expected.player.oxygen);
    assert_eq!(actual.player.oxygen_capsules_collected, expected.player.oxygen_capsules_collected);
    assert_eq!(actual.player.elapsed_nanos, expected.player.elapsed_nanos);
    assert_eq!(actual.bombs, expected.bombs);
    assert_eq!(actual.status, expected.status);

    assert_eq!(actual.core.rng, expected.core.rng);
}

#[test]
fn restore_for_rewind_reproduces_the_exact_same_future_from_the_snapshot() {
    let mut game = Game::new(7);

    game.set_bomb_spawn_rate_percent(2000);
    for step in 0..30 {
        advance_one_step(&mut game, step);
    }

    let snapshot = game.clone();

    let mut expected = snapshot.clone();
    for step in 0..40 {
        advance_one_step(&mut expected, step);
    }

    for step in 0..25 {
        advance_one_step(&mut game, step + 1);
    }
    game.restore_for_rewind(&snapshot);
    for step in 0..40 {
        advance_one_step(&mut game, step);
    }

    assert_same_state(&mut game, &mut expected);
}

#[test]
fn restore_for_rewind_carries_over_the_values_that_must_not_be_rewound() {
    let mut game = Game::new(3);
    let snapshot = game.clone();

    for step in 0..10 {
        advance_one_step(&mut game, step);
    }
    game.set_invincible(true);
    game.core.misses_averted = 5;
    let frame_before = game.core.frame_counter;
    assert!(frame_before > 0);

    game.restore_for_rewind(&snapshot);

    assert_eq!(game.core.frame_counter, frame_before);
    assert!(game.is_invincible());
    assert_eq!(game.misses_averted(), 5);
    assert_eq!(game.rewind_stock(), REWIND_STOCK_INITIAL - 1);
}

#[test]
fn rewind_stock_starts_at_the_initial_value_and_never_exceeds_the_maximum() {
    let game = Game::new(1);
    assert_eq!(game.rewind_stock(), REWIND_STOCK_INITIAL);
    assert_eq!(game.rewind_stock_max(), REWIND_STOCK_MAX_DEFAULT);
}

#[test]
fn set_rewind_stock_max_clamps_the_current_stock_down() {
    let mut game = Game::new(1);
    game.set_rewind_stock_max(1);
    assert_eq!(game.rewind_stock(), 1);

    game.set_rewind_stock_max(0);
    assert_eq!(game.rewind_stock(), 0);
    assert!(!game.can_start_rewind());
}

#[test]
fn reaching_a_100m_checkpoint_refills_one_rewind_stock_up_to_the_maximum() {
    let mut game = Game::new(90);
    game.set_rewind_stock_max(3);
    game.core.rewind_stock = 1;
    game.player.row =
        CHECKPOINT_STEP_M + CHECKPOINT_SAFE_ZONE_M - 1;
    game.player.facing = Direction::Down;
    game.board.rows[game.player.row + 1][game.player.col] = Cell::Empty;

    game.try_drill();
    let events = game.update(millis(FALL_TICK_MS));

    assert!(events.contains(&GameEvent::Checkpoint100m { at_m: 100 }));
    assert_eq!(game.rewind_stock(), 1 + REWIND_STOCK_PER_CHECKPOINT);
}

#[test]
fn checkpoint_refill_does_not_exceed_the_configured_maximum() {
    let mut game = Game::new(90);
    game.set_rewind_stock_max(2);
    assert_eq!(game.rewind_stock(), 2);
    game.player.row =
        CHECKPOINT_STEP_M + CHECKPOINT_SAFE_ZONE_M - 1;
    game.player.facing = Direction::Down;
    game.board.rows[game.player.row + 1][game.player.col] = Cell::Empty;

    game.try_drill();
    let events = game.update(millis(FALL_TICK_MS));

    assert!(events.contains(&GameEvent::Checkpoint100m { at_m: 100 }));
    assert_eq!(game.rewind_stock(), 2);
}

#[test]
fn revive_restores_the_rewind_stock_to_the_initial_value() {
    let mut game = Game::new(1);
    game.core.rewind_stock = 0;
    game.status = GameStatus::GameOver;

    game.revive();

    assert_eq!(game.rewind_stock(), REWIND_STOCK_INITIAL);
}

#[test]
fn revive_does_not_restore_the_stock_beyond_the_configured_maximum() {
    let mut game = Game::new(1);
    game.set_rewind_stock_max(1);
    game.core.rewind_stock = 0;
    game.status = GameStatus::GameOver;

    game.revive();

    assert_eq!(game.rewind_stock(), 1);
}

#[test]
fn mod_can_start_rewind_is_true_only_while_playing_or_game_over_and_with_stock_left() {
    let mut game = Game::new(1);

    game.status = GameStatus::Playing;
    assert!(game.can_start_rewind());

    game.core.ascending_remaining = Some(millis(100));
    assert!(game.is_dying());
    assert!(game.can_start_rewind());
    game.core.ascending_remaining = None;

    game.status = GameStatus::GameOver;
    assert!(game.can_start_rewind());

    game.status = GameStatus::Paused;
    assert!(!game.can_start_rewind());

    game.status = GameStatus::Cleared;
    assert!(!game.can_start_rewind());

    game.status = GameStatus::Playing;
    game.core.rewind_stock = 0;
    assert!(!game.can_start_rewind());
}

#[test]
fn is_rewind_capturable_excludes_dying_paused_game_over_and_cleared() {
    let mut game = Game::new(1);
    assert!(game.is_rewind_capturable());

    game.core.ascending_remaining = Some(millis(100));
    assert!(!game.is_rewind_capturable());
    game.core.ascending_remaining = None;

    for status in [
        GameStatus::Paused,
        GameStatus::GameOver,
        GameStatus::Cleared,
    ] {
        game.status = status;
        assert!(!game.is_rewind_capturable());
    }
}

#[test]
fn is_rewind_capturable_allows_recording_during_the_dodge_slider() {
    let mut game = Game::new(1);
    game.core.dodge_stage = DodgeStage::Sliding;
    assert!(game.is_rewind_capturable());
}

#[test]
fn reaching_goal_depth_via_drill_clears_the_game() {
    let mut game = Game::new(1);
    game.player.row = FIELD_DEPTH_M - 2;
    game.player.facing = Direction::Down;
    let last_row = FIELD_DEPTH_M - 1;
    game.board.rows[last_row][game.player.col] = Cell::Empty;

    game.try_drill();
    let events = game.update(millis(FALL_TICK_MS));

    assert_eq!(game.status, GameStatus::Cleared);
    assert!(events.iter().any(|e| matches!(e, GameEvent::Cleared)));
}

#[test]
fn a_custom_depth_goal_clears_the_game_there_instead_of_at_field_depth_m() {
    let depth_goal_m = 20;
    let mut game = Game::new_with_width(1, FIELD_WIDTH_DEFAULT, depth_goal_m);
    assert_eq!(game.board.depth_rows(), depth_goal_m);

    game.player.row = depth_goal_m - 2;
    game.player.facing = Direction::Down;
    let last_row = depth_goal_m - 1;
    game.board.rows[last_row][game.player.col] = Cell::Empty;

    game.try_drill();
    let events = game.update(millis(FALL_TICK_MS));

    assert_eq!(game.status, GameStatus::Cleared);
    assert!(events.iter().any(|e| matches!(e, GameEvent::Cleared)));
}

#[test]
fn drilling_an_item_does_nothing_like_air() {
    let mut game = Game::new(74);
    clear_board(&mut game);
    game.player.row = 500;
    game.player.col = 5;
    game.player.facing = Direction::Down;
    game.board.rows[501][5] = Cell::Item(ItemEffect::ClearAbove);

    let events = game.try_drill();

    assert!(matches!(game.board.cell(501, 5), Cell::Item(ItemEffect::ClearAbove)));
    assert!(events.is_empty());
}

#[test]
fn touching_a_clear_above_item_clears_blocks_above_the_player_and_emits_event() {
    let mut game = Game::new(74);
    clear_board(&mut game);
    game.player.row = 500;
    game.player.col = 5;
    game.board.rows[501][5] = Cell::Rock { hits: 0 };
    game.board.rows[500][6] = Cell::Item(ItemEffect::ClearAbove);
    game.board.rows[200][4] = Cell::Color(ColorKind::Red);

    let events = game.try_move_right();

    assert_eq!(game.player.col, 6);
    assert!(matches!(game.board.cell(500, 6), Cell::Empty));
    assert!(matches!(game.board.cell(200, 4), Cell::Empty));
    assert!(events.iter().any(|e| matches!(e, GameEvent::ItemCollected(ItemEffect::ClearAbove))));
}

#[test]
fn touching_a_unify_colors_item_reduces_nearby_colors_to_two_and_emits_event() {
    let mut game = Game::new(74);
    clear_board(&mut game);
    game.player.row = 500;
    game.player.col = 5;
    game.board.rows[501][5] = Cell::Rock { hits: 0 };
    game.board.rows[500][6] = Cell::Item(ItemEffect::UnifyColors);
    for (i, color) in [
        ColorKind::Red,
        ColorKind::Blue,
        ColorKind::Green,
        ColorKind::Yellow,
    ]
    .into_iter()
    .enumerate()
    {
        game.board.rows[499][i] = Cell::Color(color);
    }

    let events = game.try_move_right();

    let mut distinct_colors: Vec<ColorKind> = game.board.rows[499]
        .iter()
        .filter_map(|c| {
            if let Cell::Color(k) = c {
                Some(*k)
            } else {
                None
            }
        })
        .collect();
    distinct_colors.dedup();
    distinct_colors.sort_by_key(|k| ColorKind::ALL.iter().position(|c| c == k).unwrap());
    distinct_colors.dedup();
    assert!(distinct_colors.len() <= 2);
    assert!(events.iter().any(|e| matches!(e, GameEvent::ItemCollected(ItemEffect::UnifyColors))));
}

#[test]
fn touching_a_starify_screen_item_converts_visible_rock_and_diamond_to_stars_and_emits_event() {
    let mut game = Game::new(74);
    clear_board(&mut game);
    game.player.row = 500;
    game.player.col = 5;
    game.board.rows[501][5] = Cell::Rock { hits: 0 };
    game.board.rows[500][6] = Cell::Item(ItemEffect::StarifyScreen);
    game.board.rows[495][3] = Cell::Rock { hits: 1 };
    game.board.rows[498][4] = Cell::Diamond;

    let events = game.try_move_right();

    assert!(matches!(game.board.cell(495, 3), Cell::Star { .. }));
    assert!(matches!(game.board.cell(498, 4), Cell::Star { .. }));
    assert!(events.iter().any(|e| matches!(e, GameEvent::ItemCollected(ItemEffect::StarifyScreen))));
}

#[test]
fn item_survives_falling_together_with_a_diamond_above_it() {
    const FRAME_MS: u64 = 33;
    let mut game = Game::new(80);
    clear_board(&mut game);
    game.player.row = 999;
    game.player.col = 11;

    game.set_bomb_spawn_rate_percent(0);

    game.board.rows[500][0] = Cell::Diamond;
    game.board.rows[501][0] = Cell::Item(ItemEffect::ClearAbove);

    let total_ms_needed = (SHAKE_TICKS as u64 + 1) * FALL_TICK_MS + 500 * FALL_TICK_MS;
    let mut elapsed_ms = 0u64;
    while elapsed_ms < total_ms_needed {
        game.player.oxygen = OXYGEN_MAX;
        game.update(millis(FRAME_MS));
        elapsed_ms += FRAME_MS;
    }

    let item_count = game
        .board
        .rows
        .iter()
        .flatten()
        .filter(|c| matches!(c, Cell::Item(_)))
        .count();
    assert_eq!(item_count, 1);
    assert!(matches!(game.board.cell(999, 0), Cell::Item(ItemEffect::ClearAbove)));
    assert!(matches!(game.board.cell(998, 0), Cell::Diamond));
}

#[test]
fn item_top_up_keeps_placing_new_items_far_ahead_as_the_player_advances() {
    let mut game = Game::new(1);
    game.reroll_spawn_rates_from(2, 100, 100, 100, 100, 300, 300, 300, 4, 100);

    let count_in_range = |game: &Game, effect: ItemEffect, from: usize, to: usize| {
        game.board.rows[from..to]
            .iter()
            .flatten()
            .filter(|c| matches!(c, Cell::Item(e) if *e == effect))
            .count()
    };

    assert!(count_in_range(&game, ItemEffect::UnifyColors, 0, 100) > 0);

    for row in 1..=500 {
        game.player.row = row;
        game.check_level_and_clear(&mut Vec::new());
    }

    assert!(count_in_range(&game, ItemEffect::UnifyColors, 500, 600) > 0);
    assert!(count_in_range(&game, ItemEffect::StarifyScreen, 500, 600) > 0);
}

#[test]
fn oxygen_running_out_during_update_costs_a_life_and_continues() {
    let mut game = Game::new(2);
    game.player.oxygen = points(1.0);
    let lives_before = game.player.lives;

    let events = game.update(seconds(1));

    assert_eq!(game.status, GameStatus::Playing);
    assert!(game.is_dying());
    assert_eq!(game.player.lives, lives_before);
    assert!(events.iter().any(|e| matches!(e, GameEvent::LifeLost { .. })));

    game.update(millis(
        CRUSH_ASCEND_MS + 10,
    ));

    assert_eq!(game.player.lives, lives_before - 1);
    assert_eq!(game.player.oxygen, OXYGEN_MAX);
}

#[test]
fn oxygen_running_out_on_last_life_ends_the_game() {
    let mut game = Game::new_with_lives(2, 1);
    game.player.oxygen = points(1.0);

    let events = game.update(seconds(1));

    assert_eq!(game.status, GameStatus::Playing);
    assert!(game.is_dying());
    assert_eq!(game.player.lives, 1);
    assert!(events.iter().any(|e| matches!(e, GameEvent::GameOverMiss { .. })));

    game.update(millis(
        CRUSH_ASCEND_MS + 10,
    ));

    assert_eq!(game.status, GameStatus::GameOver);
    assert_eq!(game.player.lives, 0);
}

#[test]
fn oxygen_death_on_the_last_life_reaches_a_displayable_game_over_dialog() {
    let mut game = Game::new_with_lives(2, 1);
    game.player.oxygen = points(1.0);

    let mut events = game.update(seconds(1));
    events.extend(game.update(millis(
        CRUSH_ASCEND_MS + 10,
    )));

    assert_eq!(game.status, GameStatus::GameOver);
    assert_eq!(events.iter().filter(|e| matches!(e, GameEvent::GameOverMiss { .. })).count(), 1);
    assert!(!game.is_dying());
    assert!(!game.crush_flash_active());

    game.update(millis(
        CRUSH_ASCEND_MS + 10,
    ));
    assert!(!game.crush_flash_active());
}

#[test]
fn invincible_is_off_by_default_so_existing_behaviour_is_unchanged() {
    let game = Game::new(1);
    assert!(!game.is_invincible());
    assert_eq!(game.misses_averted(), 0);
}

#[test]
fn invincible_turns_oxygen_death_into_an_averted_miss_and_refills_the_tank() {
    let mut game = Game::new(2);
    game.set_invincible(true);
    let lives_before = game.player.lives;
    game.player.oxygen = points(1.0);

    let events = game.update(seconds(1));

    assert_eq!(game.status, GameStatus::Playing);
    assert!(!game.is_dying());
    assert_eq!(game.player.lives, lives_before);
    assert_eq!(game.player.oxygen, OXYGEN_MAX);
    assert_eq!(game.misses_averted(), 1);
    assert_eq!(events.iter().filter(|e| **e == GameEvent::MissAverted { cause: MissCause::OxygenOut }).count(), 1);
    assert!(!events.iter().any(|e| matches!(e, GameEvent::LifeLost { .. } | GameEvent::GameOverMiss { .. } | GameEvent::Revived)));
}

#[test]
fn invincible_keeps_playing_even_on_the_last_life() {
    let mut game = Game::new_with_lives(3, 1);
    game.set_invincible(true);
    game.player.oxygen = points(1.0);

    game.update(seconds(1));

    assert_eq!(game.status, GameStatus::Playing);
    assert_eq!(game.player.lives, 1);
}

#[test]
fn invincible_clears_the_block_that_crushed_the_player_and_flashes_it() {
    let mut game = Game::new(34);
    game.set_invincible(true);
    clear_board(&mut game);
    game.player.row = 999;
    game.player.col = 5;
    let lives_before = game.player.lives;
    game.board.rows[998][5] = Cell::Color(ColorKind::Red);

    let events = game.update(millis(
        (SHAKE_TICKS as u64 + 1) * FALL_TICK_MS + 10,
    ));

    assert_eq!(game.player.lives, lives_before);
    assert_eq!(game.status, GameStatus::Playing);
    assert!(events.contains(&GameEvent::MissAverted { cause: MissCause::CrushedByFallingBlock }));
    assert_eq!(game.board.cell(999, 5), Cell::Empty);
    assert!(game.vanish_flash_progress((999, 5)).is_some());
}

#[test]
fn invincible_averts_the_crush_from_drilling_into_a_falling_block() {
    let mut game = Game::new(36);
    game.set_invincible(true);
    clear_board(&mut game);
    game.player.row = 500;
    game.player.col = 5;
    game.player.facing = Direction::Up;
    game.board.rows[501][5] = Cell::Rock { hits: 0 };

    game.board.rows[499][5] = Cell::Color(ColorKind::Red);
    let misses_before = game.misses_averted();

    let events = game.try_drill();

    assert!(events.contains(&GameEvent::MissAverted { cause: MissCause::DrilledIntoFallingBlock }));
    assert_eq!(game.misses_averted(), misses_before + 1);
    assert_eq!(game.status, GameStatus::Playing);
}

#[test]
fn mod_misses_averted_counts_every_averted_miss() {
    let mut game = Game::new(4);
    game.set_invincible(true);

    for expected in 1..=3 {
        game.player.oxygen = points(1.0);
        game.update(seconds(1));
        assert_eq!(game.misses_averted(), expected);
    }
}

#[test]
fn turning_invincible_back_off_restores_the_normal_miss_handling() {
    let mut game = Game::new(5);
    game.set_invincible(true);
    game.player.oxygen = points(1.0);
    game.update(seconds(1));
    assert_eq!(game.player.lives, LIVES_DEFAULT);

    game.set_invincible(false);
    assert!(!game.is_invincible());
    game.player.oxygen = points(1.0);
    let events = game.update(seconds(1));

    assert!(events.iter().any(|e| matches!(e, GameEvent::LifeLost { .. })));
    assert!(game.is_dying());
}

#[test]
fn apply_input_routes_the_five_gameplay_actions_to_their_handlers() {
    fn grounded_game(seed: u64) -> Game {
        let mut game = Game::new(seed);
        clear_board(&mut game);
        game.player.row = 500;
        game.player.col = 5;
        for col in 4..=6 {
            game.board.rows[501][col] = Cell::Rock { hits: 0 };
        }
        game
    }

    let mut game = grounded_game(40);
    game.apply_input(InputAction::FaceUp);
    assert_eq!(game.player.facing, Direction::Up);
    game.apply_input(InputAction::FaceDown);
    assert_eq!(game.player.facing, Direction::Down);

    let mut game = grounded_game(41);
    game.apply_input(InputAction::MoveLeft);
    assert_eq!(game.player.col, 4);
    assert_eq!(game.player.facing, Direction::Left);

    let mut game = grounded_game(42);
    game.apply_input(InputAction::MoveRight);
    assert_eq!(game.player.col, 6);
    assert_eq!(game.player.facing, Direction::Right);

    let mut game = grounded_game(43);
    game.player.facing = Direction::Down;
    game.board.rows[501][5] = Cell::Color(ColorKind::Red);
    let events = game.apply_input(InputAction::Drill);
    assert!(events.contains(&GameEvent::DrillImpact));
}

#[test]
fn apply_input_ignores_actions_that_are_not_gameplay_operations() {
    let mut game = Game::new(41);
    let before = (
        game.player.position(),
        game.player.facing,
        game.status,
        game.player.lives,
        game.is_invincible(),
    );

    for action in [
        InputAction::TogglePause,
        InputAction::Quit,
        InputAction::Confirm,
        InputAction::ToggleMusic,
        InputAction::ToggleSe,
        InputAction::OpenSettings,
        InputAction::OpenHelp,
        InputAction::UnboundKey,
        InputAction::DebugToggleAutopilot,
        InputAction::DebugToggleInvincible,
        InputAction::DebugAddLife,
    ] {
        assert_eq!(game.apply_input(action), Vec::new());
    }

    assert_eq!((game.player.position(), game.player.facing, game.status, game.player.lives, game.is_invincible()), before);
}

#[test]
fn is_cell_unstable_is_false_for_cells_that_can_never_fall_on_you() {
    let mut game = Game::new(42);
    clear_board(&mut game);
    game.player.row = 500;
    game.player.col = 5;
    game.board.rows[400][1] = Cell::Oxygen;
    game.board.rows[400][2] = Cell::Item(ItemEffect::ClearAbove);

    assert!(!game.is_cell_unstable(400, 0));
    assert!(!game.is_cell_unstable(400, 1));
    assert!(!game.is_cell_unstable(400, 2));
}

#[test]
fn is_cell_unstable_is_true_for_an_unsupported_block_and_false_for_a_supported_one() {
    let mut game = Game::new(43);
    clear_board(&mut game);
    game.player.row = 500;
    game.player.col = 5;

    game.board.rows[400][3] = Cell::Color(ColorKind::Red);

    game.board.rows[999][7] = Cell::Color(ColorKind::Blue);

    assert!(game.is_cell_unstable(400, 3));
    assert!(!game.is_cell_unstable(999, 7));
}

#[test]
fn is_cell_unstable_is_true_while_a_block_is_still_shaking() {
    let mut game = Game::new(44);
    clear_board(&mut game);
    game.player.row = 999;
    game.player.col = 5;
    game.board.rows[500][3] = Cell::Color(ColorKind::Red);

    game.update(millis(FALL_TICK_MS + 10));
    assert!(game.gravity_state.is_shaking((500, 3)));
    assert!(game.is_cell_unstable(500, 3));
}

#[test]
fn is_cell_unstable_is_false_outside_the_board() {
    let game = Game::new(45);
    assert!(!game.is_cell_unstable(game.board.depth_rows(), 0));
    assert!(!game.is_cell_unstable(0, game.board.width()));
}

#[test]
fn mod_game_over_selection_defaults_to_back_to_title_and_toggles() {
    let mut game = Game::new_with_lives(2, 1);
    game.player.oxygen = points(1.0);
    game.update(seconds(1));

    game.update(millis(
        CRUSH_ASCEND_MS + 10,
    ));
    assert_eq!(game.status, GameStatus::GameOver);
    assert_eq!(game.game_over_selection(), GameOverChoice::BackToTitle);

    game.toggle_game_over_selection();
    assert_eq!(game.game_over_selection(), GameOverChoice::Revive);

    game.toggle_game_over_selection();
    assert_eq!(game.game_over_selection(), GameOverChoice::BackToTitle);
}

#[test]
fn toggle_game_over_selection_does_nothing_while_playing() {
    let mut game = Game::new(1);
    assert_eq!(game.status, GameStatus::Playing);

    game.toggle_game_over_selection();

    assert_eq!(game.game_over_selection(), GameOverChoice::BackToTitle);
}

#[test]
fn revive_restores_lives_and_oxygen_and_resumes_playing_at_the_same_spot() {
    let mut game = Game::new_with_lives(2, 1);
    game.player.oxygen = points(1.0);
    game.update(seconds(1));

    game.update(millis(
        CRUSH_ASCEND_MS + 10,
    ));
    assert_eq!(game.status, GameStatus::GameOver);
    let depth_before = game.player.depth_m();
    let score_before = game.player.score;

    game.revive();

    assert_eq!(game.status, GameStatus::Playing);
    assert_eq!(game.player.lives, LIVES_DEFAULT);
    assert_eq!(game.player.oxygen, OXYGEN_MAX);
    assert_eq!(game.player.depth_m(), depth_before);
    assert_eq!(game.player.score, score_before);
}

#[test]
fn revive_does_nothing_while_playing() {
    let mut game = Game::new(1);
    game.player.lives = 1;

    game.revive();

    assert_eq!(game.player.lives, 1);
}

#[test]
fn input_cooldown_blocks_rapid_repeated_moves() {
    let mut game = Game::new(3);

    game.board.rows[game.player.row + 1][game.player.col] = Cell::Rock { hits: 0 };
    let col_before = game.player.col;

    game.try_move_right();
    let col_after_first = game.player.col;
    game.try_move_right();

    assert_eq!(game.player.col, col_after_first);
    assert_ne!(col_before, col_after_first);
}

#[test]
fn set_move_cooldown_ms_clamps_to_min_and_max() {
    let mut game = Game::new(4);
    game.set_move_cooldown_ms(0);
    assert_eq!(game.core.move_cooldown_ms, MOVE_COOLDOWN_MS_MIN);

    game.set_move_cooldown_ms(u64::MAX);
    assert_eq!(game.core.move_cooldown_ms, MOVE_COOLDOWN_MS_MAX);
}

#[test]
fn set_move_cooldown_ms_changes_how_quickly_repeated_moves_are_accepted() {
    let mut game = Game::new(5);
    for col in 0..FIELD_WIDTH_DEFAULT {
        game.board.rows[game.player.row + 1][col] = Cell::Rock { hits: 0 };
    }
    game.set_move_cooldown_ms(MOVE_COOLDOWN_MS_MIN);

    game.try_move_right();
    let col_after_first = game.player.col;

    game.update(millis(30));
    game.try_move_right();

    assert_ne!(game.player.col, col_after_first);
}

#[test]
fn move_cooldown_overshoot_carries_forward_to_the_next_slot() {
    let mut game = Game::new(6);
    for col in 4..=8 {
        game.board.rows[game.player.row + 1][col] = Cell::Rock { hits: 0 };
    }

    game.try_move_right();
    let col_after_first = game.player.col;

    game.update(millis(INPUT_COOLDOWN_MS + 30));
    game.try_move_left();
    let col_after_second = game.player.col;
    assert_ne!(col_after_second, col_after_first);

    game.update(millis(INPUT_COOLDOWN_MS - 30));
    game.try_move_right();
    assert_ne!(game.player.col, col_after_second);
}

#[test]
fn move_cooldown_accum_does_not_bank_unbounded_after_a_long_idle_period() {
    let mut game = Game::new(7);
    for col in 4..=8 {
        game.board.rows[game.player.row + 1][col] = Cell::Rock { hits: 0 };
    }

    game.update(seconds(10));

    game.try_move_right();
    let col_after_first = game.player.col;
    game.try_move_left();
    assert_eq!(game.player.col, col_after_first);
}

#[test]
fn face_up_resets_the_bumped_direction() {
    let mut game = Game::new(4);
    game.player.bumped_direction = Some(Direction::Right);

    game.face_up();

    assert_eq!(game.player.bumped_direction, None);
}

#[test]
fn face_up_and_face_down_do_not_move_the_player() {
    let mut game = Game::new(4);
    let pos_before = game.player.position();

    game.face_up();
    assert_eq!(game.player.facing, Direction::Up);
    assert_eq!(game.player.position(), pos_before);

    game.face_down();
    assert_eq!(game.player.facing, Direction::Down);
    assert_eq!(game.player.position(), pos_before);
}

#[test]
fn level_up_event_fires_once_when_crossing_a_level_boundary() {
    let mut game = Game::new(5);
    game.player.row = LEVEL_STEP_M - 1;
    game.player.facing = Direction::Down;
    game.board.rows[game.player.row + 1][game.player.col] = Cell::Empty;

    game.try_drill();
    let events = game.update(millis(FALL_TICK_MS));

    assert!(events.iter().any(|e| matches!(e, GameEvent::LevelUp { level: 2 })));
    assert!(!events.contains(&GameEvent::ExtraLifeAtLevel { level: 2 }));
}

#[test]
fn reaching_level_10_grants_an_extra_life() {
    let mut game = Game::new(5);
    game.player.row = 9 * LEVEL_STEP_M - 1;
    game.player.facing = Direction::Down;
    game.player.lives = 2;
    game.board.rows[game.player.row + 1][game.player.col] = Cell::Empty;

    game.try_drill();
    let events = game.update(millis(FALL_TICK_MS));

    assert!(events.contains(&GameEvent::ExtraLifeAtLevel { level: 10 }));
    assert_eq!(game.player.lives, 3);
}

#[test]
fn extra_life_at_level_10_is_clamped_at_the_lives_max() {
    let mut game = Game::new(5);
    game.player.row = 9 * LEVEL_STEP_M - 1;
    game.player.facing = Direction::Down;
    game.player.lives = LIVES_MAX;
    game.board.rows[game.player.row + 1][game.player.col] = Cell::Empty;

    game.try_drill();
    let events = game.update(millis(FALL_TICK_MS));

    assert!(events.contains(&GameEvent::ExtraLifeAtLevel { level: 10 }));
    assert_eq!(game.player.lives, LIVES_MAX);
}

#[test]
fn reaching_a_100m_checkpoint_clears_above_and_emits_the_event_and_flash() {
    let mut game = Game::new(90);
    game.player.row =
        CHECKPOINT_STEP_M + CHECKPOINT_SAFE_ZONE_M - 1;
    game.player.facing = Direction::Down;
    game.board.rows[game.player.row + 1][game.player.col] = Cell::Empty;
    game.board.rows[10][game.player.col] = Cell::Rock { hits: 0 };

    game.try_drill();
    let events = game.update(millis(FALL_TICK_MS));

    assert!(events.contains(&GameEvent::Checkpoint100m { at_m: 100 }));
    assert_eq!(game.board.cell(10, game.player.col), Cell::Empty);
    assert_eq!(game.checkpoint_flash_depth_m(), Some(100));
}

#[test]
fn checkpoint_ground_is_never_force_cleared_even_after_reaching_the_checkpoint() {
    let game = Game::new(300);
    let start = CHECKPOINT_STEP_M;
    let end = start + CHECKPOINT_SAFE_ZONE_M;
    let all_empty = (start..end)
        .flat_map(|row| (0..game.board.width()).map(move |col| (row, col)))
        .all(|(row, col)| game.board.cell(row, col) == Cell::Empty);
    assert!(!all_empty);
}

#[test]
fn applying_a_checkpoint_safe_zone_only_carves_the_gap_not_the_ground() {
    let mut game = Game::new(301);
    game.board.rows[101][0] = Cell::Rock { hits: 0 };

    game.apply_checkpoint_safe_zone(100);

    assert_eq!(game.board.cell(101, 0), Cell::Rock { hits: 0 });
    let width = game.board.width();
    for col in 0..width {
        for row in 105..105 + CHECKPOINT_ZONE_GAP_M {
            assert_eq!(game.board.cell(row, col), Cell::Empty);
        }
    }
}

#[test]
fn mod_checkpoint_flash_clears_after_checkpoint_flash_ms_elapses() {
    let mut game = Game::new(91);
    game.player.row =
        CHECKPOINT_STEP_M + CHECKPOINT_SAFE_ZONE_M - 1;
    game.player.facing = Direction::Down;
    game.board.rows[game.player.row + 1][game.player.col] = Cell::Empty;

    game.try_drill();
    game.update(millis(FALL_TICK_MS));
    assert_eq!(game.checkpoint_flash_depth_m(), Some(100));

    game.update(millis(
        CHECKPOINT_FLASH_MS + 10,
    ));
    assert_eq!(game.checkpoint_flash_depth_m(), None);
}

#[test]
fn a_jump_that_skips_multiple_checkpoints_at_once_does_not_destructively_clear_or_fire_the_event()
 {
    let mut game = Game::new(92);
    clear_board(&mut game);
    game.player.row = 500;
    game.board.rows[10][game.player.col] = Cell::Rock { hits: 0 };

    let mut events = Vec::new();
    game.check_level_and_clear(&mut events);

    assert!(!events.iter().any(|e| matches!(e, GameEvent::Checkpoint100m { .. })));
    assert_eq!(game.board.cell(10, game.player.col), Cell::Rock { hits: 0 });
    assert_eq!(game.checkpoint_flash_depth_m(), None);
}

#[test]
fn reaching_the_final_goal_depth_does_not_also_fire_a_checkpoint_event() {
    let mut game = Game::new(93);
    clear_board(&mut game);
    game.player.row = FIELD_DEPTH_M - 2;
    let mut events = Vec::new();
    game.check_level_and_clear(&mut events);

    game.player.row = FIELD_DEPTH_M - 1;
    let mut events2 = Vec::new();
    game.check_level_and_clear(&mut events2);

    assert!(!events2.iter().any(|e| matches!(e, GameEvent::Checkpoint100m { .. })));
    assert!(events2.contains(&GameEvent::Cleared));
}

#[test]
fn move_right_never_drills_and_climbs_over_a_blocking_color_block_on_second_press() {
    let mut game = Game::new(6);
    game.player.row = 1;
    let target_col = game.player.col + 1;
    game.board.rows[game.player.row][target_col] = Cell::Color(ColorKind::Red);

    let first_events = game.try_move_right();

    assert_eq!(game.player.row, 1);
    assert_eq!(game.player.col, target_col - 1);
    assert_eq!(game.player.facing, Direction::Right);
    assert!(first_events.is_empty());

    game.core.move_cooldown_accum = millis(INPUT_COOLDOWN_MS);
    game.core.drill_cooldown_accum = millis(INPUT_COOLDOWN_MS);
    let second_events = game.try_move_right();

    assert_eq!(game.player.row, 0);
    assert_eq!(game.player.col, target_col);
    assert_eq!(game.player.facing, Direction::Right);
    assert_eq!(game.player.score, 0);
    assert!(second_events.is_empty());
    assert_eq!(game.board.cell(1, target_col), Cell::Color(ColorKind::Red));
}

#[test]
fn drilling_between_bump_and_second_press_does_not_cancel_the_pending_climb() {
    let mut game = Game::new(6);
    game.player.row = 1;
    let target_col = game.player.col + 1;
    game.board.rows[game.player.row][target_col] = Cell::Rock { hits: 0 };

    game.try_move_right();
    assert_eq!(game.player.bumped_direction, Some(Direction::Right));

    game.core.move_cooldown_accum = millis(INPUT_COOLDOWN_MS);
    game.core.drill_cooldown_accum = millis(INPUT_COOLDOWN_MS);
    game.try_drill();
    assert_eq!(game.player.bumped_direction, Some(Direction::Right));

    game.core.move_cooldown_accum = millis(INPUT_COOLDOWN_MS);
    game.try_move_right();

    assert_eq!(game.player.row, 0);
    assert_eq!(game.player.col, target_col);
}

#[test]
fn move_left_never_drills_and_climbs_over_a_blocking_color_block_on_second_press() {
    let mut game = Game::new(60);
    game.player.row = 1;
    let target_col = game.player.col - 1;
    game.board.rows[game.player.row][target_col] = Cell::Color(ColorKind::Green);

    let first_events = game.try_move_left();

    assert_eq!(game.player.row, 1);
    assert_eq!(game.player.col, target_col + 1);
    assert_eq!(game.player.facing, Direction::Left);
    assert!(first_events.is_empty());

    game.core.move_cooldown_accum = millis(INPUT_COOLDOWN_MS);
    game.core.drill_cooldown_accum = millis(INPUT_COOLDOWN_MS);
    let second_events = game.try_move_left();

    assert_eq!(game.player.row, 0);
    assert_eq!(game.player.col, target_col);
    assert_eq!(game.player.facing, Direction::Left);
    assert_eq!(game.player.score, 0);
    assert!(second_events.is_empty());
    assert_eq!(game.board.cell(1, target_col), Cell::Color(ColorKind::Green));
}

#[test]
fn try_move_right_into_oxygen_capsule_collects_it_and_emits_event() {
    let mut game = Game::new(8);

    game.board.rows[game.player.row + 1][game.player.col] = Cell::Rock { hits: 0 };
    let target_col = game.player.col + 1;
    game.board.rows[game.player.row][target_col] = Cell::Oxygen;
    game.player.oxygen = points(40.0);

    let events = game.try_move_right();

    assert_eq!(game.player.col, target_col);
    assert_eq!(game.player.oxygen, points(40.0) + OXYGEN_CAPSULE_RESTORE);
    assert_eq!(game.player.score, 100);
    assert_eq!(game.board.cell(game.player.row, target_col), Cell::Empty);
    assert!(events.iter().any(|e| matches!(e, GameEvent::OxygenCollected)));
}

#[test]
fn try_move_right_climbing_under_an_overhead_item_applies_its_effect_and_emits_the_event() {
    let mut game = Game::new(74);
    clear_board(&mut game);
    game.player.row = 500;
    game.player.col = 5;
    game.board.rows[501][5] = Cell::Rock { hits: 0 };
    game.board.rows[500][6] = Cell::Color(ColorKind::Red);
    game.board.rows[499][5] = Cell::Item(ItemEffect::ClearAbove);
    game.board.rows[200][4] = Cell::Color(ColorKind::Red);

    let first_events = game.try_move_right();

    assert_eq!(game.player.row, 500);
    assert!(first_events.is_empty());
    assert_eq!(game.board.cell(499, 5), Cell::Item(ItemEffect::ClearAbove));

    game.core.move_cooldown_accum = millis(INPUT_COOLDOWN_MS);
    let second_events = game.try_move_right();

    assert_eq!(game.player.row, 499);
    assert_eq!(game.player.col, 6);
    assert_eq!(game.board.cell(499, 5), Cell::Empty);
    assert!(second_events.iter().any(|e| matches!(e, GameEvent::ItemCollected(ItemEffect::ClearAbove))));
    assert!(matches!(game.board.cell(200, 4), Cell::Empty));
}

#[test]
fn try_move_right_climbing_through_two_oxygen_capsules_emits_a_single_oxygen_event() {
    let mut game = Game::new(74);
    clear_board(&mut game);
    game.player.row = 500;
    game.player.col = 5;
    game.player.oxygen = points(40.0);
    game.board.rows[501][5] = Cell::Rock { hits: 0 };
    game.board.rows[500][6] = Cell::Rock { hits: 0 };
    game.board.rows[499][5] = Cell::Oxygen;
    game.board.rows[499][6] = Cell::Oxygen;

    game.try_move_right();
    game.core.move_cooldown_accum = millis(INPUT_COOLDOWN_MS);
    let events = game.try_move_right();

    assert_eq!(game.player.row, 499);
    assert_eq!(game.player.col, 6);
    assert_eq!(game.player.oxygen_capsules_collected, 2);
    assert_eq!(game.player.score, 300);
    assert_eq!(events.iter().filter(|e| matches!(e, GameEvent::OxygenCollected)).count(), 1);
}

#[test]
fn move_right_stays_put_when_both_the_adjacent_and_upper_cell_are_blocked() {
    let mut game = Game::new(7);
    game.player.row = 1;
    let target_col = game.player.col + 1;
    game.board.rows[game.player.row][target_col] = Cell::Rock { hits: 0 };
    game.board.rows[0][target_col] = Cell::Color(ColorKind::Blue);

    let events = game.try_move_right();

    assert_eq!(game.player.row, 1);
    assert_eq!(game.player.col, target_col - 1);
    assert_eq!(game.player.facing, Direction::Right);
    assert!(events.is_empty());
    assert!(matches!(game.board.cell(1, target_col), Cell::Rock { hits: 0 }));
}

#[test]
fn rock_survives_four_hits_then_breaks_on_fifth_reducing_oxygen_by_20_percent() {
    let mut game = Game::new(10);
    game.player.facing = Direction::Down;
    let target_row = game.player.row + 1;
    let col = game.player.col;
    game.board.rows[target_row][col] = Cell::Rock { hits: 0 };
    let oxygen_before = game.player.oxygen;

    for hit in 1u8..=4 {
        let events = game.try_drill();
        assert!(matches!(game.board.cell(target_row, col), Cell::Rock { hits } if hits == hit));
        assert_eq!(game.player.oxygen, oxygen_before);
        assert_eq!(game.player.row, target_row - 1);
        assert!(events.iter().any(|e| matches!(e, GameEvent::RockHitIntact)));

        game.core.move_cooldown_accum = millis(INPUT_COOLDOWN_MS);
        game.core.drill_cooldown_accum = millis(INPUT_COOLDOWN_MS);
    }

    let events = game.try_drill();

    assert_eq!(game.board.cell(target_row, col), Cell::Empty);
    assert_eq!(game.player.oxygen, oxygen_before - points(20.0));
    assert_eq!(game.player.row, target_row - 1);
    assert!(events.iter().any(|e| matches!(e, GameEvent::RockDestroyed { blocks: 1 })));

    game.update(millis(FALL_TICK_MS));
    assert_eq!(game.player.row, target_row);
}

#[test]
fn drilling_a_rock_to_its_fifth_hit_vanishes_only_that_block() {
    let mut game = Game::new(40);
    game.player.facing = Direction::Down;
    let target_row = game.player.row + 1;
    let col = game.player.col;
    game.board.rows[target_row][col] = Cell::Rock {
        hits: ROCK_HITS_TO_BREAK - 1,
    };
    game.board.rows[target_row][col + 1] = Cell::Rock { hits: 0 };
    let oxygen_before = game.player.oxygen;

    let events = game.try_drill();

    assert_eq!(game.board.cell(target_row, col), Cell::Empty);
    assert_eq!(game.board.cell(target_row, col + 1), Cell::Rock { hits: 0 });
    assert_eq!(game.player.oxygen, oxygen_before - points(20.0));
    assert_eq!(game.player.score, 0);
    assert!(events.iter().any(|e| matches!(e, GameEvent::RockDestroyed { blocks: 1 })));
}

#[test]
fn falling_rock_blocks_connecting_to_four_or_more_auto_vanish_via_update() {
    let mut game = Game::new(41);
    clear_board(&mut game);
    game.player.row = 999;
    game.player.col = 11;

    game.board.rows[998][0] = Cell::Rock { hits: 0 };
    game.board.rows[998][1] = Cell::Rock { hits: 1 };
    game.board.rows[998][2] = Cell::Rock { hits: 2 };
    game.board.rows[999][3] = Cell::Rock { hits: 3 };
    let score_before = game.player.score;

    let events = game.update(millis(
        (SHAKE_TICKS as u64 + 1) * FALL_TICK_MS + 10,
    ));

    assert_eq!(game.player.score, score_before);
    assert!(events.iter().any(|e| matches!(e, GameEvent::RockDestroyed { blocks: 4 })));
    assert_eq!(game.board.cell(999, 0), Cell::Empty);
    assert_eq!(game.board.cell(999, 1), Cell::Empty);
    assert_eq!(game.board.cell(999, 2), Cell::Empty);
    assert_eq!(game.board.cell(999, 3), Cell::Empty);
}

#[test]
fn falling_blocks_connecting_to_four_or_more_auto_vanish_via_update() {
    let mut game = Game::new(11);
    clear_board(&mut game);
    game.player.row = 999;
    game.player.col = 11;

    game.board.rows[998][0] = Cell::Color(ColorKind::Red);
    game.board.rows[998][1] = Cell::Color(ColorKind::Red);
    game.board.rows[998][2] = Cell::Color(ColorKind::Red);
    game.board.rows[999][3] = Cell::Color(ColorKind::Red);

    let events = game.update(millis(
        (SHAKE_TICKS as u64 + 1) * FALL_TICK_MS + 10,
    ));

    assert_eq!(game.player.score, 4 * 30);
    assert!(events.iter().any(|e| matches!(e, GameEvent::BlockDestroyed { blocks: 4 })));
    assert_eq!(game.board.cell(999, 0), Cell::Empty);
    assert_eq!(game.board.cell(999, 1), Cell::Empty);
    assert_eq!(game.board.cell(999, 2), Cell::Empty);
    assert_eq!(game.board.cell(999, 3), Cell::Empty);
}

#[test]
fn chain_pause_blocks_gravity_resolution_until_it_elapses_then_resumes() {
    let mut game = Game::new(20);
    clear_board(&mut game);
    game.player.row = 1;
    game.player.col = 0;
    game.core.chain_pause_remaining = millis(300);

    game.board.rows[5][5] = Cell::Rock { hits: 0 };
    game.board.rows[6][5] = Cell::Empty;

    game.update(millis(FALL_TICK_MS));
    assert_eq!(game.board.cell(5, 5), Cell::Rock { hits: 0 });
    assert!(game.core.chain_pause_remaining > 0);

    game.update(millis(
        300 + (SHAKE_TICKS as u64 + 1) * FALL_TICK_MS + 10,
    ));
    assert_eq!(game.board.cell(6, 5), Cell::Rock { hits: 0 });
}

#[test]
fn auto_vanish_sets_a_non_zero_chain_pause_when_the_interval_is_configured() {
    let mut game = Game::new(11);
    clear_board(&mut game);
    game.player.row = 999;
    game.player.col = 11;
    game.set_chain_vanish_interval_ms(300);

    game.board.rows[998][0] = Cell::Color(ColorKind::Red);
    game.board.rows[998][1] = Cell::Color(ColorKind::Red);
    game.board.rows[998][2] = Cell::Color(ColorKind::Red);
    game.board.rows[999][3] = Cell::Color(ColorKind::Red);

    let events = game.update(millis(
        (SHAKE_TICKS as u64 + 1) * FALL_TICK_MS + 10,
    ));
    assert!(events.iter().any(|e| matches!(e, GameEvent::BlockDestroyed { blocks: 4 })));
    assert!(game.core.chain_pause_remaining > 0);
}

#[test]
fn chain_vanish_interval_of_zero_behaves_exactly_like_before_with_no_extra_delay() {
    let mut game = Game::new(13);
    clear_board(&mut game);
    game.player.row = 999;
    game.player.col = 11;
    assert_eq!(game.core.chain_vanish_interval_ms, 0);

    game.board.rows[998][0] = Cell::Color(ColorKind::Red);
    game.board.rows[998][1] = Cell::Color(ColorKind::Red);
    game.board.rows[998][2] = Cell::Color(ColorKind::Red);
    game.board.rows[999][3] = Cell::Color(ColorKind::Red);

    let events = game.update(millis(
        (SHAKE_TICKS as u64 + 1) * FALL_TICK_MS + 10,
    ));
    assert!(events.iter().any(|e| matches!(e, GameEvent::BlockDestroyed { blocks: 4 })));
    assert_eq!(game.core.chain_pause_remaining, 0);
}

#[test]
fn mod_auto_vanished_cells_show_a_vanish_flash_that_expires_after_block_vanish_flash_ms() {
    let mut game = Game::new(12);
    clear_board(&mut game);
    game.player.row = 999;
    game.player.col = 11;

    game.board.rows[998][0] = Cell::Color(ColorKind::Red);
    game.board.rows[998][1] = Cell::Color(ColorKind::Red);
    game.board.rows[998][2] = Cell::Color(ColorKind::Red);
    game.board.rows[999][3] = Cell::Color(ColorKind::Red);

    game.update(millis(
        (SHAKE_TICKS as u64 + 1) * FALL_TICK_MS + 10,
    ));

    for col in 0..=3 {
        assert!(game.vanish_flash_progress((999, col)).is_some());
    }
    assert!(game.vanish_flash_progress((0, 0)).is_none());

    game.update(millis(
        BLOCK_VANISH_FLASH_MS + 10,
    ));
    assert!(game.vanish_flash_progress((999, 0)).is_none());
}

#[test]
fn note_vanished_cells_extends_adjacent_still_flashing_cells_for_chain_reactions() {
    let mut game = Game::new(1);
    game.note_vanished_cells(&vec![((0, 0), Cell::Color(ColorKind::Red))], 0);
    game.update(millis(BLOCK_VANISH_FLASH_MS / 2));
    let progress_before = game.vanish_flash_progress((0, 0)).map(ratio).unwrap();
    assert!(progress_before > 0.0);

    game.note_vanished_cells(&vec![((0, 1), Cell::Color(ColorKind::Red))], 0);
    let progress_after = game.vanish_flash_progress((0, 0)).map(ratio).unwrap();
    assert!(progress_after < progress_before);
    assert!(game.vanish_flash_progress((0, 1)).is_some());
}

#[test]
fn note_vanished_cells_does_not_extend_non_adjacent_still_flashing_cells() {
    let mut game = Game::new(1);
    game.note_vanished_cells(&vec![((0, 0), Cell::Color(ColorKind::Red))], 0);
    game.update(millis(BLOCK_VANISH_FLASH_MS / 2));
    let progress_before = game.vanish_flash_progress((0, 0)).map(ratio).unwrap();

    game.note_vanished_cells(&vec![((5, 5), Cell::Color(ColorKind::Red))], 0);
    let progress_after = game.vanish_flash_progress((0, 0)).map(ratio).unwrap();
    assert!((progress_after - progress_before).abs() < f64::EPSILON);
}

#[test]
fn mod_melted_star_cell_also_shows_a_vanish_flash() {
    let mut game = Game::new(13);
    clear_board(&mut game);
    game.player.row = 999;
    game.player.col = 5;
    game.board.rows[999][3] = Cell::Rock { hits: 0 };
    game.board.rows[998][3] = Cell::Star { visible_ms: 0 };

    game.update(millis(
        STAR_VISIBLE_GRACE_MS as u64
            + STAR_MELT_DURATION_MS as u64,
    ));

    assert_eq!(game.board.cell(998, 3), Cell::Empty);
    assert!(game.vanish_flash_progress((998, 3)).is_some());
}

#[test]
fn color_block_resting_on_a_star_falls_once_the_star_melts_away() {
    let mut game = Game::new(41);
    clear_board(&mut game);
    game.player.row = 999;
    game.player.col = 11;
    game.board.rows[999][3] = Cell::Rock { hits: 0 };
    game.board.rows[998][3] = Cell::Star { visible_ms: 0 };
    game.board.rows[997][3] = Cell::Color(ColorKind::Red);

    game.update(millis(
        STAR_VISIBLE_GRACE_MS as u64
            + STAR_MELT_DURATION_MS as u64
            + 10,
    ));
    assert_eq!(game.board.cell(998, 3), Cell::Empty);

    const FRAME_MS: u64 = 33;
    let ticks_needed = (SHAKE_TICKS as u64 + 2) * FALL_TICK_MS / FRAME_MS + 2;
    for _ in 0..ticks_needed {
        game.update(millis(FRAME_MS));
    }

    assert_ne!(game.board.cell(997, 3), Cell::Color(ColorKind::Red));
    assert_eq!(game.board.cell(998, 3), Cell::Color(ColorKind::Red));
}

#[test]
fn falling_block_merges_after_a_long_multi_row_fall_via_many_small_frame_updates() {
    const FRAME_MS: u64 = 33;
    let mut game = Game::new(40);
    clear_board(&mut game);
    game.player.row = 999;
    game.player.col = 11;

    game.board.rows[997][0] = Cell::Color(ColorKind::Red);
    game.board.rows[998][0] = Cell::Color(ColorKind::Red);
    game.board.rows[999][0] = Cell::Color(ColorKind::Red);

    game.board.rows[900][0] = Cell::Color(ColorKind::Red);
    game.board.rows[901][0] = Cell::Color(ColorKind::Red);

    let mut events = Vec::new();

    let total_ms_needed = (SHAKE_TICKS as u64 + 1) * FALL_TICK_MS + 97 * FALL_TICK_MS;
    let mut elapsed_ms = 0u64;
    while elapsed_ms < total_ms_needed {
        events.extend(game.update(millis(FRAME_MS)));
        elapsed_ms += FRAME_MS;
    }

    assert!(events.iter().any(|e| matches!(e, GameEvent::BlockDestroyed { blocks: 5 })));
    assert_eq!(game.player.score, 5 * 30);
    for row in [997, 998, 999] {
        assert_eq!(game.board.cell(row, 0), Cell::Empty);
    }
}

#[test]
fn mod_recently_moved_blocks_and_progress_track_the_latest_gravity_tick() {
    let mut game = Game::new(1);
    clear_board(&mut game);

    game.player.row = 1;
    game.player.col = 5;
    game.board.rows[0][3] = Cell::Color(ColorKind::Red);

    game.update(millis(
        (SHAKE_TICKS as u64 + 1) * FALL_TICK_MS + 10,
    ));

    let moves = game.recently_moved_blocks();
    assert_eq!(moves, &[((1, 3), (0, 3))]);
    assert!(ratio(game.block_fall_progress()) < 0.2);

    game.update(millis(FALL_TICK_MS / 2));
    assert!(ratio(game.block_fall_progress()) > 0.3);
}

#[test]
fn mod_free_fall_move_animation_duration_matches_player_fall_tick_ms_not_the_fixed_default() {
    let mut game = Game::new(1);
    clear_board(&mut game);
    game.player.row = 10;
    game.set_player_fall_tick_ms(400);

    game.update(millis(410));
    assert_eq!(game.player.row, 11);
    assert_eq!(ratio(game.move_anim_progress()), 0.0);

    game.update(millis(150));
    assert!(ratio(game.move_anim_progress()) < 1.0);
}

#[test]
fn player_falls_automatically_through_empty_space_without_any_input() {
    let mut game = Game::new(20);
    for row in 5..16 {
        for col in 0..FIELD_WIDTH_DEFAULT {
            game.board.rows[row][col] = Cell::Empty;
        }
    }
    game.player.row = 10;
    let col = game.player.col;

    let events = game.update(millis(3 * FALL_TICK_MS + 10));

    assert_eq!(game.player.row, 13);
    assert_eq!(game.player.col, col);
    assert!(!events.iter().any(|e| matches!(e, GameEvent::LifeLost { .. } | GameEvent::GameOverMiss { .. })));
}

#[test]
fn player_does_not_get_stuck_floating_over_a_tall_open_shaft_across_many_frames() {
    const FRAME_MS: u64 = 33;
    let mut game = Game::new(30);
    clear_board(&mut game);
    game.player.row = 100;
    game.player.col = 5;

    game.board.rows[200][5] = Cell::Rock { hits: 0 };

    let mut max_row_seen = game.player.row;
    let mut stalled_frames_in_a_row = 0;
    let mut worst_stall = 0;

    for _ in 0..150 {
        let before = game.player.row;
        game.update(millis(FRAME_MS));
        if game.player.row == before && game.player.row < 199 {
            stalled_frames_in_a_row += 1;
            worst_stall = worst_stall.max(stalled_frames_in_a_row);
        } else {
            stalled_frames_in_a_row = 0;
        }
        max_row_seen = max_row_seen.max(game.player.row);
    }

    assert!(worst_stall <= 10);
    assert!(max_row_seen > 100);
}

#[test]
fn player_does_not_fall_when_supported() {
    let mut game = Game::new(21);
    for row in 2..6 {
        for col in 0..FIELD_WIDTH_DEFAULT {
            game.board.rows[row][col] = Cell::Empty;
        }
    }
    game.player.row = 5;
    let col = game.player.col;

    for row in 6..game.board.depth_rows() {
        game.board.rows[row][col] = Cell::Color(ColorKind::Red);
    }

    game.update(millis(3 * FALL_TICK_MS + 10));

    assert_eq!(game.player.row, 5);
}

#[test]
fn mod_oxygen_miss_also_activates_the_flash_effect() {
    let mut game = Game::new(30);
    game.player.oxygen = points(1.0);

    game.update(seconds(1));

    assert!(game.crush_flash_active());
}

#[test]
fn crush_death_clears_the_full_width_above_the_player_like_the_clear_above_item() {
    let mut game = Game::new_with_lives(34, 2);
    clear_board(&mut game);
    game.player.row = 999;
    game.player.col = 5;
    for row in 990..999 {
        game.board.rows[row][4] = Cell::Color(ColorKind::Blue);
        game.board.rows[row][5] = Cell::Color(ColorKind::Blue);
        game.board.rows[row][6] = Cell::Color(ColorKind::Blue);
    }

    game.board.rows[990][3] = Cell::Color(ColorKind::Green);
    game.board.rows[990][7] = Cell::Color(ColorKind::Green);
    game.board.rows[998][5] = Cell::Color(ColorKind::Red);

    game.update(millis(
        (SHAKE_TICKS as u64 + 1) * FALL_TICK_MS + 10,
    ));

    game.update(millis(
        CRUSH_ASCEND_MS + 10,
    ));

    assert_eq!(game.player.lives, 1);
    for row in 0..999 {
        for col in 0..game.board.width() {
            assert_eq!(game.board.cell(row, col), Cell::Empty);
        }
    }
}

#[test]
fn oxygen_death_goes_through_the_same_ascend_and_full_width_clear_as_crush_death() {
    let mut game = Game::new_with_lives(34, 2);
    clear_board(&mut game);
    game.player.row = 999;
    game.player.col = 5;
    for row in 990..999 {
        game.board.rows[row][4] = Cell::Color(ColorKind::Blue);
        game.board.rows[row][5] = Cell::Color(ColorKind::Blue);
        game.board.rows[row][6] = Cell::Color(ColorKind::Blue);
    }
    game.board.rows[990][3] = Cell::Color(ColorKind::Green);
    game.board.rows[990][7] = Cell::Color(ColorKind::Green);
    game.player.oxygen = points(1.0);

    game.update(seconds(1));

    assert!(game.is_dying());
    assert_eq!(game.player.lives, 2);

    game.update(millis(
        CRUSH_ASCEND_MS + 10,
    ));

    assert_eq!(game.player.lives, 1);
    for row in 0..999 {
        for col in 0..game.board.width() {
            assert_eq!(game.board.cell(row, col), Cell::Empty);
        }
    }
}

#[test]
fn resolve_block_player_overlap_pushes_the_overlapping_block_up_to_the_nearest_empty_cell() {
    let mut game = Game::new(75);
    clear_board(&mut game);
    game.player.row = 500;
    game.player.col = 5;
    game.board.rows[499][5] = Cell::Rock { hits: 0 };
    game.board.rows[500][5] = Cell::Color(ColorKind::Red);

    game.resolve_block_player_overlap();

    assert_eq!(game.board.cell(500, 5), Cell::Empty);
    assert_eq!(game.board.cell(498, 5), Cell::Color(ColorKind::Red));
}

#[test]
fn crush_death_lets_oxygen_capsules_fall_instead_of_vanishing() {
    let mut game = Game::new_with_lives(70, 2);
    clear_board(&mut game);
    game.player.row = 999;
    game.player.col = 5;
    game.board.rows[998][5] = Cell::Color(ColorKind::Red);
    game.board.rows[990][5] = Cell::Oxygen;

    let mut events = game.update(millis(
        (SHAKE_TICKS as u64 + 1) * FALL_TICK_MS + 10,
    ));

    events.extend(game.update(millis(
        CRUSH_ASCEND_MS + 10,
    )));
    assert_eq!(game.player.lives, 1);

    let oxygen_count = |game: &Game| {
        game.board
            .rows
            .iter()
            .flatten()
            .filter(|c| **c == Cell::Oxygen)
            .count()
    };
    for _ in 0..50 {
        if oxygen_count(&game) == 0 {
            break;
        }
        events.extend(game.update(millis(FALL_TICK_MS)));
    }
    assert!(events.iter().any(|e| matches!(e, GameEvent::OxygenCollected)));
}

#[test]
fn ascending_sequence_does_not_freeze_unrelated_falling_blocks_elsewhere_on_the_board() {
    let mut game = Game::new_with_lives(72, 2);
    clear_board(&mut game);
    game.player.row = 999;
    game.player.col = 5;
    game.board.rows[998][5] = Cell::Color(ColorKind::Red);
    game.board.rows[500][0] = Cell::Color(ColorKind::Blue);

    game.update(millis(
        (SHAKE_TICKS as u64 + 1) * FALL_TICK_MS + 10,
    ));
    assert!(game.is_dying());
    let row_during_ascend_start = (0..game.board.depth_rows())
        .find(|&r| game.board.cell(r, 0) == Cell::Color(ColorKind::Blue))
        .expect("the block is still on the field");

    game.update(millis(
        FALL_TICK_MS * (SHAKE_TICKS as u64 + 3),
    ));
    assert!(game.is_dying());

    let row_during_ascend_later = (0..game.board.depth_rows())
        .find(|&r| game.board.cell(r, 0) == Cell::Color(ColorKind::Blue))
        .expect("the block is still on the field");
    assert!(row_during_ascend_later > row_during_ascend_start);
}

#[test]
fn debug_clear_above_player_moves_off_screen_oxygen_capsules_to_just_outside_the_screen() {
    let mut game = Game::new(71);
    clear_board(&mut game);
    game.player.row = 50;
    game.player.col = 5;
    game.board.rows[10][5] = Cell::Oxygen;
    game.board.rows[10][6] = Cell::Rock { hits: 2 };

    game.debug_clear_above_player();

    assert_eq!(game.board.cell(10, 5), Cell::Empty);
    let entry_row = game.player.row - PLAYER_SCREEN_ROWS_ABOVE;
    let just_off_screen_row = entry_row - 1;
    assert_eq!(game.board.cell(just_off_screen_row, 5), Cell::Oxygen);
    assert_eq!(game.board.cell(entry_row, 5), Cell::Empty);
    assert_eq!(game.board.cell(10, 6), Cell::Empty);
}

#[test]
fn debug_clear_above_player_moves_off_screen_item_blocks_to_just_outside_the_screen_preserving_order()
 {
    let mut game = Game::new(71);
    clear_board(&mut game);
    game.player.row = 50;
    game.player.col = 5;
    game.board.rows[10][5] = Cell::Item(ItemEffect::ClearAbove);
    game.board.rows[11][5] = Cell::Item(ItemEffect::UnifyColors);
    game.board.rows[12][5] = Cell::Item(ItemEffect::StarifyScreen);
    game.board.rows[10][6] = Cell::Rock { hits: 2 };

    game.debug_clear_above_player();

    let entry_row = game.player.row - PLAYER_SCREEN_ROWS_ABOVE;
    let just_off_screen_row = entry_row - 1;
    assert_eq!(game.board.cell(just_off_screen_row, 5), Cell::Item(ItemEffect::ClearAbove));
    assert_eq!(game.board.cell(just_off_screen_row - 1, 5), Cell::Item(ItemEffect::UnifyColors));
    assert_eq!(game.board.cell(just_off_screen_row - 2, 5), Cell::Item(ItemEffect::StarifyScreen));
    assert_eq!(game.board.cell(entry_row, 5), Cell::Empty);
    assert_eq!(game.board.cell(10, 5), Cell::Empty);
    assert_eq!(game.board.cell(10, 6), Cell::Empty);
}

#[test]
fn debug_clear_above_player_shows_the_same_vanish_flash_as_auto_vanish() {
    let mut game = Game::new(71);
    clear_board(&mut game);
    game.player.row = 50;
    game.player.col = 5;
    game.board.rows[10][6] = Cell::Rock { hits: 2 };

    game.debug_clear_above_player();

    assert!(game.vanish_flash_progress((10, 6)).is_some());
}

#[test]
fn debug_fill_air_restores_oxygen_to_max_while_playing() {
    let mut game = Game::new(72);
    game.player.oxygen = points(1.0);

    game.debug_fill_air();

    assert_eq!(game.player.oxygen, OXYGEN_MAX);
}

#[test]
fn debug_fill_air_does_nothing_when_not_playing() {
    let mut game = Game::new_with_lives(72, 1);
    game.player.oxygen = points(1.0);
    game.update(seconds(1));

    game.update(millis(
        CRUSH_ASCEND_MS + 10,
    ));
    assert_eq!(game.status, GameStatus::GameOver);

    game.debug_fill_air();

    assert_eq!(game.player.oxygen, points(0.0));
}

#[test]
fn debug_starify_visible_screen_converts_rock_and_diamond_within_range_to_stars() {
    let mut game = Game::new(73);
    clear_board(&mut game);
    game.player.row = 999;
    game.player.col = 5;
    game.board.rows[990][3] = Cell::Rock { hits: 2 };
    game.board.rows[995][4] = Cell::Diamond;

    game.debug_starify_visible_screen();

    assert!(matches!(game.board.cell(990, 3), Cell::Star { .. }));
    assert!(matches!(game.board.cell(995, 4), Cell::Star { .. }));
}

#[test]
fn debug_starify_visible_screen_does_not_convert_cells_outside_the_visible_range() {
    let mut game = Game::new(73);
    clear_board(&mut game);
    game.player.row = 999;
    game.player.col = 5;
    game.board.rows[900][3] = Cell::Rock { hits: 0 };

    game.debug_starify_visible_screen();

    assert!(matches!(game.board.cell(900, 3), Cell::Rock { .. }));
}

#[test]
fn debug_starify_visible_screen_leaves_color_and_oxygen_cells_untouched() {
    let mut game = Game::new(73);
    clear_board(&mut game);
    game.player.row = 999;
    game.player.col = 5;
    game.board.rows[990][3] = Cell::Color(ColorKind::Red);
    game.board.rows[991][3] = Cell::Oxygen;

    game.debug_starify_visible_screen();

    assert!(matches!(game.board.cell(990, 3), Cell::Color(ColorKind::Red)));
    assert!(matches!(game.board.cell(991, 3), Cell::Oxygen));
}

#[test]
fn debug_starify_visible_screen_does_not_convert_shaking_cells() {
    let mut game = Game::new(31);
    clear_board(&mut game);
    game.player.row = 500;
    game.player.col = 5;
    game.board.rows[498][5] = Cell::Rock { hits: 0 };

    game.update(millis(game.block_fall_tick_ms()));
    assert!(game.is_cell_shaking(498, 5));

    game.debug_starify_visible_screen();

    assert!(matches!(game.board.cell(498, 5), Cell::Rock { .. }));
}

#[test]
fn debug_starify_visible_screen_does_nothing_when_not_playing() {
    let mut game = Game::new_with_lives(73, 1);
    clear_board(&mut game);
    game.player.row = 999;
    game.player.col = 5;
    game.player.oxygen = points(1.0);
    game.update(seconds(1));

    game.update(millis(
        CRUSH_ASCEND_MS + 10,
    ));
    assert_eq!(game.status, GameStatus::GameOver);

    game.board.rows[990][3] = Cell::Rock { hits: 0 };

    game.debug_starify_visible_screen();

    assert!(matches!(game.board.cell(990, 3), Cell::Rock { .. }));
}

#[test]
fn mod_crush_flash_decays_to_inactive_after_crush_flash_duration() {
    let mut game = Game::new(31);
    clear_board(&mut game);
    game.player.row = 999;
    game.player.col = 5;
    game.board.rows[998][5] = Cell::Color(ColorKind::Red);

    game.update(millis(
        (SHAKE_TICKS as u64 + 1) * FALL_TICK_MS + 10,
    ));
    assert!(game.crush_flash_active());

    game.update(millis(CRUSH_FLASH_MS + 10));
    assert!(game.crush_flash_active());

    game.update(millis(
        CRUSH_ASCEND_MS + 10,
    ));
    assert!(!game.crush_flash_active());
}

#[test]
fn crushed_on_the_last_life_plays_the_ascending_sequence_before_game_over() {
    let mut game = Game::new_with_lives(35, 1);
    clear_board(&mut game);
    game.player.row = 999;
    game.player.col = 5;
    game.board.rows[998][5] = Cell::Color(ColorKind::Red);

    let events = game.update(millis(
        (SHAKE_TICKS as u64 + 1) * FALL_TICK_MS + 10,
    ));

    assert_eq!(game.status, GameStatus::Playing);
    assert!(game.is_dying());
    assert!(game.crush_flash_active());
    assert_eq!(game.player.lives, 1);
    assert!(events.iter().any(|e| matches!(e, GameEvent::GameOverMiss { .. })));

    game.update(millis(
        CRUSH_ASCEND_MS + 10,
    ));

    assert_eq!(game.status, GameStatus::GameOver);
    assert_eq!(game.player.lives, 0);
    assert!(!game.crush_flash_active());
    assert_eq!(game.board.cell(999, 5), Cell::Empty);
}

#[test]
fn input_is_ignored_while_the_ascending_sequence_plays_on_the_last_life() {
    let mut game = Game::new_with_lives(35, 1);
    clear_board(&mut game);
    game.player.row = 999;
    game.player.col = 5;
    game.board.rows[998][5] = Cell::Color(ColorKind::Red);
    game.board.rows[999][6] = Cell::Color(ColorKind::Blue);

    game.update(millis(
        (SHAKE_TICKS as u64 + 1) * FALL_TICK_MS + 10,
    ));
    assert!(game.is_dying());
    let pos_before = game.player.position();

    game.apply_input(InputAction::MoveRight);
    game.apply_input(InputAction::MoveLeft);
    game.apply_input(InputAction::Drill);

    assert_eq!(game.player.position(), pos_before);
    assert_eq!(game.board.cell(999, 6), Cell::Color(ColorKind::Blue));
}

#[test]
fn pausing_during_the_ascending_sequence_on_the_last_life_defers_the_game_over() {
    let mut game = Game::new_with_lives(35, 1);
    clear_board(&mut game);
    game.player.row = 999;
    game.player.col = 5;
    game.board.rows[998][5] = Cell::Color(ColorKind::Red);

    game.update(millis(
        (SHAKE_TICKS as u64 + 1) * FALL_TICK_MS + 10,
    ));
    assert!(game.is_dying());
    let remaining_before = game.core.ascending_remaining;

    game.toggle_pause();
    game.update(millis(
        CRUSH_ASCEND_MS + 10,
    ));

    assert_eq!(game.core.ascending_remaining, remaining_before);
    assert_eq!(game.status, GameStatus::Paused);

    game.toggle_pause();
    game.update(millis(
        CRUSH_ASCEND_MS + 10,
    ));

    assert_eq!(game.status, GameStatus::GameOver);
    assert_eq!(game.player.lives, 0);
}

#[test]
fn debug_add_life_does_nothing_while_the_ascending_sequence_plays() {
    let mut game = Game::new_with_lives(35, 1);
    clear_board(&mut game);
    game.player.row = 999;
    game.player.col = 5;
    game.board.rows[998][5] = Cell::Color(ColorKind::Red);

    game.update(millis(
        (SHAKE_TICKS as u64 + 1) * FALL_TICK_MS + 10,
    ));
    assert!(game.is_dying());

    game.debug_add_life();

    assert_eq!(game.player.lives, 1);

    game.update(millis(
        CRUSH_ASCEND_MS + 10,
    ));
    assert_eq!(game.status, GameStatus::GameOver);
}

#[test]
fn ascending_sequence_freezes_gameplay_until_it_completes() {
    let mut game = Game::new_with_lives(36, 2);
    clear_board(&mut game);
    game.player.row = 999;
    game.player.col = 5;
    game.board.rows[998][5] = Cell::Color(ColorKind::Red);

    game.update(millis(
        (SHAKE_TICKS as u64 + 1) * FALL_TICK_MS + 10,
    ));
    assert_eq!(game.player.lives, 2);

    let events = game.try_move_left();
    assert!(events.is_empty());
    assert_eq!(game.player.col, 5);

    game.update(millis(
        CRUSH_ASCEND_MS + 10,
    ));
    assert_eq!(game.player.lives, 1);
    assert_eq!(game.status, GameStatus::Playing);
}

#[test]
fn crush_death_se_event_fires_immediately_not_after_the_ascend_delay() {
    let mut game = Game::new_with_lives(80, 2);
    clear_board(&mut game);
    game.player.row = 999;
    game.player.col = 5;
    game.board.rows[998][5] = Cell::Color(ColorKind::Red);

    let events = game.update(millis(
        (SHAKE_TICKS as u64 + 1) * FALL_TICK_MS + 10,
    ));
    assert!(events.iter().any(|e| matches!(e, GameEvent::LifeLost { .. })));
    assert_eq!(game.player.lives, 2);

    let events = game.update(millis(
        CRUSH_ASCEND_MS + 10,
    ));
    assert!(!events.iter().any(|e| matches!(e, GameEvent::LifeLost { .. })));
    assert_eq!(game.player.lives, 1);
}

#[test]
fn revived_event_fires_exactly_when_the_ascend_animation_completes() {
    let mut game = Game::new_with_lives(80, 2);
    clear_board(&mut game);
    game.player.row = 999;
    game.player.col = 5;
    game.board.rows[998][5] = Cell::Color(ColorKind::Red);

    let events = game.update(millis(
        (SHAKE_TICKS as u64 + 1) * FALL_TICK_MS + 10,
    ));
    assert!(!events.iter().any(|e| matches!(e, GameEvent::Revived)));

    let events = game.update(millis(
        CRUSH_ASCEND_MS + 10,
    ));
    assert!(events.iter().any(|e| matches!(e, GameEvent::Revived)));
}

#[test]
fn taking_air_from_under_a_block_does_not_cause_an_immediate_crush_it_shakes_first() {
    let mut game = Game::new(50);
    clear_board(&mut game);
    game.player.row = 999;
    game.player.col = 5;
    game.player.facing = Direction::Right;
    game.board.rows[999][6] = Cell::Oxygen;
    game.board.rows[998][6] = Cell::Color(ColorKind::Red);

    let events = game.try_move_right();
    assert!(events.iter().any(|e| matches!(e, GameEvent::OxygenCollected)));
    assert_eq!(game.player.col, 6);
    assert_eq!(game.player.lives, LIVES_DEFAULT);

    game.update(millis(SHAKE_TICKS as u64 * FALL_TICK_MS));
    assert_eq!(game.player.lives, LIVES_DEFAULT);
    assert_eq!(game.board.cell(998, 6), Cell::Color(ColorKind::Red));

    game.update(millis(FALL_TICK_MS + 10));
    assert_eq!(game.player.lives, LIVES_DEFAULT);

    game.update(millis(
        CRUSH_ASCEND_MS + 10,
    ));
    assert_eq!(game.player.lives, LIVES_DEFAULT - 1);
}

#[test]
fn mod_drilling_frame_is_none_before_any_drill_input() {
    let game = Game::new(60);
    assert_eq!(game.drilling_frame(), None);
}

#[test]
fn mod_drilling_frame_alternates_then_clears_after_drill_anim_duration() {
    let mut game = Game::new(61);
    clear_board(&mut game);
    game.player.row = 5;
    game.player.col = 5;

    game.try_drill();
    assert_eq!(game.drilling_frame(), Some(true));

    game.update(millis(DRILL_ANIM_FRAME_MS));
    assert_eq!(game.drilling_frame(), Some(false));

    game.update(millis(
        DRILL_ANIM_MS - DRILL_ANIM_FRAME_MS + 10,
    ));
    assert_eq!(game.drilling_frame(), None);
}

#[test]
fn dodge_slide_triggers_only_when_fleeing_a_block_that_was_actually_shaking_overhead() {
    let mut game = Game::new(62);
    clear_board(&mut game);
    game.player.row = 5;
    game.player.col = 5;
    game.board.rows[6][4] = Cell::Rock { hits: 0 };
    game.board.rows[6][5] = Cell::Rock { hits: 0 };
    game.board.rows[4][5] = Cell::Color(ColorKind::Red);

    game.update(millis(FALL_TICK_MS));

    game.try_move_left();
    assert_eq!(game.player.position(), (5, 4));

    for _ in 1..SHAKE_TICKS {
        game.update(millis(FALL_TICK_MS));
        assert!(!game.is_dodge_sliding());
    }

    assert!(!game.is_dodge_sliding());
    let events = game.update(millis(FALL_TICK_MS + 10));

    assert!(game.is_dodge_sliding());
    assert_eq!(game.board.cell(5, 5), Cell::Color(ColorKind::Red));
    assert_eq!(game.status, GameStatus::Playing);
    assert!(events.iter().any(|e| matches!(e, GameEvent::DodgeTriggered)));
}

#[test]
fn dodge_slide_does_not_trigger_for_an_unrelated_move_with_no_threat_overhead() {
    let mut game = Game::new(64);
    clear_board(&mut game);
    game.player.row = 5;
    game.player.col = 5;
    game.board.rows[6][4] = Cell::Rock { hits: 0 };
    game.board.rows[6][5] = Cell::Rock { hits: 0 };

    game.try_move_left();
    assert_eq!(game.player.position(), (5, 4));

    game.update(millis(FALL_TICK_MS * 10));
    assert!(!game.is_dodge_sliding());
}

#[test]
fn dodge_freeze_lifts_after_dodge_slide_ms_and_dodge_recovery_ms_elapse() {
    let mut game = Game::new(63);
    clear_board(&mut game);
    game.set_dodge_recovery_ms(300);
    game.player.row = 5;
    game.player.col = 5;
    game.board.rows[6][4] = Cell::Rock { hits: 0 };
    game.board.rows[6][5] = Cell::Rock { hits: 0 };
    game.board.rows[4][5] = Cell::Color(ColorKind::Red);

    game.update(millis(FALL_TICK_MS));
    game.try_move_left();
    for _ in 1..SHAKE_TICKS {
        game.update(millis(FALL_TICK_MS));
    }
    game.update(millis(FALL_TICK_MS + 10));
    assert!(game.is_dodge_sliding());

    game.player.facing = Direction::Down;
    game.face_up();
    assert_eq!(game.player.facing, Direction::Down);

    game.update(millis(DODGE_SLIDE_MS + 20));
    game.update(millis(300 + 20));

    game.face_up();
    assert_eq!(game.player.facing, Direction::Up);
}

#[test]
fn mod_new_game_starts_with_move_animation_already_settled() {
    let game = Game::new(32);
    assert_eq!(ratio(game.move_anim_progress()), 1.0);
    assert_eq!(game.render_prev_position(), game.player.position());
}

#[test]
fn debug_frame_starts_at_zero_and_increments_once_per_update_call() {
    let mut game = Game::new(1);
    assert_eq!(game.debug_frame(), 0);
    game.update(millis(16));
    assert_eq!(game.debug_frame(), 1);
    game.update(millis(16));
    assert_eq!(game.debug_frame(), 2);
}

#[test]
fn new_with_width_generates_a_board_of_the_requested_width_and_centers_the_player() {
    let game = Game::new_with_width(33, 8, FIELD_DEPTH_M);
    assert_eq!(game.board.width(), 8);
    for row in &game.board.rows {
        assert_eq!(row.len(), 8);
    }
    assert_eq!(game.player.col, 4);
}

#[test]
fn new_with_width_clamps_out_of_range_values() {
    let too_narrow = Game::new_with_width(34, 1, FIELD_DEPTH_M);
    assert_eq!(too_narrow.board.width(), FIELD_WIDTH_MIN);

    let too_wide = Game::new_with_width(34, 999, FIELD_DEPTH_M);
    assert_eq!(too_wide.board.width(), FIELD_WIDTH_MAX);
}

#[test]
fn each_checkpoint_is_followed_by_an_empty_gap_but_not_an_empty_ground() {
    let mut game = Game::new(200);
    for checkpoint_depth_m in (CHECKPOINT_STEP_M
        ..FIELD_DEPTH_M)
        .step_by(CHECKPOINT_STEP_M)
    {
        if checkpoint_depth_m == BONUS_FLOOR_DEPTH_M {
            continue;
        }
        let ground_start = checkpoint_depth_m;
        let ground_end = (ground_start + CHECKPOINT_SAFE_ZONE_M)
            .min(game.board.depth_rows());
        let ground_all_empty_before = (ground_start..ground_end)
            .flat_map(|row| (0..game.board.width()).map(move |col| (row, col)))
            .all(|(row, col)| game.board.cell(row, col) == Cell::Empty);
        assert!(!ground_all_empty_before);

        game.apply_checkpoint_safe_zone(checkpoint_depth_m);

        let ground_all_empty_after = (ground_start..ground_end)
            .flat_map(|row| (0..game.board.width()).map(move |col| (row, col)))
            .all(|(row, col)| game.board.cell(row, col) == Cell::Empty);
        assert!(!ground_all_empty_after);

        let gap_start = ground_end;
        let gap_end =
            (gap_start + CHECKPOINT_ZONE_GAP_M).min(game.board.depth_rows());
        for row in gap_start..gap_end {
            for col in 0..game.board.width() {
                assert_eq!(game.board.cell(row, col), Cell::Empty);
            }
        }
    }
}

#[test]
fn a_gap_follows_the_ground_zone_before_normal_terrain_resumes() {
    let mut game = Game::new(202);
    game.apply_checkpoint_safe_zone(100);
    let width = game.board.width();
    let gap_start = 100 + CHECKPOINT_SAFE_ZONE_M;
    let gap_end = gap_start + CHECKPOINT_ZONE_GAP_M;
    for row in gap_start..gap_end {
        for col in 0..width {
            assert_eq!(game.board.cell(row, col), Cell::Empty);
        }
    }
}

#[test]
fn the_gap_after_the_bonus_floor_is_also_cleared() {
    let mut game = Game::new(203);
    game.apply_checkpoint_safe_zone(BONUS_FLOOR_DEPTH_M);
    let width = game.board.width();
    let gap_start =
        BONUS_FLOOR_DEPTH_M + CHECKPOINT_SAFE_ZONE_M;
    let gap_end = gap_start + CHECKPOINT_ZONE_GAP_M;
    for row in gap_start..gap_end {
        for col in 0..width {
            assert_eq!(game.board.cell(row, col), Cell::Empty);
        }
    }
}

#[test]
fn debris_that_lands_inside_an_already_carved_checkpoint_zone_is_purged_next_tick() {
    let mut game = Game::new(204);
    clear_board(&mut game);
    game.player.row = 1;
    game.player.col = 0;
    game.core.last_checkpoint_reported = 1;

    game.board.rows[106][2] = Cell::Color(ColorKind::Red);
    game.board.rows[107][3] = Cell::Item(ItemEffect::ClearAbove);

    game.update(millis(FALL_TICK_MS));

    assert_eq!(game.board.cell(106, 2), Cell::Empty);
    assert_eq!(game.board.cell(107, 3), Cell::Empty);
}

#[test]
fn purge_does_not_touch_the_bonus_floor_zone() {
    let mut game = Game::new(205);
    clear_board(&mut game);
    game.player.row = 1;
    game.player.col = 0;
    game.core.last_checkpoint_reported = 5;

    game.board.rows[502][2] = Cell::Oxygen;

    game.update(millis(FALL_TICK_MS));

    assert_eq!(game.board.cell(502, 2), Cell::Oxygen);
}

#[test]
fn the_500m_bonus_floor_has_a_noticeably_higher_oxygen_density_than_a_normal_band() {
    let mut game = Game::new(201);
    game.apply_checkpoint_safe_zone(BONUS_FLOOR_DEPTH_M);
    let width = game.board.width();
    let bonus_start = BONUS_FLOOR_DEPTH_M;
    let bonus_end = bonus_start + CHECKPOINT_SAFE_ZONE_M;
    let count_oxygen = |from: usize, to: usize| {
        (from..to)
            .flat_map(|row| (0..width).map(move |col| (row, col)))
            .filter(|&(row, col)| game.board.cell(row, col) == Cell::Oxygen)
            .count()
    };
    let bonus_oxygen = count_oxygen(bonus_start, bonus_end);

    let normal_oxygen = count_oxygen(320, 320 + CHECKPOINT_SAFE_ZONE_M);
    assert!(bonus_oxygen > normal_oxygen);
}

#[test]
fn mod_lateral_move_starts_interpolation_from_the_previous_position_then_settles() {
    let mut game = Game::new(33);

    game.board.rows[game.player.row + 1][game.player.col] = Cell::Rock { hits: 0 };
    let before = game.player.position();

    let events = game.try_move_right();
    assert!(events.is_empty());
    assert_ne!(game.player.position(), before);

    assert_eq!(game.render_prev_position(), before);
    assert!(ratio(game.move_anim_progress()) < 1.0);

    game.update(millis(
        MOVE_ANIM_DURATION_MS + 10,
    ));
    assert_eq!(ratio(game.move_anim_progress()), 1.0);
}

#[test]
fn debug_unify_nearby_colors_repaints_to_exactly_two_colors_and_never_vanishes() {
    let mut saw_four_or_more_connected_and_intact = false;
    for trial in 0..300 {
        let mut game = Game::new(trial);
        clear_board(&mut game);
        game.player.row = 500;
        game.player.col = 5;
        game.board.rows[500][0] = Cell::Color(ColorKind::Red);
        game.board.rows[500][1] = Cell::Color(ColorKind::Blue);
        game.board.rows[500][2] = Cell::Color(ColorKind::Green);
        game.board.rows[500][3] = Cell::Color(ColorKind::Yellow);

        let events = game.debug_unify_nearby_colors();

        assert!(events.is_empty());

        let mut colors_seen: Vec<ColorKind> = Vec::new();
        for c in 0..4 {
            if let Cell::Color(k) = game.board.cell(500, c) {
                if !colors_seen.contains(&k) {
                    colors_seen.push(k);
                }
            }
        }
        assert!(colors_seen.len() <= 2);
        for c in 0..4 {
            assert_ne!(game.board.cell(500, c), Cell::Empty);
        }

        if colors_seen.len() == 1 {
            saw_four_or_more_connected_and_intact = true;
            break;
        }
    }
    assert!(saw_four_or_more_connected_and_intact);
}

fn landing_vanish_game(block_fall_tick_ms: u64) -> Game {
    let mut game = Game::new(1);
    game.set_block_fall_tick_ms(block_fall_tick_ms);
    game.board.rows.truncate(3);
    clear_board(&mut game);
    game.player.row = 0;
    game.player.col = 5;
    game.board.rows[0][0] = Cell::Color(ColorKind::Red);
    for col in 1..=3 {
        game.board.rows[2][col] = Cell::Color(ColorKind::Red);
    }
    game
}

fn advance_to_landing_vanish(game: &mut Game) {
    let frame = millis(FRAME_INTERVAL_MS);
    for _ in 0..400 {
        game.update(frame);
        if game.board.cell(2, 1) == Cell::Empty {
            return;
        }
    }
    panic!("nothing vanished on landing");
}

#[test]
fn mod_landing_block_keeps_its_look_until_the_fall_interpolation_finishes_at_any_tick_rate() {
    let frame = millis(FRAME_INTERVAL_MS);
    for tick_ms in [25u64, 150, 300, 450, 600] {
        let mut game = landing_vanish_game(tick_ms);
        let mut vanished = false;
        let mut checked_frames = 0;

        for _ in 0..400 {
            game.update(frame);

            let still_falling = game
                .recently_moved_blocks()
                .iter()
                .any(|&(to, _)| to == (2, 0));
            if still_falling && game.board.cell(2, 0) == Cell::Empty {
                assert!(game.pending_vanish_kind((2, 0)).is_some());
                checked_frames += 1;
            }
            if game.board.cell(2, 1) == Cell::Empty {
                vanished = true;
                if !still_falling {
                    break;
                }
            }
        }

        assert!(vanished);

        if tick_ms > FRAME_INTERVAL_MS {
            assert!(checked_frames > 0);
        }
    }
}

#[test]
fn mod_vanish_flash_starts_only_after_the_falling_block_has_arrived() {
    let mut game = landing_vanish_game(300);
    advance_to_landing_vanish(&mut game);

    let frame = millis(FRAME_INTERVAL_MS);
    let mut waited_frames = 0;
    while game.vanish_flash_progress((2, 0)).is_none() {
        assert!(game.pending_vanish_kind((2, 0)).is_some());
        assert!(game.vanish_flash_progress((2, 1)).is_none());
        game.update(frame);
        waited_frames += 1;
        assert!(waited_frames < 40);
    }

    assert!(waited_frames >= 2);
    assert!(game.vanish_flash_progress((2, 0)).map(ratio).unwrap() < 0.3);
    assert!(game.vanish_flash_progress((2, 1)).is_some());
    assert!(game.pending_vanish_kind((2, 0)).is_none());
}

#[test]
fn vanish_flash_duration_scales_with_the_effective_fall_tick() {
    let mut game = Game::new(1);

    game.set_block_fall_tick_ms(FALL_TICK_MS);
    let at_default = game.vanish_flash_duration_ms() as i64;
    assert!((at_default - BLOCK_VANISH_FLASH_MS as i64).abs() <= 3);

    game.set_block_fall_tick_ms(600);
    let at_slowest = game.vanish_flash_duration_ms() as i64;
    assert!((at_slowest - 800).abs() <= 5);

    game.set_block_fall_tick_ms(DEBUG_FALL_TICK_MS_MIN);
    assert_eq!(game.vanish_flash_duration_ms(), BLOCK_VANISH_FLASH_MIN_MS);
}

#[test]
fn shake_ticks_never_drops_to_zero_while_a_shake_duration_is_set() {
    let mut game = Game::new(1);
    for tick_ms in [150u64, 300, 450, 500, 600] {
        game.set_block_fall_tick_ms(tick_ms);
        assert!(game.shake_ticks() >= 1);
    }

    game.set_block_fall_tick_ms(FALL_TICK_MS);
    assert_eq!(game.shake_ticks(), SHAKE_TICKS);

    game.set_shake_duration_ms(0);
    assert_eq!(game.shake_ticks(), 0);
}

#[test]
fn shake_ticks_uses_the_depth_adjusted_tick_everywhere_it_is_needed() {
    let mut game = Game::new(1);
    game.player.row = 999;
    game.set_block_fall_tick_ms(FALL_TICK_MS);

    let effective = game.effective_block_fall_tick_ms();
    assert!(effective < FALL_TICK_MS);
    assert_eq!(game.shake_ticks(), (game.shake_duration_ms() / effective) as u8);
}

#[test]
fn a_chain_pause_tick_finalizes_the_previous_fall_interpolation() {
    let mut game = Game::new(5);
    clear_board(&mut game);
    game.player.row = 999;
    game.player.col = 5;
    game.core.chain_vanish_interval_ms = 300;
    game.core.chain_pause_remaining = millis(300);
    game.last_block_moves = vec![((10, 1), (9, 1))];

    game.update(millis(game.effective_block_fall_tick_ms()));

    assert!(game.recently_moved_blocks().is_empty());
}

#[test]
fn fall_interpolation_keeps_advancing_after_game_over() {
    let mut game = Game::new(1);
    game.set_block_fall_tick_ms(300);
    game.status = GameStatus::GameOver;
    assert!(ratio(game.block_fall_progress()) < 0.2);

    for _ in 0..12 {
        game.update(millis(FRAME_INTERVAL_MS));
    }
    assert_eq!(ratio(game.block_fall_progress()), 1.0);
}

#[test]
fn fall_interpolation_stays_frozen_while_paused() {
    let mut game = Game::new(1);
    game.set_block_fall_tick_ms(300);
    game.status = GameStatus::Paused;
    let before = ratio(game.block_fall_progress());

    for _ in 0..12 {
        game.update(millis(FRAME_INTERVAL_MS));
    }
    assert_eq!(ratio(game.block_fall_progress()), before);
}
