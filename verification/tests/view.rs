//! What is shown of a game: flashes, slides and choices.
use misterdrillerterm::board::{Cell, ColorKind};
use misterdrillerterm::constants::{
    BLOCK_VANISH_FLASH_MS, CHECKPOINT_FLASH_MS, CHECKPOINT_SAFE_ZONE_M, CHECKPOINT_STEP_M,
    CRUSH_ASCEND_MS, CRUSH_FLASH_MS, DRILL_ANIM_FRAME_MS, DRILL_ANIM_MS, FALL_TICK_MS,
    FRAME_INTERVAL_MS, MOVE_ANIM_DURATION_MS, NANOS_PER_MS, OXYGEN_UNIT, SHAKE_TICKS,
    STAR_MELT_DURATION_MS, STAR_VISIBLE_GRACE_MS,
};
use misterdrillerterm::flash::Progress;
use misterdrillerterm::game::{Game, GameOverChoice, GameStatus};
use misterdrillerterm::player::Direction;

/// Seconds, in nanoseconds.
fn seconds(s: u64) -> u64 {
    millis(s * 1000)
}

/// Milliseconds, in nanoseconds.
fn millis(ms: u64) -> u64 {
    ms * NANOS_PER_MS
}

/// Points of air.
fn points(p: f64) -> u64 {
    (p * OXYGEN_UNIT as f64).round() as u64
}

/// A share, as a number.
fn ratio(p: Progress) -> f64 {
    p.done as f64 / p.total as f64
}

fn clear_board(game: &mut Game) {
    for row in game.board.rows.iter_mut() {
        for cell in row.iter_mut() {
            *cell = Cell::Empty;
        }
    }
}



#[test]
fn view_can_start_rewind_is_true_only_while_playing_or_game_over_and_with_stock_left() {
    let mut game = Game::new(1);

    game.status = GameStatus::Playing;
    assert!(game.can_start_rewind());

    game.core.ascending_remaining = Some(millis(100));
    assert!(game.is_dying());
    assert!(game.can_start_rewind());
    game.core.ascending_remaining = None;

    game.status = GameStatus::GameOver;
    assert!(game.can_start_rewind());

    game.status = GameStatus::Paused;
    assert!(!game.can_start_rewind());

    game.status = GameStatus::Cleared;
    assert!(!game.can_start_rewind());

    game.status = GameStatus::Playing;
    game.core.rewind_stock = 0;
    assert!(!game.can_start_rewind());
}

#[test]
fn view_misses_averted_counts_every_averted_miss() {
    let mut game = Game::new(4);
    game.set_invincible(true);

    for expected in 1..=3 {
        game.player.oxygen = points(1.0);
        game.update(seconds(1));
        assert_eq!(game.misses_averted(), expected);
    }
}

#[test]
fn view_game_over_selection_defaults_to_back_to_title_and_toggles() {
    let mut game = Game::new_with_lives(2, 1);
    game.player.oxygen = points(1.0);
    game.update(seconds(1));

    game.update(millis(
        CRUSH_ASCEND_MS + 10,
    ));
    assert_eq!(game.status, GameStatus::GameOver);
    assert_eq!(game.game_over_selection(), GameOverChoice::BackToTitle);

    game.toggle_game_over_selection();
    assert_eq!(game.game_over_selection(), GameOverChoice::Revive);

    game.toggle_game_over_selection();
    assert_eq!(game.game_over_selection(), GameOverChoice::BackToTitle);
}

#[test]
fn view_checkpoint_flash_clears_after_checkpoint_flash_ms_elapses() {
    let mut game = Game::new(91);
    game.player.row =
        CHECKPOINT_STEP_M + CHECKPOINT_SAFE_ZONE_M - 1;
    game.player.facing = Direction::Down;
    game.board.rows[game.player.row + 1][game.player.col] = Cell::Empty;

    game.try_drill();
    game.update(millis(FALL_TICK_MS));
    assert_eq!(game.checkpoint_flash_depth_m(), Some(100));

    game.update(millis(
        CHECKPOINT_FLASH_MS + 10,
    ));
    assert_eq!(game.checkpoint_flash_depth_m(), None);
}

#[test]
fn view_auto_vanished_cells_show_a_vanish_flash_that_expires_after_block_vanish_flash_ms() {
    let mut game = Game::new(12);
    clear_board(&mut game);
    game.player.row = 999;
    game.player.col = 11;

    game.board.rows[998][0] = Cell::Color(ColorKind::Red);
    game.board.rows[998][1] = Cell::Color(ColorKind::Red);
    game.board.rows[998][2] = Cell::Color(ColorKind::Red);
    game.board.rows[999][3] = Cell::Color(ColorKind::Red);

    game.update(millis(
        (SHAKE_TICKS as u64 + 1) * FALL_TICK_MS + 10,
    ));

    for col in 0..=3 {
        assert!(game.vanish_flash_progress((999, col)).is_some());
    }
    assert!(game.vanish_flash_progress((0, 0)).is_none());

    game.update(millis(
        BLOCK_VANISH_FLASH_MS + 10,
    ));
    assert!(game.vanish_flash_progress((999, 0)).is_none());
}

#[test]
fn view_melted_star_cell_also_shows_a_vanish_flash() {
    let mut game = Game::new(13);
    clear_board(&mut game);
    game.player.row = 999;
    game.player.col = 5;
    game.board.rows[999][3] = Cell::Rock { hits: 0 };
    game.board.rows[998][3] = Cell::Star { visible_ms: 0 };

    game.update(millis(
        STAR_VISIBLE_GRACE_MS as u64
            + STAR_MELT_DURATION_MS as u64,
    ));

    assert_eq!(game.board.cell(998, 3), Cell::Empty);
    assert!(game.vanish_flash_progress((998, 3)).is_some());
}

#[test]
fn view_recently_moved_blocks_and_progress_track_the_latest_gravity_tick() {
    let mut game = Game::new(1);
    clear_board(&mut game);

    game.player.row = 1;
    game.player.col = 5;
    game.board.rows[0][3] = Cell::Color(ColorKind::Red);

    game.update(millis(
        (SHAKE_TICKS as u64 + 1) * FALL_TICK_MS + 10,
    ));

    let moves = game.recently_moved_blocks();
    assert_eq!(moves, &[((1, 3), (0, 3))]);
    assert!(ratio(game.block_fall_progress()) < 0.2);

    game.update(millis(FALL_TICK_MS / 2));
    assert!(ratio(game.block_fall_progress()) > 0.3);
}

#[test]
fn view_free_fall_move_animation_duration_matches_player_fall_tick_ms_not_the_fixed_default() {
    let mut game = Game::new(1);
    clear_board(&mut game);
    game.player.row = 10;
    game.set_player_fall_tick_ms(400);

    game.update(millis(410));
    assert_eq!(game.player.row, 11);
    assert_eq!(ratio(game.move_anim_progress()), 0.0);

    game.update(millis(150));
    assert!(ratio(game.move_anim_progress()) < 1.0);
}

#[test]
fn view_oxygen_miss_also_activates_the_flash_effect() {
    let mut game = Game::new(30);
    game.player.oxygen = points(1.0);

    game.update(seconds(1));

    assert!(game.crush_flash_active());
}

#[test]
fn view_crush_flash_decays_to_inactive_after_crush_flash_duration() {
    let mut game = Game::new(31);
    clear_board(&mut game);
    game.player.row = 999;
    game.player.col = 5;
    game.board.rows[998][5] = Cell::Color(ColorKind::Red);

    game.update(millis(
        (SHAKE_TICKS as u64 + 1) * FALL_TICK_MS + 10,
    ));
    assert!(game.crush_flash_active());

    game.update(millis(CRUSH_FLASH_MS + 10));
    assert!(game.crush_flash_active());

    game.update(millis(
        CRUSH_ASCEND_MS + 10,
    ));
    assert!(!game.crush_flash_active());
}

#[test]
fn view_drilling_frame_is_none_before_any_drill_input() {
    let game = Game::new(60);
    assert_eq!(game.drilling_frame(), None);
}

#[test]
fn view_drilling_frame_alternates_then_clears_after_drill_anim_duration() {
    let mut game = Game::new(61);
    clear_board(&mut game);
    game.player.row = 5;
    game.player.col = 5;

    game.try_drill();
    assert_eq!(game.drilling_frame(), Some(true));

    game.update(millis(DRILL_ANIM_FRAME_MS));
    assert_eq!(game.drilling_frame(), Some(false));

    game.update(millis(
        DRILL_ANIM_MS - DRILL_ANIM_FRAME_MS + 10,
    ));
    assert_eq!(game.drilling_frame(), None);
}

#[test]
fn view_new_game_starts_with_move_animation_already_settled() {
    let game = Game::new(32);
    assert_eq!(ratio(game.move_anim_progress()), 1.0);
    assert_eq!(game.render_prev_position(), game.player.position());
}

#[test]
fn view_lateral_move_starts_interpolation_from_the_previous_position_then_settles() {
    let mut game = Game::new(33);

    game.board.rows[game.player.row + 1][game.player.col] = Cell::Rock { hits: 0 };
    let before = game.player.position();

    let events = game.try_move_right();
    assert!(events.is_empty());
    assert_ne!(game.player.position(), before);

    assert_eq!(game.render_prev_position(), before);
    assert!(ratio(game.move_anim_progress()) < 1.0);

    game.update(millis(
        MOVE_ANIM_DURATION_MS + 10,
    ));
    assert_eq!(ratio(game.move_anim_progress()), 1.0);
}

fn landing_vanish_game(block_fall_tick_ms: u64) -> Game {
    let mut game = Game::new(1);
    game.set_block_fall_tick_ms(block_fall_tick_ms);
    game.board.rows.truncate(3);
    clear_board(&mut game);
    game.player.row = 0;
    game.player.col = 5;
    game.board.rows[0][0] = Cell::Color(ColorKind::Red);
    for col in 1..=3 {
        game.board.rows[2][col] = Cell::Color(ColorKind::Red);
    }
    game
}

fn advance_to_landing_vanish(game: &mut Game) {
    let frame = millis(FRAME_INTERVAL_MS);
    for _ in 0..400 {
        game.update(frame);
        if game.board.cell(2, 1) == Cell::Empty {
            return;
        }
    }
    panic!("nothing vanished on landing");
}

#[test]
fn view_landing_block_keeps_its_look_until_the_fall_interpolation_finishes_at_any_tick_rate() {
    let frame = millis(FRAME_INTERVAL_MS);
    for tick_ms in [25u64, 150, 300, 450, 600] {
        let mut game = landing_vanish_game(tick_ms);
        let mut vanished = false;
        let mut checked_frames = 0;

        for _ in 0..400 {
            game.update(frame);

            let still_falling = game
                .recently_moved_blocks()
                .iter()
                .any(|&(to, _)| to == (2, 0));
            if still_falling && game.board.cell(2, 0) == Cell::Empty {
                assert!(game.pending_vanish_kind((2, 0)).is_some());
                checked_frames += 1;
            }
            if game.board.cell(2, 1) == Cell::Empty {
                vanished = true;
                if !still_falling {
                    break;
                }
            }
        }

        assert!(vanished);

        if tick_ms > FRAME_INTERVAL_MS {
            assert!(checked_frames > 0);
        }
    }
}

#[test]
fn view_vanish_flash_starts_only_after_the_falling_block_has_arrived() {
    let mut game = landing_vanish_game(300);
    advance_to_landing_vanish(&mut game);

    let frame = millis(FRAME_INTERVAL_MS);
    let mut waited_frames = 0;
    while game.vanish_flash_progress((2, 0)).is_none() {
        assert!(game.pending_vanish_kind((2, 0)).is_some());
        assert!(game.vanish_flash_progress((2, 1)).is_none());
        game.update(frame);
        waited_frames += 1;
        assert!(waited_frames < 40);
    }

    assert!(waited_frames >= 2);
    assert!(game.vanish_flash_progress((2, 0)).map(ratio).unwrap() < 0.3);
    assert!(game.vanish_flash_progress((2, 1)).is_some());
    assert!(game.pending_vanish_kind((2, 0)).is_none());
}
