//! What holds of every game, on some games.
use misterdrillerterm::board::{Board, Cell, ColorKind, ItemEffect};
use misterdrillerterm::bombs::{Bomb, BombPhase};
use misterdrillerterm::constants::{
    FALL_TICK_MS, ITEM_WINDOW_AHEAD_ROWS, MOVE_COOLDOWN_MS_DEFAULT, NANOS_PER_MS, OXYGEN_UNIT,
    PLAYER_SCREEN_ROWS_ABOVE, SHAKE_TICKS,
};
use misterdrillerterm::game::{Game, GameEvent, GameStatus, InputAction};
use misterdrillerterm::gravity::GravityState;
use misterdrillerterm::player::{Direction, Player};
use misterdrillerterm::physics::{
    drill_facing, is_falling_hazard, move_lateral, process_gravity_tick, DrillOutcome,
};

fn millis(ms: u64) -> u64 {
    ms * NANOS_PER_MS
}

fn empty_board(rows: usize, width: usize) -> Board {
    Board { rows: vec![vec![Cell::Empty; width]; rows], width }
}

/// A game on an empty field, with the player on the deepest row.
fn quiet_game() -> Game {
    let mut game = Game::new(3);
    for row in game.board.rows.iter_mut() {
        for cell in row.iter_mut() {
            *cell = Cell::Empty;
        }
    }
    game.player.row = game.board.depth_rows() - 2;
    game.player.col = 5;
    let under = game.player.row + 1;
    for col in 0..game.board.width() {
        game.board.rows[under][col] = Cell::Rock { hits: 0 };
    }
    game
}

#[test]
fn pausing_and_going_on_leaves_the_game_as_it_was() {
    let mut game = quiet_game();
    let before = game.state_hash();

    game.toggle_pause();
    assert_eq!(game.status, GameStatus::Paused);
    game.toggle_pause();

    assert_eq!(game.status, GameStatus::Playing);
    assert_eq!(game.state_hash(), before);

    game.status = GameStatus::GameOver;
    game.toggle_pause();
    assert_eq!(game.status, GameStatus::GameOver);
}

#[test]
fn a_step_and_a_stroke_fit_into_one_frame() {
    let mut game = quiet_game();
    game.player.facing = Direction::Down;

    game.try_move_right();
    game.face_down();
    let events = game.try_drill();

    assert_eq!(game.player.col, 6);
    assert!(events.contains(&GameEvent::RockHitIntact));
}

#[test]
fn waiting_does_not_save_up_two_steps() {
    let mut game = quiet_game();
    game.update(millis(50 * MOVE_COOLDOWN_MS_DEFAULT));

    game.try_move_right();
    game.try_move_right();

    assert_eq!(game.player.col, 6);
}

#[test]
fn a_paused_game_stands_still() {
    let mut game = quiet_game();
    game.board.rows[10][2] = Cell::Color(ColorKind::Red);
    game.status = GameStatus::Paused;
    let before = game.state_hash();

    for _ in 0..20 {
        assert!(game.update(millis(FALL_TICK_MS)).is_empty());
    }

    assert_eq!(game.board.cell(10, 2), Cell::Color(ColorKind::Red));
    assert_eq!(game.state_hash(), before);
}

#[test]
fn a_dying_player_uses_no_air_and_stays() {
    let mut game = quiet_game();
    game.player.oxygen = OXYGEN_UNIT / 2;
    game.update(millis(1000));
    assert!(game.is_dying());
    let (air, lives, place) = (game.player.oxygen, game.player.lives, game.player.position());

    game.update(millis(500));

    assert!(game.is_dying());
    assert_eq!((game.player.oxygen, game.player.lives, game.player.position()), (air, lives, place));
}

#[test]
fn an_invincible_player_loses_no_life_under_falling_blocks() {
    let mut game = quiet_game();
    game.set_invincible(true);
    game.player.facing = Direction::Up;
    let lives = game.player.lives;
    for row in 900..990 {
        game.board.rows[row][5] = Cell::Color(ColorKind::nth(row % 4));
    }

    let mut events = Vec::new();
    for _ in 0..120 {
        events.extend(game.update(millis(FALL_TICK_MS)));
        events.extend(game.apply_input(InputAction::Drill));
    }

    let averted = events.iter().filter(|e| matches!(e, GameEvent::MissAverted { .. })).count();
    assert!(averted > 0);
    assert_eq!(game.misses_averted() as usize, averted);
    assert!(game.player.lives >= lives);
    assert_eq!(game.status, GameStatus::Playing);
    assert!(!events.iter().any(|e| matches!(
        e,
        GameEvent::LifeLost { .. } | GameEvent::GameOverMiss { .. } | GameEvent::Revived
    )));
}

#[test]
fn a_level_is_told_once() {
    let mut game = quiet_game();
    game.core.depth_goal_m = usize::MAX;
    let mut first = Vec::new();
    game.check_level_and_clear(&mut first);
    let mut second = Vec::new();
    game.check_level_and_clear(&mut second);

    assert!(first.iter().any(|e| matches!(e, GameEvent::LevelUp { .. })));
    assert!(second.is_empty());
}

#[test]
fn gravity_is_faster_further_down() {
    let mut game = quiet_game();
    let mut last = u64::MAX;
    for row in [0, 100, 500, 900, 998] {
        game.player.row = row;
        let tick = game.effective_block_fall_tick_ms();
        assert!(tick <= last);
        last = tick;
    }
}

#[test]
fn a_step_takes_a_capsule_and_breaks_nothing_else() {
    let mut board = empty_board(4, 6);
    let mut player = Player::new();
    player.row = 2;
    player.col = 2;
    board.rows[2][3] = Cell::Oxygen;
    board.rows[2][1] = Cell::Rock { hits: 2 };
    board.rows[1][3] = Cell::Diamond;

    move_lateral(&mut board, &mut player, Direction::Right);

    assert_eq!(board.cell(2, 3), Cell::Empty);
    assert_eq!(board.cell(2, 1), Cell::Rock { hits: 2 });
    assert_eq!(board.cell(1, 3), Cell::Diamond);
}

#[test]
fn a_block_that_crushes_a_driller_may_fall() {
    let mut board = empty_board(4, 6);
    let mut player = Player::new();
    player.row = 2;
    player.col = 2;
    player.facing = Direction::Up;
    board.rows[1][2] = Cell::Color(ColorKind::Blue);
    let gravity = GravityState::new();

    assert!(is_falling_hazard(&board, &gravity, (1, 2), (2, 2), &[]));
    let outcome = drill_facing(&mut board, &mut player, &gravity, &[]);

    assert_eq!(outcome, DrillOutcome::CrushedByUnstableOverhead);
    assert_eq!(board.cell(1, 2), Cell::Color(ColorKind::Blue));
}

#[test]
fn blocks_fall_one_row_at_a_time_and_none_is_lost() {
    let mut board = empty_board(8, 4);
    board.rows[0][0] = Cell::Color(ColorKind::Red);
    board.rows[1][0] = Cell::Diamond;
    board.rows[2][0] = Cell::Oxygen;
    board.rows[0][2] = Cell::Rock { hits: 1 };
    board.rows[7][2] = Cell::Star { visible_ms: 5 };
    let mut player = Player::new();
    player.row = 7;
    player.col = 3;
    let mut gravity = GravityState::new();
    let blocks = |board: &Board| board.rows.iter().flatten().filter(|c| **c != Cell::Empty).count();
    let count = blocks(&board);

    for _ in 0..(SHAKE_TICKS as usize + 10) {
        let result =
            process_gravity_tick(&mut board, &mut player, &[], &mut gravity, false, SHAKE_TICKS);
        for (to, from) in result.moved_cells {
            assert_eq!(to, (from.0 + 1, from.1));
        }
        assert_eq!(blocks(&board), count);
    }

    assert_eq!(board.cell(7, 0), Cell::Oxygen);
    assert_eq!(board.cell(6, 0), Cell::Diamond);
    assert_eq!(board.cell(5, 0), Cell::Color(ColorKind::Red));
    assert_eq!(board.cell(6, 2), Cell::Rock { hits: 1 });
}

#[test]
fn a_capsule_that_falls_on_the_player_is_taken() {
    let mut board = empty_board(4, 3);
    board.rows[1][1] = Cell::Oxygen;
    let mut player = Player::new();
    player.row = 3;
    player.col = 1;
    let mut gravity = GravityState::new();

    let mut taken = 0;
    for _ in 0..(SHAKE_TICKS as usize + 4) {
        taken += process_gravity_tick(&mut board, &mut player, &[], &mut gravity, false, SHAKE_TICKS)
            .oxygen_collected;
    }

    assert_eq!(taken, 1);
    assert_eq!(player.score, 100);
    assert!(board.rows.iter().flatten().all(|c| *c == Cell::Empty));
}

#[test]
fn clearing_above_keeps_the_capsules_and_items_in_view() {
    let mut game = quiet_game();
    game.player.row = 500;
    let top = 500 - PLAYER_SCREEN_ROWS_ABOVE;
    game.board.rows[top][1] = Cell::Oxygen;
    game.board.rows[499][2] = Cell::Item(ItemEffect::UnifyColors);
    game.board.rows[499][3] = Cell::Diamond;
    game.board.rows[500][4] = Cell::Diamond;

    game.debug_clear_above_player();

    assert_eq!(game.board.cell(top, 1), Cell::Oxygen);
    assert_eq!(game.board.cell(499, 2), Cell::Item(ItemEffect::UnifyColors));
    assert_eq!(game.board.cell(499, 3), Cell::Empty);
    assert_eq!(game.board.cell(500, 4), Cell::Diamond);
}

#[test]
fn a_player_who_has_come_back_is_free() {
    let mut game = quiet_game();
    let (row, col) = game.player.position();
    game.board.rows[row - 1][col] = Cell::Color(ColorKind::Red);
    game.board.rows[row - 3][col] = Cell::Rock { hits: 0 };
    game.board.rows[row - 5][1] = Cell::Diamond;
    game.player.oxygen = 1;
    game.update(millis(100));
    assert!(game.is_dying());

    let mut events = Vec::new();
    while game.is_dying() {
        events.extend(game.update(millis(50)));
    }

    assert!(events.contains(&GameEvent::Revived));
    assert_eq!(game.board.cell(row, col), Cell::Empty);
    for r in 0..row {
        for c in 0..game.board.width() {
            assert_eq!(game.board.cell(r, c), Cell::Empty);
        }
    }
}

#[test]
fn rows_that_have_had_their_chance_of_items_do_not_change() {
    let mut game = Game::new(1);
    game.reroll_spawn_rates_from(2, 100, 100, 100, 100, 300, 300, 300, 4, 100);
    let mut events = Vec::new();
    game.check_level_and_clear(&mut events);
    let frontier = game.core.item_top_up_frontier_row;
    assert_eq!(frontier, ITEM_WINDOW_AHEAD_ROWS);
    let before = game.board.rows[..frontier].to_vec();

    for row in 1..60 {
        game.player.row = row;
        game.check_level_and_clear(&mut events);
    }

    assert_eq!(game.board.rows[..frontier].to_vec(), before);
    assert!(game.core.item_top_up_frontier_row > frontier);
}

#[test]
fn what_is_only_shown_does_not_count_for_the_digest() {
    let game = Game::new(6);
    let mut other = game.clone();
    other.core.render_anim_elapsed = 0;
    other.core.crush_flash_remaining = 5;
    other.player.bumped_direction = Some(Direction::Left);
    other.player.elapsed_nanos = 7;

    assert_eq!(game.state_hash(), other.state_hash());
}

#[test]
fn of_a_bomb_only_place_and_time_left_count_for_the_digest() {
    let bomb = Bomb {
        pos: (4, 5),
        origin: (0, 5),
        phase: BombPhase::Ticking,
        phase_elapsed_ms: 10,
        remaining_ms: 900,
        settle_bounce_dir: 0,
    };
    let mut game = Game::new(6);
    game.bombs.push(bomb);
    let mut other = game.clone();
    other.bombs[0].origin = (0, 2);
    other.bombs[0].phase_elapsed_ms = 11;
    let mut later = game.clone();
    later.bombs[0].remaining_ms = 899;

    assert_eq!(game.state_hash(), other.state_hash());
    assert_ne!(game.state_hash(), later.state_hash());
}

#[test]
fn a_frame_is_its_beginning_and_its_end() {
    let mut whole = quiet_game();
    whole.player.row -= 5;
    let mut parts = whole.clone();

    for _ in 0..8 {
        let events = whole.update(millis(FALL_TICK_MS));
        let start = parts.begin_frame(millis(FALL_TICK_MS));
        assert!(start.goes_on);
        assert!(!start.was_dying);
        assert!(!start.rocks_due);
        let mut told = start.events;
        parts.finish_frame(millis(FALL_TICK_MS), &mut told);
        assert_eq!(events, told);
        assert_eq!(whole.state_hash(), parts.state_hash());
    }
    assert_eq!(whole.player.row, parts.player.row);
}

#[test]
fn the_player_falls_only_when_a_frame_is_finished() {
    let mut game = quiet_game();
    game.set_attack_rules_enabled(true);
    game.player.row -= 5;
    let row = game.player.row;
    let delta = millis(game.player_fall_tick_ms());

    let start = game.begin_frame(delta);
    assert!(start.goes_on && start.rocks_due);
    assert_eq!(game.player.row, row);

    let mut told = start.events;
    game.finish_frame(delta, &mut told);
    assert_eq!(game.player.row, row + 1);
}

#[test]
fn a_paused_frame_ends_with_its_beginning() {
    let mut game = quiet_game();
    game.set_attack_rules_enabled(true);
    game.toggle_pause();

    let start = game.begin_frame(millis(FALL_TICK_MS));

    assert!(!start.goes_on);
    assert!(!start.rocks_due);
    assert!(start.events.is_empty());
}
