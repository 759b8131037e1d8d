//! The screens of the program, the jukebox and going back in time.
use misterdrillerterm::constants::{FALL_TICK_MS, NANOS_PER_MS};
use misterdrillerterm::game::{Game, GameStatus};
use misterdrillerterm::screens::{
    advance_rewind_session, cycle_jukebox_selection, effective_gameplay_bgm_enabled,
    effective_title_bgm_enabled, run_transition, should_restart_title_bgm, start_new_game,
    start_session, PauseOverlay, RewindHistory, RewindOutcome, RewindStep, Screen,
    ScreenTransition,
};
use misterdrillerterm::settings::Settings;

#[test]
fn cycle_jukebox_selection_wraps_around_at_both_ends() {
    assert_eq!(cycle_jukebox_selection(0, 4, true), 1);
    assert_eq!(cycle_jukebox_selection(3, 4, true), 0);
    assert_eq!(cycle_jukebox_selection(2, 4, false), 1);
    assert_eq!(cycle_jukebox_selection(0, 4, false), 3);
}

#[test]
fn stepping_through_the_jukebox_and_back_changes_nothing() {
    for selection in 0..5 {
        let next = cycle_jukebox_selection(selection, 5, true);
        assert_eq!(cycle_jukebox_selection(next, 5, false), selection);
    }
}

#[test]
fn the_music_of_the_title_and_of_the_game_do_not_play_together() {
    for screen in [Screen::Title, Screen::ModeSelect, Screen::Playing, Screen::Battle] {
        assert!(
            effective_title_bgm_enabled(true, screen) != effective_gameplay_bgm_enabled(true, screen)
        );
        assert!(!effective_title_bgm_enabled(false, screen));
        assert!(!effective_gameplay_bgm_enabled(false, screen));
    }
    assert!(should_restart_title_bgm(false, true));
    assert!(!should_restart_title_bgm(true, true));
}

#[test]
fn going_back_to_the_title_forgets_the_game() {
    let mut session = start_session(true);
    session = run_transition(session, Some(ScreenTransition::ToPlaying), true).session;
    assert_eq!(session.screen, Screen::Playing);
    assert!(session.gameplay_music && !session.title_music);
    session.pause_overlay = PauseOverlay::Help;
    session.autopilot = true;

    let end = run_transition(session, Some(ScreenTransition::ToTitleDiscardingGame), true);

    assert!(end.clear_history && !end.quit);
    assert_eq!(end.session.screen, Screen::Title);
    assert_eq!(end.session.pause_overlay, PauseOverlay::Hidden);
    assert!(!end.session.autopilot);
    assert!(end.session.title_bgm_restart && end.session.gameplay_bgm_restart);
}

#[test]
fn leaving_the_program_changes_nothing_else() {
    let session = start_session(true);

    let end = run_transition(session, Some(ScreenTransition::Quit), true);

    assert!(end.quit);
    assert_eq!(end.session, session);
}

#[test]
fn starting_to_play_resets_the_clock() {
    let session = start_session(false);
    for (change, reset) in [
        (ScreenTransition::ToPlaying, true),
        (ScreenTransition::ToBattle, true),
        (ScreenTransition::ToModeSelect, false),
    ] {
        assert_eq!(run_transition(session, Some(change), false).reset_clock, reset);
    }
}

#[test]
fn a_new_game_is_set_up_as_the_settings_say() {
    let settings = Settings { field_width: 8, move_cooldown_ms: 40, ..Settings::default() };

    let game = start_new_game(3, &settings, 50);

    assert_eq!(game.board.width(), 8);
    assert_eq!(game.board.depth_rows(), 50);
    assert_eq!(game.move_cooldown_ms(), 40);
    assert_eq!(game.status, GameStatus::Playing);
}

/// A game and three moments of it.
fn game_with_history() -> (Game, RewindHistory) {
    let mut game = Game::new(8);
    let mut history = RewindHistory::new();
    for _ in 0..3 {
        history.keep(&game);
        game.update(FALL_TICK_MS * NANOS_PER_MS);
    }
    (game, history)
}

#[test]
fn going_back_restores_the_moment_and_forgets_what_came_after() {
    let (mut game, mut history) = game_with_history();
    let expected = history.moments[0].state_hash();
    assert_ne!(game.state_hash(), expected);

    let step = advance_rewind_session(
        &mut game,
        &mut history,
        &[RewindOutcome::Continue, RewindOutcome::Confirm(2), RewindOutcome::Cancel],
    );

    assert_eq!(step, RewindStep::Arrived { restored: true });
    assert_eq!(game.state_hash(), expected);
    assert_eq!(history.len(), 1);
}

#[test]
fn going_back_by_nothing_is_staying() {
    let (mut game, mut history) = game_with_history();
    let before = game.state_hash();

    for (outcomes, step) in [
        (vec![RewindOutcome::Confirm(0)], RewindStep::Arrived { restored: false }),
        (vec![RewindOutcome::Cancel], RewindStep::Arrived { restored: false }),
        (vec![RewindOutcome::Continue], RewindStep::Traveling),
        (vec![], RewindStep::Traveling),
    ] {
        assert_eq!(advance_rewind_session(&mut game, &mut history, &outcomes), step);
        assert_eq!(game.state_hash(), before);
        assert_eq!(history.len(), 3);
    }
}

#[test]
fn only_moments_of_a_running_game_are_kept() {
    let mut game = Game::new(1);
    let mut history = RewindHistory::new();
    game.status = GameStatus::Paused;
    history.keep(&game);
    assert_eq!(history.len(), 0);

    game.status = GameStatus::Playing;
    history.keep(&game);
    assert_eq!(history.len(), 1);
    history.clear();
    assert_eq!(history.len(), 0);
}
