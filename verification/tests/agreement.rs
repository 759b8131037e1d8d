//! The settings of a match, the moves that are sent, and the wire version.
use misterdrillerterm::agreement::{
    check_protocol_version, BattleConfig, ErrorKind, NetAction, PROTOCOL_VERSION,
};
use misterdrillerterm::game::InputAction;
use misterdrillerterm::settings::Settings;

fn test_config() -> BattleConfig {
    BattleConfig {
        depth_goal_m: 500,
        field_width: 14,
        rock_spawn_rate_percent: 120,
        air_spawn_rate_percent: 80,
        star_spawn_rate_percent: 60,
        diamond_spawn_rate_percent: 40,
        item_clear_above_rate_percent: 110,
        item_unify_colors_rate_percent: 90,
        item_starify_screen_rate_percent: 70,
        color_count: 3,
        color_cluster_rate_percent: 130,
        bomb_spawn_rate_percent: 150,
        bomb_fuse_ms: 2500,
        attack_blocks_per_rock: 6,
        attack_rocks_per_wave_max: 2,
        attack_blocks_per_bomb: 18,
        attack_bombs_per_wave_max: 3,
        attack_bomb_ratio_percent: 25,
        block_fall_tick_ms: 200,
        player_fall_tick_ms: 100,
        shake_duration_ms: 300,
        move_cooldown_ms: 40,
        dodge_recovery_ms: 500,
        chain_vanish_interval_ms: 150,
        ai_rock_spawn_rate_percent: 121,
        ai_air_spawn_rate_percent: 81,
        ai_star_spawn_rate_percent: 61,
        ai_diamond_spawn_rate_percent: 41,
        ai_item_clear_above_rate_percent: 111,
        ai_item_unify_colors_rate_percent: 91,
        ai_item_starify_screen_rate_percent: 71,
        ai_color_count: 2,
        ai_color_cluster_rate_percent: 131,
        ai_bomb_spawn_rate_percent: 151,
        ai_bomb_fuse_ms: 2600,
        ai_attack_blocks_per_rock: 7,
        ai_attack_rocks_per_wave_max: 1,
        ai_attack_blocks_per_bomb: 19,
        ai_attack_bombs_per_wave_max: 4,
        ai_attack_bomb_ratio_percent: 26,
        ai_block_fall_tick_ms: 210,
        ai_player_fall_tick_ms: 110,
        ai_shake_duration_ms: 310,
        ai_chain_vanish_interval_ms: 160,
    }
}

#[test]
fn net_action_converts_to_the_matching_input_action() {
    let pairs = [
        (NetAction::MoveLeft, InputAction::MoveLeft),
        (NetAction::MoveRight, InputAction::MoveRight),
        (NetAction::FaceUp, InputAction::FaceUp),
        (NetAction::FaceDown, InputAction::FaceDown),
        (NetAction::Drill, InputAction::Drill),
    ];
    for (net, input) in pairs {
        assert_eq!(Option::<InputAction>::from(net), Some(input));
        assert_eq!(Option::<NetAction>::from(input), Some(net));
    }
}

#[test]
fn net_action_none_means_no_input_for_the_tick() {
    assert_eq!(Option::<InputAction>::from(NetAction::Nothing), None);
}

#[test]
fn input_actions_outside_the_five_battle_operations_are_not_sent() {
    for action in [
        InputAction::TogglePause,
        InputAction::Quit,
        InputAction::ToggleMusic,
        InputAction::ToggleSe,
        InputAction::DebugAddLife,
    ] {
        assert_eq!(Option::<NetAction>::from(action), None);
    }
}

#[test]
fn the_same_protocol_version_passes_the_check() {
    assert!(check_protocol_version(PROTOCOL_VERSION).is_ok());

    let err = check_protocol_version(PROTOCOL_VERSION + 1).unwrap_err();
    assert_eq!(err.kind(), ErrorKind::InvalidData);
}

#[test]
fn from_settings_copies_the_simulation_affecting_settings() {
    let settings = Settings {
        field_width: 9,
        rock_spawn_rate_percent: 120,
        air_spawn_rate_percent: 80,
        star_spawn_rate_percent: 60,
        diamond_spawn_rate_percent: 40,
        item_clear_above_rate_percent: 110,
        item_unify_colors_rate_percent: 90,
        item_starify_screen_rate_percent: 70,
        color_count: 3,
        color_cluster_rate_percent: 130,
        bomb_spawn_rate_percent: 150,
        bomb_fuse_ms: 2500,
        attack_blocks_per_rock: 6,
        attack_rocks_per_wave_max: 2,
        attack_blocks_per_bomb: 18,
        attack_bombs_per_wave_max: 3,
        attack_bomb_ratio_percent: 25,
        block_fall_tick_ms: 200,
        player_fall_tick_ms: 100,
        shake_duration_ms: 300,
        move_cooldown_ms: 40,
        dodge_recovery_ms: 500,
        chain_vanish_interval_ms: 150,
        ai_rock_spawn_rate_percent: 20,
        ai_air_spawn_rate_percent: 180,
        ai_star_spawn_rate_percent: 160,
        ai_diamond_spawn_rate_percent: 140,
        ai_item_clear_above_rate_percent: 10,
        ai_item_unify_colors_rate_percent: 190,
        ai_item_starify_screen_rate_percent: 170,
        ai_color_count: 1,
        ai_color_cluster_rate_percent: 30,
        ai_bomb_spawn_rate_percent: 50,
        ai_bomb_fuse_ms: 3500,
        ai_attack_blocks_per_rock: 16,
        ai_attack_rocks_per_wave_max: 5,
        ai_attack_blocks_per_bomb: 28,
        ai_attack_bombs_per_wave_max: 1,
        ai_attack_bomb_ratio_percent: 75,
        ai_block_fall_tick_ms: 400,
        ai_player_fall_tick_ms: 350,
        ai_shake_duration_ms: 700,
        ai_chain_vanish_interval_ms: 900,
        ..Default::default()
    };

    let config = BattleConfig::from_settings(&settings, 1000);

    assert_eq!(
        config,
        BattleConfig {
            depth_goal_m: 1000,
            field_width: 9,
            rock_spawn_rate_percent: 120,
            air_spawn_rate_percent: 80,
            star_spawn_rate_percent: 60,
            diamond_spawn_rate_percent: 40,
            item_clear_above_rate_percent: 110,
            item_unify_colors_rate_percent: 90,
            item_starify_screen_rate_percent: 70,
            color_count: 3,
            color_cluster_rate_percent: 130,
            bomb_spawn_rate_percent: 150,
            bomb_fuse_ms: 2500,
            attack_blocks_per_rock: 6,
            attack_rocks_per_wave_max: 2,
            attack_blocks_per_bomb: 18,
            attack_bombs_per_wave_max: 3,
            attack_bomb_ratio_percent: 25,
            block_fall_tick_ms: 200,
            player_fall_tick_ms: 100,
            shake_duration_ms: 300,
            move_cooldown_ms: 40,
            dodge_recovery_ms: 500,
            chain_vanish_interval_ms: 150,
            ai_rock_spawn_rate_percent: 20,
            ai_air_spawn_rate_percent: 180,
            ai_star_spawn_rate_percent: 160,
            ai_diamond_spawn_rate_percent: 140,
            ai_item_clear_above_rate_percent: 10,
            ai_item_unify_colors_rate_percent: 190,
            ai_item_starify_screen_rate_percent: 170,
            ai_color_count: 1,
            ai_color_cluster_rate_percent: 30,
            ai_bomb_spawn_rate_percent: 50,
            ai_bomb_fuse_ms: 3500,
            ai_attack_blocks_per_rock: 16,
            ai_attack_rocks_per_wave_max: 5,
            ai_attack_blocks_per_bomb: 28,
            ai_attack_bombs_per_wave_max: 1,
            ai_attack_bomb_ratio_percent: 75,
            ai_block_fall_tick_ms: 400,
            ai_player_fall_tick_ms: 350,
            ai_shake_duration_ms: 700,
            ai_chain_vanish_interval_ms: 900,
        }
    );
}

#[test]
fn with_ai_values_replaces_only_the_twenty_mirrored_values() {
    let config = test_config();

    let ai = config.with_ai_values();

    assert_eq!(
        ai.rock_spawn_rate_percent,
        config.ai_rock_spawn_rate_percent
    );
    assert_eq!(ai.air_spawn_rate_percent, config.ai_air_spawn_rate_percent);
    assert_eq!(
        ai.star_spawn_rate_percent,
        config.ai_star_spawn_rate_percent
    );
    assert_eq!(
        ai.diamond_spawn_rate_percent,
        config.ai_diamond_spawn_rate_percent
    );
    assert_eq!(
        ai.item_clear_above_rate_percent,
        config.ai_item_clear_above_rate_percent
    );
    assert_eq!(
        ai.item_unify_colors_rate_percent,
        config.ai_item_unify_colors_rate_percent
    );
    assert_eq!(
        ai.item_starify_screen_rate_percent,
        config.ai_item_starify_screen_rate_percent
    );
    assert_eq!(ai.color_count, config.ai_color_count);
    assert_eq!(
        ai.color_cluster_rate_percent,
        config.ai_color_cluster_rate_percent
    );
    assert_eq!(
        ai.bomb_spawn_rate_percent,
        config.ai_bomb_spawn_rate_percent
    );
    assert_eq!(ai.bomb_fuse_ms, config.ai_bomb_fuse_ms);
    assert_eq!(ai.attack_blocks_per_rock, config.ai_attack_blocks_per_rock);
    assert_eq!(
        ai.attack_rocks_per_wave_max,
        config.ai_attack_rocks_per_wave_max
    );
    assert_eq!(ai.attack_blocks_per_bomb, config.ai_attack_blocks_per_bomb);
    assert_eq!(
        ai.attack_bombs_per_wave_max,
        config.ai_attack_bombs_per_wave_max
    );
    assert_eq!(
        ai.attack_bomb_ratio_percent,
        config.ai_attack_bomb_ratio_percent
    );
    assert_eq!(ai.block_fall_tick_ms, config.ai_block_fall_tick_ms);
    assert_eq!(ai.player_fall_tick_ms, config.ai_player_fall_tick_ms);
    assert_eq!(ai.shake_duration_ms, config.ai_shake_duration_ms);
    assert_eq!(
        ai.chain_vanish_interval_ms,
        config.ai_chain_vanish_interval_ms
    );

    assert_eq!(ai.depth_goal_m, config.depth_goal_m);
    assert_eq!(ai.field_width, config.field_width);
    assert_eq!(ai.move_cooldown_ms, config.move_cooldown_ms);
    assert_eq!(ai.dodge_recovery_ms, config.dodge_recovery_ms);
}

#[test]
fn from_settings_takes_the_goal_depth_from_the_argument_not_the_saved_course() {
    let settings = Settings {
        last_course_depth_m: 1000,
        ..Default::default()
    };

    assert_eq!(
        BattleConfig::from_settings(&settings, 500).depth_goal_m,
        500
    );
}
