//! The game of a player in a match, as it was agreed on.
use vstd::prelude::*;

use crate::agreement::BattleConfig;
use crate::constants::{LIVES_DEFAULT, SURFACE_ROWS};
use crate::game::{fresh_world, Core, Game, World};
use crate::settings::{core_set, factory_settings, settings_rates, Settings};

verus! {

/// The settings that a match sets; what a match does not set is as it comes.
pub open spec fn match_settings(c: BattleConfig) -> Settings {
    Settings {
        field_width: c.field_width as usize,
        rock_spawn_rate_percent: c.rock_spawn_rate_percent,
        air_spawn_rate_percent: c.air_spawn_rate_percent,
        star_spawn_rate_percent: c.star_spawn_rate_percent,
        diamond_spawn_rate_percent: c.diamond_spawn_rate_percent,
        item_clear_above_rate_percent: c.item_clear_above_rate_percent,
        item_unify_colors_rate_percent: c.item_unify_colors_rate_percent,
        item_starify_screen_rate_percent: c.item_starify_screen_rate_percent,
        color_count: c.color_count,
        color_cluster_rate_percent: c.color_cluster_rate_percent,
        bomb_spawn_rate_percent: c.bomb_spawn_rate_percent,
        bomb_fuse_ms: c.bomb_fuse_ms,
        attack_blocks_per_rock: c.attack_blocks_per_rock,
        attack_rocks_per_wave_max: c.attack_rocks_per_wave_max,
        block_fall_tick_ms: c.block_fall_tick_ms,
        player_fall_tick_ms: c.player_fall_tick_ms,
        shake_duration_ms: c.shake_duration_ms,
        move_cooldown_ms: c.move_cooldown_ms,
        dodge_recovery_ms: c.dodge_recovery_ms,
        chain_vanish_interval_ms: c.chain_vanish_interval_ms,
        ..factory_settings()
    }
}

/// The world in which a match starts.
pub open spec fn battle_world(seed: u64, config: BattleConfig) -> World {
    let s = match_settings(config);
    let fresh = fresh_world(seed, LIVES_DEFAULT, s.field_width, config.depth_goal_m as usize);
    let set = fresh.with_core(core_set(fresh.core, s)).rerolled(SURFACE_ROWS as int, settings_rates(s));
    set.with_core(Core { attack_rules_enabled: true, ..set.core })
}

/// The game of a player in a match. Everyone who starts from the same seed and
/// the same settings starts from the same game.
pub fn new_game_from_battle_config(seed: u64, config: &BattleConfig) -> (game: Game)
    requires
        config.depth_goal_m > 0,
    ensures
        game.wf(),
        game@ == battle_world(seed, *config),
{
    let settings = Settings {
        field_width: config.field_width as usize,
        rock_spawn_rate_percent: config.rock_spawn_rate_percent,
        air_spawn_rate_percent: config.air_spawn_rate_percent,
        star_spawn_rate_percent: config.star_spawn_rate_percent,
        diamond_spawn_rate_percent: config.diamond_spawn_rate_percent,
        item_clear_above_rate_percent: config.item_clear_above_rate_percent,
        item_unify_colors_rate_percent: config.item_unify_colors_rate_percent,
        item_starify_screen_rate_percent: config.item_starify_screen_rate_percent,
        color_count: config.color_count,
        color_cluster_rate_percent: config.color_cluster_rate_percent,
        bomb_spawn_rate_percent: config.bomb_spawn_rate_percent,
        bomb_fuse_ms: config.bomb_fuse_ms,
        attack_blocks_per_rock: config.attack_blocks_per_rock,
        attack_rocks_per_wave_max: config.attack_rocks_per_wave_max,
        block_fall_tick_ms: config.block_fall_tick_ms,
        player_fall_tick_ms: config.player_fall_tick_ms,
        shake_duration_ms: config.shake_duration_ms,
        move_cooldown_ms: config.move_cooldown_ms,
        dodge_recovery_ms: config.dodge_recovery_ms,
        chain_vanish_interval_ms: config.chain_vanish_interval_ms,
        ..Settings::default()
    };
    let mut game = Game::new_with_width(seed, settings.field_width, config.depth_goal_m as usize);
    game.apply_settings(&settings);
    game.set_attack_rules_enabled(true);
    game
}

} // verus!
