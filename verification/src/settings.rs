//! The settings that a player keeps between games.
use vstd::prelude::*;

use crate::constants::{
    ATTACK_BLOCKS_PER_BOMB_DEFAULT, ATTACK_BLOCKS_PER_ROCK_DEFAULT, ATTACK_BOMBS_PER_WAVE_MAX_DEFAULT,
    ATTACK_BOMB_RATIO_PERCENT_DEFAULT, ATTACK_ROCKS_PER_WAVE_MAX_DEFAULT, BOMB_FUSE_MS,
    CHAIN_VANISH_INTERVAL_MS_DEFAULT, DODGE_RECOVERY_MS_DEFAULT, FALL_TICK_MS, FIELD_DEPTH_M,
    FIELD_WIDTH_DEFAULT, MOVE_COOLDOWN_MS_DEFAULT, MUSIC_VOLUME_PERCENT_DEFAULT, REWIND_STOCK_MAX_DEFAULT,
    SHAKE_DURATION_MS, SPAWN_RATE_PERCENT_DEFAULT,
};
use crate::game::{Core, Game};
use crate::constants::{
    clamped, least, ATTACK_BLOCKS_PER_ROCK_MAX, ATTACK_BLOCKS_PER_ROCK_MIN, ATTACK_ROCKS_PER_WAVE_MAX_MAX,
    ATTACK_ROCKS_PER_WAVE_MAX_MIN, CHAIN_VANISH_INTERVAL_MS_MAX, CHAIN_VANISH_INTERVAL_MS_MIN,
    DEBUG_FALL_TICK_MS_MAX, DEBUG_FALL_TICK_MS_MIN, DEBUG_SHAKE_DURATION_MS_MAX,
    DEBUG_SHAKE_DURATION_MS_MIN, DODGE_RECOVERY_MS_MAX, DODGE_RECOVERY_MS_MIN, MOVE_COOLDOWN_MS_MAX,
    MOVE_COOLDOWN_MS_MIN, SURFACE_ROWS,
};
use crate::terrain::SpawnRates;

verus! {

/// The settings. The values that begin with `ai_` hold for a computer player.
#[derive(Debug, Clone, Copy, PartialEq, Eq, Structural)]
pub struct Settings {
    /// Columns of the field.
    pub field_width: usize,
    /// The most rewinds in stock; zero switches rewinding off.
    pub rewind_stock_max: u8,
    /// The goal of the course that was chosen last.
    pub last_course_depth_m: usize,
    pub music_enabled: bool,
    pub music_volume_percent: u32,
    pub se_enabled: bool,
    pub debug_log_enabled: bool,
    pub rock_spawn_rate_percent: u32,
    pub air_spawn_rate_percent: u32,
    pub star_spawn_rate_percent: u32,
    pub diamond_spawn_rate_percent: u32,
    pub item_clear_above_rate_percent: u32,
    pub item_unify_colors_rate_percent: u32,
    pub item_starify_screen_rate_percent: u32,
    pub color_count: u8,
    pub color_cluster_rate_percent: u32,
    pub bomb_spawn_rate_percent: u32,
    pub bomb_fuse_ms: u32,
    pub attack_blocks_per_rock: u32,
    pub attack_rocks_per_wave_max: u32,
    pub attack_blocks_per_bomb: u32,
    pub attack_bombs_per_wave_max: u32,
    pub attack_bomb_ratio_percent: u32,
    pub block_fall_tick_ms: u64,
    pub player_fall_tick_ms: u64,
    pub shake_duration_ms: u64,
    pub move_cooldown_ms: u64,
    pub dodge_recovery_ms: u64,
    pub chain_vanish_interval_ms: u64,
    pub ai_rock_spawn_rate_percent: u32,
    pub ai_air_spawn_rate_percent: u32,
    pub ai_star_spawn_rate_percent: u32,
    pub ai_diamond_spawn_rate_percent: u32,
    pub ai_item_clear_above_rate_percent: u32,
    pub ai_item_unify_colors_rate_percent: u32,
    pub ai_item_starify_screen_rate_percent: u32,
    pub ai_color_count: u8,
    pub ai_color_cluster_rate_percent: u32,
    pub ai_bomb_spawn_rate_percent: u32,
    pub ai_bomb_fuse_ms: u32,
    pub ai_attack_blocks_per_rock: u32,
    pub ai_attack_rocks_per_wave_max: u32,
    pub ai_attack_blocks_per_bomb: u32,
    pub ai_attack_bombs_per_wave_max: u32,
    pub ai_attack_bomb_ratio_percent: u32,
    pub ai_block_fall_tick_ms: u64,
    pub ai_player_fall_tick_ms: u64,
    pub ai_shake_duration_ms: u64,
    pub ai_chain_vanish_interval_ms: u64,
}

/// The settings before anything is changed.
pub open spec fn factory_settings() -> Settings {
    Settings {
        field_width: FIELD_WIDTH_DEFAULT,
        rewind_stock_max: REWIND_STOCK_MAX_DEFAULT,
        last_course_depth_m: FIELD_DEPTH_M,
        music_enabled: true,
        music_volume_percent: MUSIC_VOLUME_PERCENT_DEFAULT,
        se_enabled: true,
        debug_log_enabled: false,
        rock_spawn_rate_percent: SPAWN_RATE_PERCENT_DEFAULT,
        air_spawn_rate_percent: SPAWN_RATE_PERCENT_DEFAULT,
        star_spawn_rate_percent: SPAWN_RATE_PERCENT_DEFAULT,
        diamond_spawn_rate_percent: SPAWN_RATE_PERCENT_DEFAULT,
        item_clear_above_rate_percent: SPAWN_RATE_PERCENT_DEFAULT,
        item_unify_colors_rate_percent: SPAWN_RATE_PERCENT_DEFAULT,
        item_starify_screen_rate_percent: SPAWN_RATE_PERCENT_DEFAULT,
        color_count: 4,
        color_cluster_rate_percent: SPAWN_RATE_PERCENT_DEFAULT,
        bomb_spawn_rate_percent: SPAWN_RATE_PERCENT_DEFAULT,
        bomb_fuse_ms: BOMB_FUSE_MS,
        attack_blocks_per_rock: ATTACK_BLOCKS_PER_ROCK_DEFAULT,
        attack_rocks_per_wave_max: ATTACK_ROCKS_PER_WAVE_MAX_DEFAULT,
        attack_blocks_per_bomb: ATTACK_BLOCKS_PER_BOMB_DEFAULT,
        attack_bombs_per_wave_max: ATTACK_BOMBS_PER_WAVE_MAX_DEFAULT,
        attack_bomb_ratio_percent: ATTACK_BOMB_RATIO_PERCENT_DEFAULT,
        block_fall_tick_ms: FALL_TICK_MS,
        player_fall_tick_ms: FALL_TICK_MS,
        shake_duration_ms: SHAKE_DURATION_MS,
        move_cooldown_ms: MOVE_COOLDOWN_MS_DEFAULT,
        dodge_recovery_ms: DODGE_RECOVERY_MS_DEFAULT,
        chain_vanish_interval_ms: CHAIN_VANISH_INTERVAL_MS_DEFAULT,
        ai_rock_spawn_rate_percent: SPAWN_RATE_PERCENT_DEFAULT,
        ai_air_spawn_rate_percent: SPAWN_RATE_PERCENT_DEFAULT,
        ai_star_spawn_rate_percent: SPAWN_RATE_PERCENT_DEFAULT,
        ai_diamond_spawn_rate_percent: SPAWN_RATE_PERCENT_DEFAULT,
        ai_item_clear_above_rate_percent: SPAWN_RATE_PERCENT_DEFAULT,
        ai_item_unify_colors_rate_percent: SPAWN_RATE_PERCENT_DEFAULT,
        ai_item_starify_screen_rate_percent: SPAWN_RATE_PERCENT_DEFAULT,
        ai_color_count: 4,
        ai_color_cluster_rate_percent: SPAWN_RATE_PERCENT_DEFAULT,
        ai_bomb_spawn_rate_percent: SPAWN_RATE_PERCENT_DEFAULT,
        ai_bomb_fuse_ms: BOMB_FUSE_MS,
        ai_attack_blocks_per_rock: ATTACK_BLOCKS_PER_ROCK_DEFAULT,
        ai_attack_rocks_per_wave_max: ATTACK_ROCKS_PER_WAVE_MAX_DEFAULT,
        ai_attack_blocks_per_bomb: ATTACK_BLOCKS_PER_BOMB_DEFAULT,
        ai_attack_bombs_per_wave_max: ATTACK_BOMBS_PER_WAVE_MAX_DEFAULT,
        ai_attack_bomb_ratio_percent: ATTACK_BOMB_RATIO_PERCENT_DEFAULT,
        ai_block_fall_tick_ms: FALL_TICK_MS,
        ai_player_fall_tick_ms: FALL_TICK_MS,
        ai_shake_duration_ms: SHAKE_DURATION_MS,
        ai_chain_vanish_interval_ms: CHAIN_VANISH_INTERVAL_MS_DEFAULT,
    }
}

impl Default for Settings {
    fn default() -> (s: Self)
        ensures
            s == factory_settings(),
    {
        Settings {
            field_width: FIELD_WIDTH_DEFAULT,
            rewind_stock_max: REWIND_STOCK_MAX_DEFAULT,
            last_course_depth_m: FIELD_DEPTH_M,
            music_enabled: true,
            music_volume_percent: MUSIC_VOLUME_PERCENT_DEFAULT,
            se_enabled: true,
            debug_log_enabled: false,
            rock_spawn_rate_percent: SPAWN_RATE_PERCENT_DEFAULT,
            air_spawn_rate_percent: SPAWN_RATE_PERCENT_DEFAULT,
            star_spawn_rate_percent: SPAWN_RATE_PERCENT_DEFAULT,
            diamond_spawn_rate_percent: SPAWN_RATE_PERCENT_DEFAULT,
            item_clear_above_rate_percent: SPAWN_RATE_PERCENT_DEFAULT,
            item_unify_colors_rate_percent: SPAWN_RATE_PERCENT_DEFAULT,
            item_starify_screen_rate_percent: SPAWN_RATE_PERCENT_DEFAULT,
            color_count: 4,
            color_cluster_rate_percent: SPAWN_RATE_PERCENT_DEFAULT,
            bomb_spawn_rate_percent: SPAWN_RATE_PERCENT_DEFAULT,
            bomb_fuse_ms: BOMB_FUSE_MS,
            attack_blocks_per_rock: ATTACK_BLOCKS_PER_ROCK_DEFAULT,
            attack_rocks_per_wave_max: ATTACK_ROCKS_PER_WAVE_MAX_DEFAULT,
            attack_blocks_per_bomb: ATTACK_BLOCKS_PER_BOMB_DEFAULT,
            attack_bombs_per_wave_max: ATTACK_BOMBS_PER_WAVE_MAX_DEFAULT,
            attack_bomb_ratio_percent: ATTACK_BOMB_RATIO_PERCENT_DEFAULT,
            block_fall_tick_ms: FALL_TICK_MS,
            player_fall_tick_ms: FALL_TICK_MS,
            shake_duration_ms: SHAKE_DURATION_MS,
            move_cooldown_ms: MOVE_COOLDOWN_MS_DEFAULT,
            dodge_recovery_ms: DODGE_RECOVERY_MS_DEFAULT,
            chain_vanish_interval_ms: CHAIN_VANISH_INTERVAL_MS_DEFAULT,
            ai_rock_spawn_rate_percent: SPAWN_RATE_PERCENT_DEFAULT,
            ai_air_spawn_rate_percent: SPAWN_RATE_PERCENT_DEFAULT,
            ai_star_spawn_rate_percent: SPAWN_RATE_PERCENT_DEFAULT,
            ai_diamond_spawn_rate_percent: SPAWN_RATE_PERCENT_DEFAULT,
            ai_item_clear_above_rate_percent: SPAWN_RATE_PERCENT_DEFAULT,
            ai_item_unify_colors_rate_percent: SPAWN_RATE_PERCENT_DEFAULT,
            ai_item_starify_screen_rate_percent: SPAWN_RATE_PERCENT_DEFAULT,
            ai_color_count: 4,
            ai_color_cluster_rate_percent: SPAWN_RATE_PERCENT_DEFAULT,
            ai_bomb_spawn_rate_percent: SPAWN_RATE_PERCENT_DEFAULT,
            ai_bomb_fuse_ms: BOMB_FUSE_MS,
            ai_attack_blocks_per_rock: ATTACK_BLOCKS_PER_ROCK_DEFAULT,
            ai_attack_rocks_per_wave_max: ATTACK_ROCKS_PER_WAVE_MAX_DEFAULT,
            ai_attack_blocks_per_bomb: ATTACK_BLOCKS_PER_BOMB_DEFAULT,
            ai_attack_bombs_per_wave_max: ATTACK_BOMBS_PER_WAVE_MAX_DEFAULT,
            ai_attack_bomb_ratio_percent: ATTACK_BOMB_RATIO_PERCENT_DEFAULT,
            ai_block_fall_tick_ms: FALL_TICK_MS,
            ai_player_fall_tick_ms: FALL_TICK_MS,
            ai_shake_duration_ms: SHAKE_DURATION_MS,
            ai_chain_vanish_interval_ms: CHAIN_VANISH_INTERVAL_MS_DEFAULT,
        }
    }
}

/// The numbers of a game once the settings hold, before the field is drawn
/// anew. Settings out of their range are brought into it.
pub open spec fn core_set(c: Core, s: Settings) -> Core {
    Core {
        block_fall_tick_ms: clamped(
            s.block_fall_tick_ms as int,
            DEBUG_FALL_TICK_MS_MIN as int,
            DEBUG_FALL_TICK_MS_MAX as int,
        ) as u64,
        player_fall_tick_ms: clamped(
            s.player_fall_tick_ms as int,
            DEBUG_FALL_TICK_MS_MIN as int,
            DEBUG_FALL_TICK_MS_MAX as int,
        ) as u64,
        shake_duration_ms: clamped(
            s.shake_duration_ms as int,
            DEBUG_SHAKE_DURATION_MS_MIN as int,
            DEBUG_SHAKE_DURATION_MS_MAX as int,
        ) as u64,
        dodge_recovery_ms: clamped(
            s.dodge_recovery_ms as int,
            DODGE_RECOVERY_MS_MIN as int,
            DODGE_RECOVERY_MS_MAX as int,
        ) as u64,
        move_cooldown_ms: clamped(
            s.move_cooldown_ms as int,
            MOVE_COOLDOWN_MS_MIN as int,
            MOVE_COOLDOWN_MS_MAX as int,
        ) as u64,
        bomb_spawn_rate_percent: s.bomb_spawn_rate_percent,
        bomb_fuse_ms: s.bomb_fuse_ms,
        chain_vanish_interval_ms: clamped(
            s.chain_vanish_interval_ms as int,
            CHAIN_VANISH_INTERVAL_MS_MIN as int,
            CHAIN_VANISH_INTERVAL_MS_MAX as int,
        ) as u64,
        rewind_stock_max: s.rewind_stock_max,
        rewind_stock: least(c.rewind_stock as int, s.rewind_stock_max as int) as u8,
        attack_blocks_per_rock: clamped(
            s.attack_blocks_per_rock as int,
            ATTACK_BLOCKS_PER_ROCK_MIN as int,
            ATTACK_BLOCKS_PER_ROCK_MAX as int,
        ) as u32,
        attack_rocks_per_wave_max: clamped(
            s.attack_rocks_per_wave_max as int,
            ATTACK_ROCKS_PER_WAVE_MAX_MIN as int,
            ATTACK_ROCKS_PER_WAVE_MAX_MAX as int,
        ) as u32,
        ..c
    }
}

/// The rates at which the settings have the field drawn.
pub open spec fn settings_rates(s: Settings) -> SpawnRates {
    SpawnRates {
        rock: s.rock_spawn_rate_percent,
        air: s.air_spawn_rate_percent,
        star: s.star_spawn_rate_percent,
        diamond: s.diamond_spawn_rate_percent,
        item_clear_above: s.item_clear_above_rate_percent,
        item_unify_colors: s.item_unify_colors_rate_percent,
        item_starify_screen: s.item_starify_screen_rate_percent,
        color_count: s.color_count,
        color_cluster: s.color_cluster_rate_percent,
    }
}

impl Game {
    /// Sets how many rewinds there may be. What is in stock beyond that is
    /// lost.
    pub fn set_rewind_stock_max(&mut self, max: u8)
        requires
            old(self).wf(),
        ensures
            final(self).wf(),
            final(self)@ == old(self)@.with_core(
                Core {
                    rewind_stock_max: max,
                    rewind_stock: least(old(self).core.rewind_stock as int, max as int) as u8,
                    ..old(self).core
                },
            ),
    {
        self.core.rewind_stock_max = max;
        if self.core.rewind_stock > max {
            self.core.rewind_stock = max;
        }
    }

    /// Puts the settings into force on a game that has just started: speeds,
    /// limits, and the field below the surface, which is drawn anew.
    pub fn apply_settings(&mut self, settings: &Settings)
        requires
            old(self).wf(),
        ensures
            final(self).wf(),
            final(self)@ == old(self)@.with_core(core_set(old(self).core, *settings)).rerolled(
                SURFACE_ROWS as int,
                settings_rates(*settings),
            ),
    {
        self.set_block_fall_tick_ms(settings.block_fall_tick_ms);
        self.set_player_fall_tick_ms(settings.player_fall_tick_ms);
        self.set_shake_duration_ms(settings.shake_duration_ms);
        self.set_dodge_recovery_ms(settings.dodge_recovery_ms);
        self.set_move_cooldown_ms(settings.move_cooldown_ms);
        self.set_bomb_spawn_rate_percent(settings.bomb_spawn_rate_percent);
        self.set_bomb_fuse_ms(settings.bomb_fuse_ms);
        self.set_chain_vanish_interval_ms(settings.chain_vanish_interval_ms);
        self.set_rewind_stock_max(settings.rewind_stock_max);
        self.set_attack_blocks_per_rock(settings.attack_blocks_per_rock);
        self.set_attack_rocks_per_wave_max(settings.attack_rocks_per_wave_max);
        self.reroll_spawn_rates_from(
            SURFACE_ROWS,
            settings.rock_spawn_rate_percent,
            settings.air_spawn_rate_percent,
            settings.star_spawn_rate_percent,
            settings.diamond_spawn_rate_percent,
            settings.item_clear_above_rate_percent,
            settings.item_unify_colors_rate_percent,
            settings.item_starify_screen_rate_percent,
            settings.color_count,
            settings.color_cluster_rate_percent,
        );
    }
}

} // verus!
