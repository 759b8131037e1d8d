//! The numbers that the rules of the game are tuned with. Times are in
//! milliseconds unless the name says otherwise, depths in metres, one metre to
//! a row.
use vstd::prelude::*;

verus! {

/// Nanoseconds in a millisecond. Clocks and timers count nanoseconds.
pub const NANOS_PER_MS: u64 = 1_000_000;

/// Nanoseconds in a second.
pub const NANOS_PER_SEC: u64 = 1_000_000_000;

// Field.
/// Columns of the field, unless the settings say otherwise.
pub const FIELD_WIDTH_DEFAULT: usize = 12;

pub const FIELD_WIDTH_MIN: usize = 6;

pub const FIELD_WIDTH_MAX: usize = 20;

/// Depth of the normal course. Difficulty is scaled to it on every course.
pub const FIELD_DEPTH_M: usize = 1000;

/// Rows at the surface that are always empty at the start.
pub const SURFACE_ROWS: usize = 2;

// Blocks.
/// Drill hits that a rock block takes before it breaks.
pub const ROCK_HITS_TO_BREAK: u8 = 5;

/// Connected like blocks that vanish by themselves where they land.
pub const VANISH_GROUP_SIZE: usize = 4;

/// How far from the player's row a star block counts as in view.
pub const STAR_VISIBLE_RANGE_ROWS: usize = 12;

/// How long a star block stays whole in view.
pub const STAR_VISIBLE_GRACE_MS: u32 = 2000;

/// How long a star block takes to melt after that.
pub const STAR_MELT_DURATION_MS: u32 = 1000;

// Falling.
/// Time between two ticks of gravity at the surface.
pub const FALL_TICK_MS: u64 = 150;

/// Share of the tick, in percent, that is left at full depth.
pub const FALL_SPEED_DEPTH_MAX_SPEEDUP_PERCENT: u64 = 50;

/// Ticks that a block shakes before it falls, at the surface.
pub const SHAKE_TICKS: u8 = 3;

/// How long a block shakes before it falls.
pub const SHAKE_DURATION_MS: u64 = 450;

pub const DEBUG_FALL_TICK_MS_MIN: u64 = 25;

pub const DEBUG_FALL_TICK_MS_MAX: u64 = 600;

pub const DEBUG_FALL_TICK_STEP_MS: u64 = 25;

pub const DEBUG_SHAKE_DURATION_MS_MIN: u64 = 0;

pub const DEBUG_SHAKE_DURATION_MS_MAX: u64 = 2000;

pub const DEBUG_SHAKE_DURATION_STEP_MS: u64 = 50;

pub const CHAIN_VANISH_INTERVAL_MS_DEFAULT: u64 = 0;

pub const CHAIN_VANISH_INTERVAL_MS_MIN: u64 = 0;

pub const CHAIN_VANISH_INTERVAL_MS_MAX: u64 = 2000;

// Input.
/// Time between two drill inputs that are accepted.
pub const INPUT_COOLDOWN_MS: u64 = 80;

/// The most time that can be saved up towards the next drill input.
pub const INPUT_COOLDOWN_ACCUM_CAP_MS: u64 = 120;

pub const MOVE_COOLDOWN_MS_DEFAULT: u64 = 80;

pub const MOVE_COOLDOWN_MS_MIN: u64 = 20;

pub const MOVE_COOLDOWN_MS_MAX: u64 = 300;

// Effects.
/// Time between two frames.
pub const FRAME_INTERVAL_MS: u64 = 33;

/// How long a sideways step is drawn.
pub const MOVE_ANIM_DURATION_MS: u64 = 100;

/// How long a drill stroke is drawn.
pub const DRILL_ANIM_MS: u64 = 200;

pub const DRILL_ANIM_FRAME_MS: u64 = 50;

/// How long a vanished block flashes at the default tick.
pub const BLOCK_VANISH_FLASH_MS: u64 = 200;

/// The shortest flash.
pub const BLOCK_VANISH_FLASH_MIN_MS: u64 = 100;

/// How long the fire of an explosion is drawn.
pub const BOMB_EXPLOSION_FLASH_MS: u64 = 400;

/// How long the squashed player is drawn.
pub const CRUSH_FLASH_MS: u64 = 800;

/// How long the player rises to heaven before they come back.
pub const CRUSH_ASCEND_MS: u64 = 2800;

/// How long the banner of a checkpoint is drawn.
pub const CHECKPOINT_FLASH_MS: u64 = 2000;

/// How long the slide of a narrow escape lasts.
pub const DODGE_SLIDE_MS: u64 = 500;

/// How long a cell that the player fled from is watched.
pub const DODGE_DETECT_WINDOW_MS: u64 = 1000;

pub const DODGE_RECOVERY_MS_DEFAULT: u64 = 300;

pub const DODGE_RECOVERY_MS_MIN: u64 = 0;

pub const DODGE_RECOVERY_MS_MAX: u64 = 2000;

// Player.
pub const LIVES_DEFAULT: u8 = 3;

pub const LIVES_MAX: u8 = 5;

/// Gravity ticks for which a revived player cannot be crushed.
pub const INVULNERABILITY_TICKS: u32 = 10;

/// One point of the air gauge, in the units that the gauge counts.
pub const OXYGEN_UNIT: u64 = 1_000_000_000;

/// A full air gauge.
pub const OXYGEN_MAX: u64 = 100_000_000_000;

/// What an air capsule restores.
pub const OXYGEN_CAPSULE_RESTORE: u64 = 50_000_000_000;

/// What breaking a rock costs.
pub const OXYGEN_ROCK_PENALTY: u64 = 20_000_000_000;

/// Points of the gauge that are lost per second at the surface.
pub const OXYGEN_DECAY_PER_SEC: u64 = 1;

/// How much faster, in percent, the gauge falls at full depth.
pub const OXYGEN_DECAY_DEPTH_MAX_PERCENT: u64 = 200;

/// The gauge reading from which on the warning sounds.
pub const OXYGEN_WARNING_THRESHOLD: u64 = 30_000_000_000;

/// Metres per level.
pub const LEVEL_STEP_M: usize = 30;

/// Levels per extra life.
pub const LEVELS_PER_EXTRA_LIFE: usize = 10;

pub const SCORE_PER_DRILLED_BLOCK: u64 = 10;

pub const SCORE_PER_VANISHED_BLOCK: u64 = 30;

/// Score of the first capsule; the n-th brings n times as much.
pub const SCORE_PER_CAPSULE: u64 = 100;

pub const SCORE_PER_DIAMOND: u64 = 500;

/// Rows of the screen above the player's.
pub const PLAYER_SCREEN_ROWS_ABOVE: usize = 4;

// Checkpoints.
pub const CHECKPOINT_STEP_M: usize = 100;

/// Rows of ground at a checkpoint that the player digs through.
pub const CHECKPOINT_SAFE_ZONE_M: usize = 5;

/// Rows below the ground that are kept empty.
pub const CHECKPOINT_ZONE_GAP_M: usize = 5;

/// The checkpoint whose ground is full of items and capsules.
pub const BONUS_FLOOR_DEPTH_M: usize = 500;

pub const BONUS_FLOOR_ITEM_AIR_RATE_PERCENT: u32 = 500;

// Rewinding.
pub const REWIND_STOCK_INITIAL: u8 = 3;

pub const REWIND_STOCK_MAX_DEFAULT: u8 = 5;

pub const REWIND_STOCK_PER_CHECKPOINT: u8 = 1;

// Items.
/// Rows ahead of the player that are stocked with items.
pub const ITEM_WINDOW_AHEAD_ROWS: usize = 100;

/// Items of one kind that the window ahead holds at most.
pub const ITEM_MAX_COUNT_ON_BOARD: usize = 10;

pub const SPAWN_RATE_PERCENT_DEFAULT: u32 = 100;

/// Rows above and below the player whose colours an item unifies.
pub const DEBUG_UNIFY_COLORS_RANGE_ROWS: usize = 12;

// Bombs.
/// Time from the moment a bomb ticks to its explosion.
pub const BOMB_FUSE_MS: u32 = 3000;

// Attacks.
pub const ATTACK_BLOCKS_PER_ROCK_DEFAULT: u32 = 6;

pub const ATTACK_BLOCKS_PER_ROCK_MIN: u32 = 1;

pub const ATTACK_BLOCKS_PER_ROCK_MAX: u32 = 50;

pub const ATTACK_ROCKS_PER_WAVE_MAX_DEFAULT: u32 = 3;

pub const ATTACK_ROCKS_PER_WAVE_MAX_MIN: u32 = 1;

pub const ATTACK_ROCKS_PER_WAVE_MAX_MAX: u32 = 10;

pub const ATTACK_BLOCKS_PER_BOMB_DEFAULT: u32 = 18;

pub const ATTACK_BOMBS_PER_WAVE_MAX_DEFAULT: u32 = 2;

pub const ATTACK_BOMB_RATIO_PERCENT_DEFAULT: u32 = 0;

// Sound.
pub const MUSIC_VOLUME_PERCENT_DEFAULT: u32 = 50;

// Records.
/// Frames between two records of the field.
pub const BOARD_SNAPSHOT_TICK_INTERVAL: u64 = 30;

pub const BOARD_SNAPSHOT_ROWS_ABOVE_PLAYER: usize = 12;

pub const BOARD_SNAPSHOT_ROWS_BELOW_PLAYER: usize = 20;

// Network.
/// Time that one lockstep tick simulates.
pub const NET_TICK_MS: u64 = 150;

/// So many milliseconds on the clock that timers count.
pub open spec fn ms(millis: int) -> int {
    millis * NANOS_PER_MS
}

/// So many milliseconds on the clock that timers count.
pub fn millis(value: u64) -> (nanos: u64)
    requires
        ms(value as int) <= u64::MAX,
    ensures
        nanos == ms(value as int),
{
    value * NANOS_PER_MS
}

/// `depth_m` cut off at the depth from which on nothing gets harder.
pub open spec fn scaled_depth(depth_m: int) -> int {
    if depth_m < FIELD_DEPTH_M {
        depth_m
    } else {
        FIELD_DEPTH_M as int
    }
}

/// `value` brought into the range from `low` to `high`.
pub open spec fn clamped(value: int, low: int, high: int) -> int {
    if value < low {
        low
    } else if value > high {
        high
    } else {
        value
    }
}

/// `value` brought into the range from `low` to `high`.
pub fn clamp_u64(value: u64, low: u64, high: u64) -> (r: u64)
    requires
        low <= high,
    ensures
        r == clamped(value as int, low as int, high as int),
{
    if value < low {
        low
    } else if value > high {
        high
    } else {
        value
    }
}

/// The smaller of two numbers.
pub open spec fn least(a: int, b: int) -> int {
    if a <= b {
        a
    } else {
        b
    }
}

/// `a - b`, or zero where that is negative.
pub open spec fn minus(a: int, b: int) -> int {
    if a > b {
        a - b
    } else {
        0
    }
}

/// `a + b`, or the largest 64-bit number where that is larger.
pub open spec fn plus64(a: int, b: int) -> int {
    least(a + b, u64::MAX as int)
}

} // verus!
