//! Speeds and settings: how fast things happen at the player's depth, and the
//! knobs that change it.
use vstd::prelude::*;

use crate::constants::{
    clamp_u64, clamped, least, minus, millis, ms, scaled_depth, ATTACK_BLOCKS_PER_ROCK_MAX,
    ATTACK_BLOCKS_PER_ROCK_MIN, ATTACK_ROCKS_PER_WAVE_MAX_MAX, ATTACK_ROCKS_PER_WAVE_MAX_MIN,
    BLOCK_VANISH_FLASH_MIN_MS, BLOCK_VANISH_FLASH_MS, CHAIN_VANISH_INTERVAL_MS_MAX,
    CHAIN_VANISH_INTERVAL_MS_MIN, DEBUG_FALL_TICK_MS_MAX, DEBUG_FALL_TICK_MS_MIN, DEBUG_FALL_TICK_STEP_MS,
    DEBUG_SHAKE_DURATION_MS_MAX, DEBUG_SHAKE_DURATION_MS_MIN, DEBUG_SHAKE_DURATION_STEP_MS,
    DODGE_RECOVERY_MS_MAX, DODGE_RECOVERY_MS_MIN, FALL_SPEED_DEPTH_MAX_SPEEDUP_PERCENT, FALL_TICK_MS,
    FIELD_DEPTH_M, MOVE_COOLDOWN_MS_MAX, MOVE_COOLDOWN_MS_MIN,
};
use crate::flash::subtract;
use crate::game::{tuned, Core, DodgeStage, Game, World};

verus! {

/// Time between two ticks of gravity at a depth, in milliseconds: the deeper,
/// the faster, but never faster than the shortest tick there is.
pub open spec fn tick_ms_at(tick_ms: int, depth_m: int) -> int {
    let share = 100 * FIELD_DEPTH_M - scaled_depth(depth_m) * (100 - FALL_SPEED_DEPTH_MAX_SPEEDUP_PERCENT);
    let tick = tick_ms * share / (100 * FIELD_DEPTH_M);
    if tick < DEBUG_FALL_TICK_MS_MIN {
        DEBUG_FALL_TICK_MS_MIN as int
    } else {
        tick
    }
}

impl World {
    /// Time between two ticks of gravity, in milliseconds.
    pub open spec fn tick_ms(self) -> int {
        tick_ms_at(self.core.block_fall_tick_ms as int, self.player.row + 1)
    }

    /// Time until the blocks that the latest tick moved are where they belong.
    pub open spec fn landing_delay(self) -> u64 {
        minus(ms(self.tick_ms()), self.core.fall_tick_accum as int) as u64
    }

    /// How long a vanished block flashes, in milliseconds.
    pub open spec fn flash_ms(self) -> int {
        let flash = BLOCK_VANISH_FLASH_MS * self.tick_ms() / FALL_TICK_MS as int;
        if flash < BLOCK_VANISH_FLASH_MIN_MS {
            BLOCK_VANISH_FLASH_MIN_MS as int
        } else {
            flash
        }
    }

    /// The ticks that a block shakes before it falls: none if the setting is
    /// zero, otherwise at least one.
    pub open spec fn shake_count(self) -> u8 {
        if self.core.shake_duration_ms == 0 {
            0
        } else {
            clamped(self.core.shake_duration_ms as int / self.tick_ms(), 1, 255) as u8
        }
    }

    /// The player rises to heaven.
    pub open spec fn dying(self) -> bool {
        self.core.ascending_remaining is Some
    }

    /// The player does not react to input.
    pub open spec fn frozen(self) -> bool {
        self.dying() || self.core.dodge_stage != DodgeStage::Idle
    }
}

/// A tick of gravity takes between the shortest and the longest time there is.
pub proof fn lemma_tick_range(tick_ms: int, depth_m: int)
    requires
        DEBUG_FALL_TICK_MS_MIN <= tick_ms <= DEBUG_FALL_TICK_MS_MAX,
        depth_m >= 0,
    ensures
        DEBUG_FALL_TICK_MS_MIN <= tick_ms_at(tick_ms, depth_m) <= tick_ms,
{
    let share = 100 * FIELD_DEPTH_M - scaled_depth(depth_m) * (100 - FALL_SPEED_DEPTH_MAX_SPEEDUP_PERCENT);
    let s = scaled_depth(depth_m);
    assert(0 <= share <= 100000) by (nonlinear_arith)
        requires
            0 <= s <= 1000,
            share == 100 * 1000 - s * (100 - 50),
    ;
    assert(0 <= tick_ms * share <= tick_ms * 100000) by (nonlinear_arith)
        requires
            0 <= share <= 100000,
            0 <= tick_ms,
    ;
    assert(tick_ms * share / 100000 <= tick_ms) by (nonlinear_arith)
        requires
            0 <= tick_ms * share <= tick_ms * 100000,
    ;
}

/// A flash lasts no longer than the longest tick makes it.
pub proof fn lemma_flash_range(w: World)
    requires
        tuned(w.core),
    ensures
        BLOCK_VANISH_FLASH_MIN_MS <= w.flash_ms() <= BLOCK_VANISH_FLASH_MS * DEBUG_FALL_TICK_MS_MAX,
{
    lemma_tick_range(w.core.block_fall_tick_ms as int, w.player.row + 1);
}

/// A tick interval one notch faster or slower, brought into its range.
pub open spec fn notched(ms: int, faster: bool) -> int {
    clamped(
        if faster {
            ms - DEBUG_FALL_TICK_STEP_MS
        } else {
            ms + DEBUG_FALL_TICK_STEP_MS
        },
        DEBUG_FALL_TICK_MS_MIN as int,
        DEBUG_FALL_TICK_MS_MAX as int,
    )
}

/// A tick interval one notch faster or slower, brought into its range.
fn adjust_fall_tick_ms(value: u64, faster: bool) -> (r: u64)
    ensures
        r == notched(value as int, faster),
        DEBUG_FALL_TICK_MS_MIN <= r <= DEBUG_FALL_TICK_MS_MAX,
{
    let next: u64 = if faster {
        subtract(value, DEBUG_FALL_TICK_STEP_MS)
    } else if value > DEBUG_FALL_TICK_MS_MAX {
        value
    } else {
        value + DEBUG_FALL_TICK_STEP_MS
    };
    clamp_u64(next, DEBUG_FALL_TICK_MS_MIN, DEBUG_FALL_TICK_MS_MAX)
}

/// A 32-bit setting brought into its range.
fn clamp_u32(value: u32, low: u32, high: u32) -> (r: u32)
    requires
        low <= high,
    ensures
        r == clamped(value as int, low as int, high as int),
{
    if value < low {
        low
    } else if value > high {
        high
    } else {
        value
    }
}

impl World {
    /// The world with another core.
    pub open spec fn with_core(self, core: Core) -> World {
        World { core, ..self }
    }
}

impl Game {
    /// Time between two ticks of gravity at the player's depth, in
    /// milliseconds.
    pub fn effective_block_fall_tick_ms(&self) -> (tick: u64)
        requires
            self.wf(),
        ensures
            tick == self@.tick_ms(),
            DEBUG_FALL_TICK_MS_MIN <= tick <= self.core.block_fall_tick_ms,
    {
        let depth: usize = self.player.row + 1;
        let scaled: u64 = if depth < FIELD_DEPTH_M { depth as u64 } else { FIELD_DEPTH_M as u64 };
        let share: u64 = 100 * FIELD_DEPTH_M as u64 - scaled * (100 - FALL_SPEED_DEPTH_MAX_SPEEDUP_PERCENT);
        proof {
            let tick_ms = self.core.block_fall_tick_ms as int;
            lemma_tick_range(tick_ms, self.player.row + 1);
            assert(0 <= tick_ms * share <= 600 * 100000) by (nonlinear_arith)
                requires
                    0 <= share <= 100000,
                    0 <= tick_ms <= 600,
            ;
        }
        let tick: u64 = self.core.block_fall_tick_ms * share / (100 * FIELD_DEPTH_M as u64);
        if tick < DEBUG_FALL_TICK_MS_MIN {
            DEBUG_FALL_TICK_MS_MIN
        } else {
            tick
        }
    }

    /// Time until the blocks that the latest tick moved are where they belong.
    /// Blocks that vanish with a tick wait so long before they flash.
    pub fn gravity_vanish_delay(&self) -> (delay: u64)
        requires
            self.wf(),
        ensures
            delay == self@.landing_delay(),
            delay <= ms(DEBUG_FALL_TICK_MS_MAX as int),
    {
        subtract(millis(self.effective_block_fall_tick_ms()), self.core.fall_tick_accum)
    }

    /// How long a vanished block flashes, in milliseconds.
    pub fn vanish_flash_duration_ms(&self) -> (flash: u64)
        requires
            self.wf(),
        ensures
            flash == self@.flash_ms(),
            BLOCK_VANISH_FLASH_MIN_MS <= flash <= BLOCK_VANISH_FLASH_MS * DEBUG_FALL_TICK_MS_MAX,
    {
        let tick: u64 = self.effective_block_fall_tick_ms();
        let flash: u64 = BLOCK_VANISH_FLASH_MS * tick / FALL_TICK_MS;
        if flash < BLOCK_VANISH_FLASH_MIN_MS {
            BLOCK_VANISH_FLASH_MIN_MS
        } else {
            flash
        }
    }

    /// The ticks that a block shakes before it falls.
    pub fn shake_ticks(&self) -> (ticks: u8)
        requires
            self.wf(),
        ensures
            ticks == self@.shake_count(),
    {
        if self.core.shake_duration_ms == 0 {
            return 0;
        }
        let tick: u64 = self.effective_block_fall_tick_ms();
        let ticks: u64 = self.core.shake_duration_ms / tick;
        if ticks < 1 {
            1
        } else if ticks > 255 {
            255
        } else {
            ticks as u8
        }
    }

    /// Whether the player rises to heaven.
    pub fn is_dying(&self) -> (r: bool)
        ensures
            r == self@.dying(),
    {
        self.core.ascending_remaining.is_some()
    }

    /// Whether the player does not react to input.
    pub fn is_input_frozen(&self) -> (r: bool)
        ensures
            r == self@.frozen(),
    {
        self.is_dying() || self.core.dodge_stage != DodgeStage::Idle
    }

    /// Time between two ticks of gravity at the surface, in milliseconds.
    pub fn block_fall_tick_ms(&self) -> (r: u64)
        ensures
            r == self.core.block_fall_tick_ms,
    {
        self.core.block_fall_tick_ms
    }

    /// Time between two ticks of free fall, in milliseconds.
    pub fn player_fall_tick_ms(&self) -> (r: u64)
        ensures
            r == self.core.player_fall_tick_ms,
    {
        self.core.player_fall_tick_ms
    }

    /// Time between two steps, in milliseconds.
    pub fn move_cooldown_ms(&self) -> (r: u64)
        ensures
            r == self.core.move_cooldown_ms,
    {
        self.core.move_cooldown_ms
    }

    /// How long a block shakes before it falls, in milliseconds.
    pub fn shake_duration_ms(&self) -> (r: u64)
        ensures
            r == self.core.shake_duration_ms,
    {
        self.core.shake_duration_ms
    }

    /// Sets the tick of gravity, brought into its range.
    pub fn set_block_fall_tick_ms(&mut self, ms: u64)
        requires
            old(self).wf(),
        ensures
            final(self).wf(),
            final(self)@ == old(self)@.with_core(
                Core {
                    block_fall_tick_ms: clamped(
                        ms as int,
                        DEBUG_FALL_TICK_MS_MIN as int,
                        DEBUG_FALL_TICK_MS_MAX as int,
                    ) as u64,
                    ..old(self).core
                },
            ),
    {
        self.core.block_fall_tick_ms = clamp_u64(ms, DEBUG_FALL_TICK_MS_MIN, DEBUG_FALL_TICK_MS_MAX);
    }

    /// Sets the tick of free fall, brought into its range.
    pub fn set_player_fall_tick_ms(&mut self, ms: u64)
        requires
            old(self).wf(),
        ensures
            final(self).wf(),
            final(self)@ == old(self)@.with_core(
                Core {
                    player_fall_tick_ms: clamped(
                        ms as int,
                        DEBUG_FALL_TICK_MS_MIN as int,
                        DEBUG_FALL_TICK_MS_MAX as int,
                    ) as u64,
                    ..old(self).core
                },
            ),
    {
        self.core.player_fall_tick_ms = clamp_u64(ms, DEBUG_FALL_TICK_MS_MIN, DEBUG_FALL_TICK_MS_MAX);
    }

    /// Sets the time between two steps, brought into its range.
    pub fn set_move_cooldown_ms(&mut self, ms: u64)
        requires
            old(self).wf(),
        ensures
            final(self).wf(),
            final(self)@ == old(self)@.with_core(
                Core {
                    move_cooldown_ms: clamped(
                        ms as int,
                        MOVE_COOLDOWN_MS_MIN as int,
                        MOVE_COOLDOWN_MS_MAX as int,
                    ) as u64,
                    ..old(self).core
                },
            ),
    {
        self.core.move_cooldown_ms = clamp_u64(ms, MOVE_COOLDOWN_MS_MIN, MOVE_COOLDOWN_MS_MAX);
    }

    /// Sets how long gravity rests after blocks have vanished, brought into its
    /// range.
    pub fn set_chain_vanish_interval_ms(&mut self, ms: u64)
        requires
            old(self).wf(),
        ensures
            final(self).wf(),
            final(self)@ == old(self)@.with_core(
                Core {
                    chain_vanish_interval_ms: clamped(
                        ms as int,
                        CHAIN_VANISH_INTERVAL_MS_MIN as int,
                        CHAIN_VANISH_INTERVAL_MS_MAX as int,
                    ) as u64,
                    ..old(self).core
                },
            ),
    {
        self.core.chain_vanish_interval_ms =
        clamp_u64(ms, CHAIN_VANISH_INTERVAL_MS_MIN, CHAIN_VANISH_INTERVAL_MS_MAX);
    }

    /// Sets how long a block shakes, brought into its range.
    pub fn set_shake_duration_ms(&mut self, ms: u64)
        requires
            old(self).wf(),
        ensures
            final(self).wf(),
            final(self)@ == old(self)@.with_core(
                Core {
                    shake_duration_ms: clamped(
                        ms as int,
                        DEBUG_SHAKE_DURATION_MS_MIN as int,
                        DEBUG_SHAKE_DURATION_MS_MAX as int,
                    ) as u64,
                    ..old(self).core
                },
            ),
    {
        self.core.shake_duration_ms = clamp_u64(ms, DEBUG_SHAKE_DURATION_MS_MIN, DEBUG_SHAKE_DURATION_MS_MAX);
    }

    /// Sets how long the player takes to get up after a slide, brought into its
    /// range.
    pub fn set_dodge_recovery_ms(&mut self, ms: u64)
        requires
            old(self).wf(),
        ensures
            final(self).wf(),
            final(self)@ == old(self)@.with_core(
                Core {
                    dodge_recovery_ms: clamped(
                        ms as int,
                        DODGE_RECOVERY_MS_MIN as int,
                        DODGE_RECOVERY_MS_MAX as int,
                    ) as u64,
                    ..old(self).core
                },
            ),
    {
        self.core.dodge_recovery_ms = clamp_u64(ms, DODGE_RECOVERY_MS_MIN, DODGE_RECOVERY_MS_MAX);
    }

    /// Sets how often bombs come up, in percent of the usual.
    pub fn set_bomb_spawn_rate_percent(&mut self, percent: u32)
        requires
            old(self).wf(),
        ensures
            final(self).wf(),
            final(self)@ == old(self)@.with_core(
                Core { bomb_spawn_rate_percent: percent, ..old(self).core },
            ),
    {
        self.core.bomb_spawn_rate_percent = percent;
    }

    /// Sets the fuse of bombs that are yet to come.
    pub fn set_bomb_fuse_ms(&mut self, ms: u32)
        requires
            old(self).wf(),
        ensures
            final(self).wf(),
            final(self)@ == old(self)@.with_core(Core { bomb_fuse_ms: ms, ..old(self).core }),
    {
        self.core.bomb_fuse_ms = ms;
    }

    /// Sets how much attack makes one rock, brought into its range.
    pub fn set_attack_blocks_per_rock(&mut self, blocks: u32)
        requires
            old(self).wf(),
        ensures
            final(self).wf(),
            final(self)@ == old(self)@.with_core(
                Core {
                    attack_blocks_per_rock: clamped(
                        blocks as int,
                        ATTACK_BLOCKS_PER_ROCK_MIN as int,
                        ATTACK_BLOCKS_PER_ROCK_MAX as int,
                    ) as u32,
                    ..old(self).core
                },
            ),
    {
        self.core.attack_blocks_per_rock =
        clamp_u32(blocks, ATTACK_BLOCKS_PER_ROCK_MIN, ATTACK_BLOCKS_PER_ROCK_MAX);
    }

    /// Sets the most rocks that come at once, brought into its range.
    pub fn set_attack_rocks_per_wave_max(&mut self, rocks: u32)
        requires
            old(self).wf(),
        ensures
            final(self).wf(),
            final(self)@ == old(self)@.with_core(
                Core {
                    attack_rocks_per_wave_max: clamped(
                        rocks as int,
                        ATTACK_ROCKS_PER_WAVE_MAX_MIN as int,
                        ATTACK_ROCKS_PER_WAVE_MAX_MAX as int,
                    ) as u32,
                    ..old(self).core
                },
            ),
    {
        self.core.attack_rocks_per_wave_max =
        clamp_u32(rocks, ATTACK_ROCKS_PER_WAVE_MAX_MIN, ATTACK_ROCKS_PER_WAVE_MAX_MAX);
    }

    /// Makes a block shake one notch longer or shorter, down to not at all.
    pub fn debug_adjust_shake_duration(&mut self, longer: bool)
        requires
            old(self).wf(),
        ensures
            final(self).wf(),
            final(self)@ == old(self)@.with_core(
                Core {
                    shake_duration_ms: (if longer {
                        least(
                            old(self).core.shake_duration_ms + DEBUG_SHAKE_DURATION_STEP_MS,
                            DEBUG_SHAKE_DURATION_MS_MAX as int,
                        )
                    } else {
                        minus(
                            old(self).core.shake_duration_ms as int,
                            DEBUG_SHAKE_DURATION_STEP_MS as int,
                        )
                    }) as u64,
                    ..old(self).core
                },
            ),
    {
        let now: u64 = self.core.shake_duration_ms;
        self.core.shake_duration_ms = if longer {
            clamp_u64(now + DEBUG_SHAKE_DURATION_STEP_MS, 0, DEBUG_SHAKE_DURATION_MS_MAX)
        } else {
            subtract(now, DEBUG_SHAKE_DURATION_STEP_MS)
        };
    }

    /// Makes blocks fall one notch faster or slower.
    pub fn debug_adjust_block_fall_speed(&mut self, faster: bool)
        requires
            old(self).wf(),
        ensures
            final(self).wf(),
            final(self)@ == old(self)@.with_core(
                Core {
                    block_fall_tick_ms: notched(old(self).core.block_fall_tick_ms as int, faster) as u64,
                    ..old(self).core
                },
            ),
    {
        self.core.block_fall_tick_ms = adjust_fall_tick_ms(self.core.block_fall_tick_ms, faster);
    }

    /// Makes the player fall one notch faster or slower.
    pub fn debug_adjust_player_fall_speed(&mut self, faster: bool)
        requires
            old(self).wf(),
        ensures
            final(self).wf(),
            final(self)@ == old(self)@.with_core(
                Core {
                    player_fall_tick_ms: notched(old(self).core.player_fall_tick_ms as int, faster) as u64,
                    ..old(self).core
                },
            ),
    {
        self.core.player_fall_tick_ms = adjust_fall_tick_ms(self.core.player_fall_tick_ms, faster);
    }
}

} // verus!
