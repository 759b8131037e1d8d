//! The way down: levels, checkpoints, the goal, the items ahead, and the traces
//! that a move leaves.
use vstd::prelude::*;

use crate::board::{Cell, Pos};
use crate::bombs::{bomb_rests_at, find_bomb};
use crate::constants::{
    least, ms, BONUS_FLOOR_DEPTH_M, BONUS_FLOOR_ITEM_AIR_RATE_PERCENT, CHECKPOINT_FLASH_MS,
    CHECKPOINT_SAFE_ZONE_M, CHECKPOINT_STEP_M, CHECKPOINT_ZONE_GAP_M, DODGE_DETECT_WINDOW_MS,
    ITEM_WINDOW_AHEAD_ROWS, LEVELS_PER_EXTRA_LIFE, LIVES_MAX, MOVE_ANIM_DURATION_MS,
    NANOS_PER_MS, REWIND_STOCK_PER_CHECKPOINT, SPAWN_RATE_PERCENT_DEFAULT,
};
use crate::dice::Dice;
use crate::effects::{empty_rows, emptied_rows};
use crate::flood::at;
use crate::game::{checkpoint_at, checkpoint_index_for_depth, Core, Game, GameEvent, GameStatus, Tale, World};
use crate::gravity::shaking;
use crate::groups::cleared;
use crate::player::{level_at, Player};
use crate::sweep::{haul, sweep, swept, Sweep};
use crate::terrain::{lemma_redrawn, redrawn, stocked, SpawnRates};

verus! {

impl World {
    /// The rows that have come within reach have had their chance of items.
    pub open spec fn stocked_ahead(self) -> World {
        let target = least(self.player.row + ITEM_WINDOW_AHEAD_ROWS, self.grid.len() as int);
        if target <= self.core.item_top_up_frontier_row {
            self
        } else {
            let (grid, rng) = stocked(
                self.grid,
                self.core.rng,
                (
                    self.core.item_clear_above_rate_percent,
                    self.core.item_unify_colors_rate_percent,
                    self.core.item_starify_screen_rate_percent,
                ),
                self.player.row as int,
                self.core.item_top_up_frontier_row as int,
                target,
                target,
            );
            World {
                grid,
                core: Core { rng, item_top_up_frontier_row: target as usize, ..self.core },
                ..self
            }
        }
    }

    /// The gap below the ground of a checkpoint is open. The ground of the
    /// bonus floor is drawn anew, with plenty of items and capsules.
    pub open spec fn gap_opened(self, at_m: int) -> World {
        let n = self.grid.len() as int;
        let zone_end = least(at_m + CHECKPOINT_SAFE_ZONE_M, n);
        let gap_end = least(zone_end + CHECKPOINT_ZONE_GAP_M, n);
        let (grid, rng) = if at_m == BONUS_FLOOR_DEPTH_M {
            redrawn(self.grid, self.core.rng, self.gravity, self.width, at_m, zone_end, bonus_rates())
        } else {
            (self.grid, self.core.rng)
        };
        World {
            grid: emptied_rows(grid, zone_end, gap_end),
            core: Core { rng, ..self.core },
            ..self
        }
    }

    /// What has come down into the gaps of the checkpoints is gone.
    pub open spec fn gaps_swept(self, delay: u64) -> World {
        let what = Sweep::Gaps { checkpoints: self.core.last_checkpoint_reported };
        (World { grid: cleared(self.grid, swept(self.grid, what)), ..self }).noted(
            haul(self.grid, what),
            delay,
        )
    }

    /// The player has moved away from `before`, and that is drawn for so long.
    /// If something shook above the cell they left, that cell is watched.
    pub open spec fn moved_from(self, before: Pos, duration: u64) -> World {
        if (self.player.row, self.player.col) == before {
            self
        } else {
            let shown = Core {
                render_prev_position: before,
                render_anim_elapsed: 0,
                render_anim_duration: if duration < NANOS_PER_MS {
                    NANOS_PER_MS
                } else {
                    duration
                },
                ..self.core
            };
            if before.0 > 0 && shaking(self.gravity, (before.0 - 1, before.1 as int)) {
                self.with_core(
                    Core {
                        dodge_watch_cell: Some(before),
                        dodge_watch_remaining: ms(DODGE_DETECT_WINDOW_MS as int) as u64,
                        ..shown
                    },
                )
            } else {
                self.with_core(Core { dodge_watch_cell: None, ..shown })
            }
        }
    }

    /// Something holds the player up: the end of the field, a bomb, or a cell
    /// below that is neither empty nor a capsule.
    pub open spec fn on_ground(self) -> bool {
        let under = (self.player.row + 1, self.player.col as int);
        ||| self.player.row + 1 >= self.grid.len()
        ||| bomb_rests_at(self.bombs, under)
        ||| !(at(self.grid, under) is Empty || at(self.grid, under) is Oxygen)
    }
}

/// The rates at which the bonus floor is drawn.
pub open spec fn bonus_rates() -> SpawnRates {
    SpawnRates {
        rock: SPAWN_RATE_PERCENT_DEFAULT,
        air: BONUS_FLOOR_ITEM_AIR_RATE_PERCENT,
        star: SPAWN_RATE_PERCENT_DEFAULT,
        diamond: SPAWN_RATE_PERCENT_DEFAULT,
        item_clear_above: BONUS_FLOOR_ITEM_AIR_RATE_PERCENT,
        item_unify_colors: BONUS_FLOOR_ITEM_AIR_RATE_PERCENT,
        item_starify_screen: BONUS_FLOOR_ITEM_AIR_RATE_PERCENT,
        color_count: 4,
        color_cluster: SPAWN_RATE_PERCENT_DEFAULT,
    }
}

/// One life more, up to the most there may be.
pub open spec fn one_up(player: Player) -> Player {
    Player { lives: least(player.lives + 1, LIVES_MAX as int) as u8, ..player }
}

/// A level that is new is told; some bring a life.
pub open spec fn levelled(t: Tale) -> Tale {
    let level = level_at(t.0.player.row + 1) as usize;
    if level <= t.0.core.last_level_reported {
        t
    } else {
        let w = t.0.with_core(Core { last_level_reported: level, ..t.0.core });
        let events = t.1.push(GameEvent::LevelUp { level });
        if level % LEVELS_PER_EXTRA_LIFE == 0 {
            (
                World { player: one_up(w.player), ..w },
                events.push(GameEvent::ExtraLifeAtLevel { level }),
            )
        } else {
            (w, events)
        }
    }
}

/// A checkpoint that is new, and comes before the goal, clears what is above
/// the player, opens its gap, brings a rewind, and is told. If more than one
/// has been passed at once, that is only kept in mind.
pub open spec fn checked(t: Tale) -> Tale {
    let checkpoint = checkpoint_at(t.0.player.row + 1);
    let last = t.0.core.last_checkpoint_reported;
    let at_m = checkpoint * CHECKPOINT_STEP_M;
    if checkpoint <= last {
        t
    } else {
        let w = t.0.with_core(Core { last_checkpoint_reported: checkpoint as usize, ..t.0.core });
        if checkpoint > last + 1 || w.status != GameStatus::Playing || at_m >= w.core.depth_goal_m {
            (w, t.1)
        } else {
            let open = w.above_cleared().gap_opened(at_m);
            (
                open.with_core(
                    Core {
                        checkpoint_flash_remaining: ms(CHECKPOINT_FLASH_MS as int) as u64,
                        checkpoint_flash_depth_m: at_m as usize,
                        rewind_stock: least(
                            open.core.rewind_stock + REWIND_STOCK_PER_CHECKPOINT,
                            open.core.rewind_stock_max as int,
                        ) as u8,
                        ..open.core
                    },
                ),
                t.1.push(GameEvent::Checkpoint100m { at_m: at_m as usize }),
            )
        }
    }
}

/// The game is won once the goal is reached.
pub open spec fn goal_checked(t: Tale) -> Tale {
    if t.0.status == GameStatus::Playing && t.0.player.row + 1 >= t.0.core.depth_goal_m {
        (World { status: GameStatus::Cleared, ..t.0 }, t.1.push(GameEvent::Cleared))
    } else {
        t
    }
}

/// What follows when the player has changed rows.
pub open spec fn descended(t: Tale) -> Tale {
    let (w, events) = goal_checked(checked(levelled(t)));
    (w.stocked_ahead(), events)
}

impl Game {
    /// Gives the rows that have come within reach their chance of items.
    pub(crate) fn top_up_items_ahead(&mut self)
        requires
            old(self).wf(),
        ensures
            final(self).wf(),
            final(self)@ == old(self)@.stocked_ahead(),
    {
        let ghost before = self@;
        let n: usize = self.board.depth_rows();
        let row: usize = self.player.row;
        let target: usize = if n - row > ITEM_WINDOW_AHEAD_ROWS { row + ITEM_WINDOW_AHEAD_ROWS } else { n };
        if target <= self.core.item_top_up_frontier_row {
            return;
        }
        let mut dice: Dice = self.core.rng;
        self.board.top_up_items(
            &mut dice,
            row,
            self.core.item_top_up_frontier_row,
            target,
            self.core.item_clear_above_rate_percent,
            self.core.item_unify_colors_rate_percent,
            self.core.item_starify_screen_rate_percent,
        );
        self.core.rng = dice;
        self.core.item_top_up_frontier_row = target;
        assert(self@ =~= before.stocked_ahead());
    }

    /// Opens the gap below the ground of a checkpoint that has been dug
    /// through.
    pub fn apply_checkpoint_safe_zone(&mut self, at_m: usize)
        requires
            old(self).wf(),
            at_m <= old(self)@.grid.len(),
        ensures
            final(self).wf(),
            final(self)@ == old(self)@.gap_opened(at_m as int),
    {
        let ghost before = self@;
        let n: usize = self.board.depth_rows();
        let zone_end: usize = if n - at_m > CHECKPOINT_SAFE_ZONE_M { at_m + CHECKPOINT_SAFE_ZONE_M } else { n };
        let gap_end: usize = if n - zone_end > CHECKPOINT_ZONE_GAP_M {
            zone_end + CHECKPOINT_ZONE_GAP_M
        } else {
            n
        };
        if at_m == BONUS_FLOOR_DEPTH_M {
            let rates = SpawnRates {
                rock: SPAWN_RATE_PERCENT_DEFAULT,
                air: BONUS_FLOOR_ITEM_AIR_RATE_PERCENT,
                star: SPAWN_RATE_PERCENT_DEFAULT,
                diamond: SPAWN_RATE_PERCENT_DEFAULT,
                item_clear_above: BONUS_FLOOR_ITEM_AIR_RATE_PERCENT,
                item_unify_colors: BONUS_FLOOR_ITEM_AIR_RATE_PERCENT,
                item_starify_screen: BONUS_FLOOR_ITEM_AIR_RATE_PERCENT,
                color_count: 4,
                color_cluster: SPAWN_RATE_PERCENT_DEFAULT,
            };
            proof {
                lemma_redrawn(
                    self@.grid,
                    self.core.rng,
                    self@.gravity,
                    self.board.width,
                    at_m as int,
                    zone_end as int,
                    rates,
                );
            }
            let mut dice: Dice = self.core.rng;
            self.board.reroll_overlays_in_row_range(&mut dice, at_m, zone_end, &rates, &self.gravity_state);
            self.core.rng = dice;
        }
        empty_rows(&mut self.board, zone_end, gap_end);
        assert(self@ =~= before.gap_opened(at_m as int));
    }

    /// Clears away what has come down into the gaps of the checkpoints that
    /// have been reached.
    pub(crate) fn purge_checkpoint_zone_debris(&mut self, vanish_delay: u64)
        requires
            old(self).wf(),
            vanish_delay + ms(old(self)@.flash_ms()) <= u64::MAX,
        ensures
            final(self).wf(),
            final(self)@ == old(self)@.gaps_swept(vanish_delay),
    {
        let what = Sweep::Gaps { checkpoints: self.core.last_checkpoint_reported };
        let gone: Vec<(Pos, Cell)> = sweep(&mut self.board, what);
        self.note_vanished_cells(&gone, vanish_delay);
    }

    /// Whether a bomb lies at a cell.
    pub fn settled_bomb_at(&self, row: usize, col: usize) -> (r: bool)
        ensures
            r == bomb_rests_at(self@.bombs, (row as int, col as int)),
    {
        find_bomb(&self.bombs, (row, col)).is_some()
    }

    /// Whether something holds the player up. While nothing does, they fall and
    /// cannot step aside.
    pub fn player_is_grounded(&self) -> (r: bool)
        requires
            self.wf(),
        ensures
            r == self@.on_ground(),
    {
        let n: usize = self.board.depth_rows();
        if self.player.row >= n - 1 {
            return true;
        }
        let under: usize = self.player.row + 1;
        if self.settled_bomb_at(under, self.player.col) {
            return true;
        }
        !matches!(self.board.cell(under, self.player.col), Cell::Empty | Cell::Oxygen)
    }

    /// Watches the cell that the player has left if something shook above it.
    fn arm_dodge_watch_if_fled_a_shaking_block(&mut self, before: Pos)
        requires
            old(self).wf(),
        ensures
            final(self).wf(),
            final(self)@ == old(self)@.with_core(
                if before.0 > 0 && shaking(old(self)@.gravity, (before.0 - 1, before.1 as int)) {
                    Core {
                        dodge_watch_cell: Some(before),
                        dodge_watch_remaining: ms(DODGE_DETECT_WINDOW_MS as int) as u64,
                        ..old(self).core
                    }
                } else {
                    Core { dodge_watch_cell: None, ..old(self).core }
                },
            ),
    {
        if before.0 > 0 && self.gravity_state.is_shaking((before.0 - 1, before.1)) {
            self.core.dodge_watch_cell = Some(before);
            self.core.dodge_watch_remaining = DODGE_DETECT_WINDOW_MS * NANOS_PER_MS;
        } else {
            self.core.dodge_watch_cell = None;
        }
    }

    /// If the player has moved away from `before`, starts to draw that, for so
    /// long.
    pub(crate) fn note_possible_move_with_duration(&mut self, before: Pos, duration: u64)
        requires
            old(self).wf(),
        ensures
            final(self).wf(),
            final(self)@ == old(self)@.moved_from(before, duration),
    {
        let after: Pos = self.player.position();
        if after.0 != before.0 || after.1 != before.1 {
            self.core.render_prev_position = before;
            self.core.render_anim_elapsed = 0;
            self.core.render_anim_duration = if duration < NANOS_PER_MS { NANOS_PER_MS } else { duration };
            self.arm_dodge_watch_if_fled_a_shaking_block(before);
        }
    }

    /// If the player has moved away from `before`, starts to draw that, as long
    /// as a step is drawn.
    pub(crate) fn note_possible_move(&mut self, before: Pos)
        requires
            old(self).wf(),
        ensures
            final(self).wf(),
            final(self)@ == old(self)@.moved_from(before, ms(MOVE_ANIM_DURATION_MS as int) as u64),
    {
        self.note_possible_move_with_duration(before, MOVE_ANIM_DURATION_MS * NANOS_PER_MS);
    }

    fn report_level(&mut self, events: &mut Vec<GameEvent>)
        requires
            old(self).wf(),
        ensures
            final(self).wf(),
            (final(self)@, final(events)@) == levelled((old(self)@, old(events)@)),
    {
        let level: usize = self.player.level();
        if level > self.core.last_level_reported {
            self.core.last_level_reported = level;
            events.push(GameEvent::LevelUp { level });
            if level % LEVELS_PER_EXTRA_LIFE == 0 {
                self.player.lives = if self.player.lives >= LIVES_MAX { LIVES_MAX } else { self.player.lives + 1 };
                events.push(GameEvent::ExtraLifeAtLevel { level });
            }
        }
    }

    fn report_checkpoint(&mut self, events: &mut Vec<GameEvent>)
        requires
            old(self).wf(),
        ensures
            final(self).wf(),
            (final(self)@, final(events)@) == checked((old(self)@, old(events)@)),
    {
        let checkpoint: usize = checkpoint_index_for_depth(self.player.depth_m());
        if checkpoint > self.core.last_checkpoint_reported {
            let skipped_ahead: bool = checkpoint - self.core.last_checkpoint_reported > 1;
            self.core.last_checkpoint_reported = checkpoint;
            let at_m: usize = checkpoint * CHECKPOINT_STEP_M;
            if !skipped_ahead && self.status == GameStatus::Playing && at_m < self.core.depth_goal_m {
                self.debug_clear_above_player();
                self.apply_checkpoint_safe_zone(at_m);
                self.core.checkpoint_flash_remaining = CHECKPOINT_FLASH_MS * NANOS_PER_MS;
                self.core.checkpoint_flash_depth_m = at_m;
                let room: u8 = self.core.rewind_stock_max - self.core.rewind_stock;
                if room <= REWIND_STOCK_PER_CHECKPOINT {
                    self.core.rewind_stock = self.core.rewind_stock_max;
                } else {
                    self.core.rewind_stock = self.core.rewind_stock + REWIND_STOCK_PER_CHECKPOINT;
                }
                events.push(GameEvent::Checkpoint100m { at_m });
            }
        }
    }

    /// Sees to levels, checkpoints, the goal and the items ahead. For when the
    /// player has changed rows.
    pub fn check_level_and_clear(&mut self, events: &mut Vec<GameEvent>)
        requires
            old(self).wf(),
        ensures
            final(self).wf(),
            (final(self)@, final(events)@) == descended((old(self)@, old(events)@)),
    {
        self.report_level(events);
        self.report_checkpoint(events);
        if self.status == GameStatus::Playing && self.player.depth_m() >= self.core.depth_goal_m {
            self.status = GameStatus::Cleared;
            events.push(GameEvent::Cleared);
        }
        self.top_up_items_ahead();
    }

    /// Draws the blocks from `from_row` on anew at other rates, and keeps the
    /// rates at which rows are stocked with items.
    pub fn reroll_spawn_rates_from(
        &mut self,
        from_row: usize,
        rock_rate_percent: u32,
        air_rate_percent: u32,
        star_rate_percent: u32,
        diamond_rate_percent: u32,
        item_clear_above_rate_percent: u32,
        item_unify_colors_rate_percent: u32,
        item_starify_screen_rate_percent: u32,
        color_count: u8,
        color_cluster_rate_percent: u32,
    )
        requires
            old(self).wf(),
        ensures
            final(self).wf(),
            final(self)@ == old(self)@.rerolled(
                from_row as int,
                SpawnRates {
                    rock: rock_rate_percent,
                    air: air_rate_percent,
                    star: star_rate_percent,
                    diamond: diamond_rate_percent,
                    item_clear_above: item_clear_above_rate_percent,
                    item_unify_colors: item_unify_colors_rate_percent,
                    item_starify_screen: item_starify_screen_rate_percent,
                    color_count,
                    color_cluster: color_cluster_rate_percent,
                },
            ),
    {
        self.core.item_clear_above_rate_percent = item_clear_above_rate_percent;
        self.core.item_unify_colors_rate_percent = item_unify_colors_rate_percent;
        self.core.item_starify_screen_rate_percent = item_starify_screen_rate_percent;
        let rates = SpawnRates {
            rock: rock_rate_percent,
            air: air_rate_percent,
            star: star_rate_percent,
            diamond: diamond_rate_percent,
            item_clear_above: 0,
            item_unify_colors: 0,
            item_starify_screen: 0,
            color_count,
            color_cluster: color_cluster_rate_percent,
        };
        let ghost before = self@;
        proof {
            lemma_redrawn(
                self@.grid,
                self.core.rng,
                self@.gravity,
                self.board.width,
                from_row as int,
                self@.grid.len() as int,
                rates,
            );
        }
        let mut dice: Dice = self.core.rng;
        self.board.reroll_overlays_from_row(&mut dice, from_row, &rates, &self.gravity_state);
        self.core.rng = dice;
        self.top_up_items_ahead();
    }
}

impl World {
    /// The blocks from row `from` on are drawn anew at other rates, without
    /// items; rows that come within reach are stocked at the new rates.
    pub open spec fn rerolled(self, from: int, rates: SpawnRates) -> World {
        let (grid, rng) = redrawn(
            self.grid,
            self.core.rng,
            self.gravity,
            self.width,
            from,
            self.grid.len() as int,
            SpawnRates { item_clear_above: 0, item_unify_colors: 0, item_starify_screen: 0, ..rates },
        );
        (World {
            grid,
            core: Core {
                rng,
                item_clear_above_rate_percent: rates.item_clear_above,
                item_unify_colors_rate_percent: rates.item_unify_colors,
                item_starify_screen_rate_percent: rates.item_starify_screen,
                ..self.core
            },
            ..self
        }).stocked_ahead()
    }
}

} // verus!
