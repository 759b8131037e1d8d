//! Items and misfortune: what items do, what costs a life, and how the player
//! comes back.
use vstd::prelude::*;

use crate::board::{nth_color, with_cell, Cell, ColorKind, ItemEffect, Pos};
use crate::constants::{
    least, millis, ms, CRUSH_ASCEND_MS, CRUSH_FLASH_MS, DEBUG_UNIFY_COLORS_RANGE_ROWS, INVULNERABILITY_TICKS,
    NANOS_PER_MS, OXYGEN_MAX, STAR_VISIBLE_RANGE_ROWS,
};
use crate::dice::Dice;
use crate::effects::{
    clear_above, cleared_above, paint_rows, painted, push_up, pushed_up, starified, starify_rows, stretch,
    stretch_from, stretch_to,
};
use crate::flash::{add_flashes, flashes_with};
use crate::game::{Core, Game, GameEvent, GameOverChoice, GameStatus, MissCause, Tale, World};
use crate::gravity::shake_reset;
use crate::sweep::{haul, Sweep};
use crate::tuning::lemma_flash_range;

verus! {

impl World {
    /// Cells have vanished; their flash begins after `delay`.
    pub open spec fn noted(self, fresh: Seq<(Pos, Cell)>, delay: u64) -> World {
        World {
            vanished: flashes_with(self.vanished, fresh, delay, ms(self.flash_ms()) as u64),
            ..self
        }
    }

    /// The blocks above the player are gone.
    pub open spec fn above_cleared(self) -> World {
        if self.status != GameStatus::Playing {
            self
        } else {
            (World { grid: cleared_above(self.grid, self.player.row), ..self }).noted(
                haul(self.grid, Sweep::BlocksAbove { row: self.player.row }),
                0,
            )
        }
    }

    /// The colour blocks near the player have one of two random colours, and
    /// what still shook shakes anew.
    pub open spec fn unified(self) -> World {
        if self.status != GameStatus::Playing {
            self
        } else {
            let d = self.core.rng;
            let first = d.below_of(4);
            let offset = 1 + d.after_below(4).below_of(3);
            let k = DEBUG_UNIFY_COLORS_RANGE_ROWS as int;
            let (grid, rng) = painted(
                self.grid,
                d.after_below(4).after_below(3),
                nth_color(first as int),
                nth_color((first + offset) % 4),
                stretch_from(self.player.row as int, k),
                stretch_to(self.player.row as int, k, self.grid.len() as int),
            );
            World {
                grid,
                gravity: shake_reset(self.gravity, self.shake_count() as u16),
                core: Core { rng, ..self.core },
                ..self
            }
        }
    }

    /// The rocks and diamonds in view that do not shake are stars.
    pub open spec fn starred(self) -> World {
        if self.status != GameStatus::Playing {
            self
        } else {
            let k = STAR_VISIBLE_RANGE_ROWS as int;
            World {
                grid: starified(
                    self.grid,
                    self.gravity,
                    stretch_from(self.player.row as int, k),
                    stretch_to(self.player.row as int, k, self.grid.len() as int),
                ),
                ..self
            }
        }
    }

    /// So many blocks more to send to the opponent, if there is one.
    pub open spec fn armed(self, blocks: int) -> World {
        if self.core.attack_rules_enabled {
            self.with_core(
                Core {
                    attack_power_pending: least(
                        self.core.attack_power_pending + blocks,
                        u32::MAX as int,
                    ) as u32,
                    ..self.core
                },
            )
        } else {
            self
        }
    }
}

/// An item has done what it does.
pub open spec fn item_used(t: Tale, effect: ItemEffect) -> Tale {
    let w = match effect {
        ItemEffect::ClearAbove => t.0.above_cleared(),
        ItemEffect::UnifyColors => t.0.unified(),
        ItemEffect::StarifyScreen => t.0.starred(),
    };
    (w, t.1.push(GameEvent::ItemCollected(effect)))
}

/// What would have cost a life has not, and will not come up again at once: an
/// empty gauge is full again, and a block that fell on the player is gone.
pub open spec fn averted(t: Tale, cause: MissCause) -> Tale {
    let w = t.0.with_core(
        Core { misses_averted: least(t.0.core.misses_averted + 1, u32::MAX as int) as u32, ..t.0.core },
    );
    let p = w.player;
    let cell = w.grid[p.row as int][p.col as int];
    let after = match cause {
        MissCause::OxygenOut => World {
            player: crate::player::Player { oxygen: OXYGEN_MAX, ..p },
            ..w
        },
        MissCause::CrushedByFallingBlock => if cell is Empty {
            w
        } else {
            (World { grid: with_cell(w.grid, p.row as int, p.col as int, Cell::Empty), ..w }).noted(
                seq![((p.row, p.col), cell)],
                w.landing_delay(),
            )
        },
        MissCause::DrilledIntoFallingBlock => w,
        MissCause::BombBlast => w,
    };
    (after, t.1.push(GameEvent::MissAverted { cause }))
}

/// Something has cost a life, or would have. The life is gone only once the
/// player has risen to heaven.
pub open spec fn missed(t: Tale, cause: MissCause) -> Tale {
    if t.0.core.invincible {
        averted(t, cause)
    } else {
        (
            t.0.with_core(
                Core {
                    crush_flash_remaining: ms(CRUSH_FLASH_MS as int) as u64,
                    ascending_remaining: Some(ms(CRUSH_ASCEND_MS as int) as u64),
                    ..t.0.core
                },
            ),
            t.1.push(
                if t.0.player.lives <= 1 {
                    GameEvent::GameOverMiss { cause }
                } else {
                    GameEvent::LifeLost { cause }
                },
            ),
        )
    }
}

/// Every bomb has exploded.
pub open spec fn bombs_gone(t: Tale) -> Tale {
    (
        World { bombs: Seq::empty(), ..t.0 },
        t.1 + Seq::new(t.0.bombs.len(), |i: int| GameEvent::BombExploded),
    )
}

/// What a death does to the field.
pub open spec fn laid_to_rest(t: Tale) -> Tale {
    let (w, events) = bombs_gone((t.0.above_cleared(), t.1));
    (
        World { grid: pushed_up(w.grid, w.player.row as int, w.player.col as int), ..w },
        events,
    )
}

/// The player has come back, or the game is over if that was the last life.
pub open spec fn come_back(t: Tale) -> Tale {
    let w = World { player: t.0.player.life_lost(), ..t.0 };
    if w.player.lives == 0 {
        (
            World {
                status: GameStatus::GameOver,
                core: Core { game_over_selection: GameOverChoice::BackToTitle, ..w.core },
                ..w
            },
            t.1,
        )
    } else {
        (
            w.with_core(Core { invulnerability_ticks_remaining: INVULNERABILITY_TICKS, ..w.core }),
            t.1.push(GameEvent::Revived),
        )
    }
}

/// The player has been rising to heaven for so much longer. Once they are
/// there, the block that crushed them and the blocks above are gone, a life is
/// lost, and they come back.
pub open spec fn risen(t: Tale, delta: u64) -> Tale {
    match t.0.core.ascending_remaining {
        None => t,
        Some(remaining) => if remaining > delta {
            (
                t.0.with_core(
                    Core { ascending_remaining: Some((remaining - delta) as u64), ..t.0.core },
                ),
                t.1,
            )
        } else {
            let w = World {
                grid: with_cell(t.0.grid, t.0.player.row as int, t.0.player.col as int, Cell::Empty),
                core: Core { ascending_remaining: None, ..t.0.core },
                ..t.0
            };
            come_back(laid_to_rest((w, t.1)))
        },
    }
}

impl Game {
    /// Records cells that have vanished; their flash begins after `delay`.
    pub fn note_vanished_cells(&mut self, cells: &Vec<(Pos, Cell)>, delay: u64)
        requires
            old(self).wf(),
            delay + ms(old(self)@.flash_ms()) <= u64::MAX,
        ensures
            final(self).wf(),
            final(self)@ == old(self)@.noted(cells@, delay),
    {
        let total: u64 = millis(self.vanish_flash_duration_ms());
        self.recently_vanished = add_flashes(&self.recently_vanished, cells, delay, total);
    }

    /// Clears away the blocks above the player, while the game is on. Capsules
    /// and items stay; those above the screen wait just off it.
    pub fn debug_clear_above_player(&mut self)
        requires
            old(self).wf(),
        ensures
            final(self).wf(),
            final(self)@ == old(self)@.above_cleared(),
    {
        if self.status != GameStatus::Playing {
            return;
        }
        let gone: Vec<(Pos, Cell)> = clear_above(&mut self.board, self.player.row);
        proof {
            lemma_flash_range(self@);
        }
        self.note_vanished_cells(&gone, 0);
    }

    /// Paints the colour blocks near the player in two random colours, while
    /// the game is on. Nothing happens that would have to be told.
    pub fn debug_unify_nearby_colors(&mut self) -> (events: Vec<GameEvent>)
        requires
            old(self).wf(),
        ensures
            final(self).wf(),
            final(self)@ == old(self)@.unified(),
            events@ == Seq::<GameEvent>::empty(),
    {
        if self.status != GameStatus::Playing {
            return Vec::new();
        }
        let ghost before = self@;
        let mut dice: Dice = self.core.rng;
        let first: usize = dice.below(4);
        let offset: usize = 1 + dice.below(3);
        let n: usize = self.board.depth_rows();
        let (from, to): (usize, usize) = stretch(self.player.row, DEBUG_UNIFY_COLORS_RANGE_ROWS, n);
        let ticks: u8 = self.shake_ticks();
        paint_rows(
            &mut self.board,
            &mut dice,
            ColorKind::nth(first),
            ColorKind::nth((first + offset) % 4),
            from,
            to,
        );
        self.core.rng = dice;
        self.gravity_state.reset_shake_progress(ticks);
        assert(self@ =~= before.unified());
        Vec::new()
    }

    /// Turns the rocks and diamonds in view that do not shake into stars, while
    /// the game is on.
    pub fn debug_starify_visible_screen(&mut self)
        requires
            old(self).wf(),
        ensures
            final(self).wf(),
            final(self)@ == old(self)@.starred(),
    {
        if self.status != GameStatus::Playing {
            return;
        }
        let n: usize = self.board.depth_rows();
        let (from, to): (usize, usize) = stretch(self.player.row, STAR_VISIBLE_RANGE_ROWS, n);
        starify_rows(&mut self.board, &self.gravity_state, from, to);
    }

    /// Does what an item does.
    pub(crate) fn apply_item_effect(&mut self, effect: ItemEffect, events: &mut Vec<GameEvent>)
        requires
            old(self).wf(),
        ensures
            final(self).wf(),
            (final(self)@, final(events)@) == item_used((old(self)@, old(events)@), effect),
    {
        match effect {
            ItemEffect::ClearAbove => self.debug_clear_above_player(),
            ItemEffect::UnifyColors => {
                let none: Vec<GameEvent> = self.debug_unify_nearby_colors();
            },
            ItemEffect::StarifyScreen => self.debug_starify_visible_screen(),
        }
        events.push(GameEvent::ItemCollected(effect));
    }

    /// Counts blocks that are to be sent to the opponent, if there is one.
    pub(crate) fn add_attack_power(&mut self, blocks: usize)
        requires
            old(self).wf(),
        ensures
            final(self).wf(),
            final(self)@ == old(self)@.armed(blocks as int),
    {
        if self.core.attack_rules_enabled {
            let room: u32 = u32::MAX - self.core.attack_power_pending;
            if blocks >= room as usize {
                self.core.attack_power_pending = u32::MAX;
            } else {
                self.core.attack_power_pending = self.core.attack_power_pending + blocks as u32;
            }
        }
    }

    /// Records what would have cost a life if the player were not invincible,
    /// and sees to it that it does not come up again at once.
    fn avert_miss(&mut self, cause: MissCause, events: &mut Vec<GameEvent>)
        requires
            old(self).wf(),
        ensures
            final(self).wf(),
            (final(self)@, final(events)@) == averted((old(self)@, old(events)@), cause),
    {
        if self.core.misses_averted < u32::MAX {
            self.core.misses_averted = self.core.misses_averted + 1;
        }
        match cause {
            MissCause::OxygenOut => {
                self.player.oxygen = OXYGEN_MAX;
            },
            MissCause::CrushedByFallingBlock => {
                let pos: Pos = self.player.position();
                let cell: Cell = self.board.cell(pos.0, pos.1);
                if cell != Cell::Empty {
                    let delay: u64 = self.gravity_vanish_delay();
                    self.board.set(pos.0, pos.1, Cell::Empty);
                    let mut gone: Vec<(Pos, Cell)> = Vec::new();
                    gone.push((pos, cell));
                    assert(gone@ =~= seq![(pos, cell)]);
                    proof {
                        lemma_flash_range(self@);
                    }
                    self.note_vanished_cells(&gone, delay);
                }
            },
            MissCause::DrilledIntoFallingBlock | MissCause::BombBlast => {},
        }
        events.push(GameEvent::MissAverted { cause });
    }

    /// Handles what costs a life. The life is lost only once the player has
    /// risen to heaven, and not at all if they are invincible.
    pub(crate) fn apply_miss(&mut self, cause: MissCause, events: &mut Vec<GameEvent>)
        requires
            old(self).wf(),
        ensures
            final(self).wf(),
            (final(self)@, final(events)@) == missed((old(self)@, old(events)@), cause),
    {
        if self.core.invincible {
            self.avert_miss(cause, events);
            return;
        }
        self.core.crush_flash_remaining = CRUSH_FLASH_MS * NANOS_PER_MS;
        if self.player.lives <= 1 {
            events.push(GameEvent::GameOverMiss { cause });
        } else {
            events.push(GameEvent::LifeLost { cause });
        }
        self.core.ascending_remaining = Some(CRUSH_ASCEND_MS * NANOS_PER_MS);
    }

    /// Lets every bomb on the field explode at once.
    fn detonate_all_bombs_immediately(&mut self, events: &mut Vec<GameEvent>)
        requires
            old(self).wf(),
        ensures
            final(self).wf(),
            (final(self)@, final(events)@) == bombs_gone((old(self)@, old(events)@)),
    {
        let n: usize = self.bombs.len();
        let ghost before = events@;
        let mut i: usize = 0;
        while i < n
            invariant
                i <= n,
                events@ =~= before + Seq::new(i as nat, |k: int| GameEvent::BombExploded),
            decreases n - i,
        {
            events.push(GameEvent::BombExploded);
            i = i + 1;
        }
        self.bombs = Vec::new();
    }

    /// Does to the field what a death does.
    fn resolve_death_board_effects(&mut self, events: &mut Vec<GameEvent>)
        requires
            old(self).wf(),
        ensures
            final(self).wf(),
            (final(self)@, final(events)@) == laid_to_rest((old(self)@, old(events)@)),
    {
        self.debug_clear_above_player();
        self.detonate_all_bombs_immediately(events);
        self.resolve_block_player_overlap();
    }

    /// Pushes a block that lies in the player's cell up into the next free one.
    pub fn resolve_block_player_overlap(&mut self)
        requires
            old(self).wf(),
        ensures
            final(self).wf(),
            final(self)@ == (World {
                grid: pushed_up(
                    old(self)@.grid,
                    old(self).player.row as int,
                    old(self).player.col as int,
                ),
                ..old(self)@
            }),
    {
        push_up(&mut self.board, self.player.row, self.player.col);
    }

    /// Lets the player rise to heaven for so much longer.
    pub(crate) fn tick_ascending(&mut self, delta: u64, events: &mut Vec<GameEvent>)
        requires
            old(self).wf(),
        ensures
            final(self).wf(),
            (final(self)@, final(events)@) == risen((old(self)@, old(events)@), delta),
    {
        match self.core.ascending_remaining {
            None => {},
            Some(remaining) => {
                if remaining > delta {
                    self.core.ascending_remaining = Some(remaining - delta);
                } else {
                    self.core.ascending_remaining = None;
                    self.board.set(self.player.row, self.player.col, Cell::Empty);
                    self.resolve_death_board_effects(events);
                    if self.player.lose_life() {
                        self.status = GameStatus::GameOver;
                        self.core.game_over_selection = GameOverChoice::BackToTitle;
                    } else {
                        self.core.invulnerability_ticks_remaining = INVULNERABILITY_TICKS;
                        events.push(GameEvent::Revived);
                    }
                }
            },
        }
    }
}

} // verus!
