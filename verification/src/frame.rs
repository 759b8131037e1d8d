//! One frame: what the passing of time does to a game.
use vstd::prelude::*;

use crate::board::{copy_list, BlockMove, Cell, ItemEffect, Pos};
use crate::bombs::{bomb_rests_at, resting_places};
use crate::constants::{
    least, millis, minus, ms, plus64, scaled_depth, DODGE_SLIDE_MS, FIELD_DEPTH_M, INPUT_COOLDOWN_ACCUM_CAP_MS,
    NANOS_PER_MS, NANOS_PER_SEC, OXYGEN_DECAY_DEPTH_MAX_PERCENT, OXYGEN_DECAY_PER_SEC,
    OXYGEN_WARNING_THRESHOLD,
};
use crate::effects::{ripe_stars, stars_watched, tick_star_melting};
use crate::fall::{
    blocks_moved, cells_vanished, colors_among, field_after, loose_after, onto_player, pull_of, rocks_among, Pull,
};
use crate::flash::{blazes_after, flashes_after, run_blazes, run_flashes, subtract};
use crate::game::{move_accum_cap, Core, DodgeStage, Game, GameEvent, GameStatus, MissCause, Tale, World};
use crate::groups::cleared;
use crate::journey::{checked, descended, goal_checked, levelled};
use crate::mishaps::{item_used, missed, risen};
use crate::physics::{
    apply_oxygen_decay, apply_player_free_fall, crushes_player, free_fallen, player_pulled,
    process_gravity_tick, result_tells, Fell, FreeFallOutcome, GravityTickResult,
};
use crate::player::Player;
use crate::sweep::{haul, swept};
use crate::tuning::lemma_flash_range;

verus! {

/// A timer that adds up time, up to the largest that can be counted.
fn add_time(a: u64, b: u64) -> (r: u64)
    ensures
        r == plus64(a as int, b as int),
{
    if b > u64::MAX - a {
        u64::MAX
    } else {
        a + b
    }
}

/// A timer that adds up time, up to a cap.
fn add_time_up_to(a: u64, b: u64, cap: u64) -> (r: u64)
    ensures
        r == least(a + b, cap as int),
{
    if a >= cap || b >= cap - a {
        cap
    } else {
        a + b
    }
}

/// Time as the air gauge feels it at a depth: the deeper, the faster.
pub open spec fn felt_time(delta: int, depth_m: int) -> int {
    delta * (100 * FIELD_DEPTH_M + scaled_depth(depth_m) * (OXYGEN_DECAY_DEPTH_MAX_PERCENT - 100)) / (100
        * FIELD_DEPTH_M)
}

impl World {
    /// What is only to be seen has gone on, whatever the state of the game.
    pub open spec fn shown_on(self, delta: u64) -> World {
        World {
            vanished: flashes_after(self.vanished, delta),
            exploded: blazes_after(self.exploded, delta),
            core: Core {
                frame_counter: (self.core.frame_counter + 1) as u64,
                crush_flash_remaining: minus(self.core.crush_flash_remaining as int, delta as int) as u64,
                checkpoint_flash_remaining: minus(
                    self.core.checkpoint_flash_remaining as int,
                    delta as int,
                ) as u64,
                render_anim_elapsed: plus64(self.core.render_anim_elapsed as int, delta as int) as u64,
                ..self.core
            },
            ..self
        }
    }

    /// Once the game is over, the blocks that were falling still arrive.
    pub open spec fn settled_on(self, delta: u64) -> World {
        if self.status == GameStatus::GameOver {
            self.with_core(
                Core {
                    fall_tick_accum: least(
                        self.core.fall_tick_accum + delta,
                        ms(self.tick_ms()),
                    ) as u64,
                    ..self.core
                },
            )
        } else {
            self
        }
    }

    /// The slide after a narrow escape has gone on.
    pub open spec fn slid_on(self, delta: u64) -> World {
        let left = minus(self.core.dodge_stage_remaining as int, delta as int) as u64;
        match self.core.dodge_stage {
            DodgeStage::Idle => self,
            DodgeStage::Sliding => if left == 0 {
                self.with_core(
                    Core {
                        dodge_stage: DodgeStage::Recovering,
                        dodge_stage_remaining: ms(self.core.dodge_recovery_ms as int) as u64,
                        ..self.core
                    },
                )
            } else {
                self.with_core(Core { dodge_stage_remaining: left, ..self.core })
            },
            DodgeStage::Recovering => if left == 0 {
                self.with_core(Core { dodge_stage: DodgeStage::Idle, ..self.core })
            } else {
                self.with_core(Core { dodge_stage_remaining: left, ..self.core })
            },
        }
    }

    /// The watch over the cell that the player fled from has gone on.
    pub open spec fn watched_on(self, delta: u64) -> World {
        if self.core.dodge_watch_cell is None {
            self
        } else {
            let left = minus(self.core.dodge_watch_remaining as int, delta as int) as u64;
            self.with_core(
                Core {
                    dodge_watch_remaining: left,
                    dodge_watch_cell: if left == 0 {
                        None
                    } else {
                        self.core.dodge_watch_cell
                    },
                    ..self.core
                },
            )
        }
    }

    /// The player has lived on: time is saved up for input, and air is used.
    pub open spec fn lived_on(self, delta: u64) -> World {
        World {
            player: (Player {
                elapsed_nanos: plus64(self.player.elapsed_nanos as int, delta as int) as u64,
                ..self.player
            }).drained(OXYGEN_DECAY_PER_SEC * felt_time(delta as int, self.player.row + 1)),
            core: Core {
                move_cooldown_accum: least(
                    self.core.move_cooldown_accum + delta,
                    move_accum_cap(self.core),
                ) as u64,
                drill_cooldown_accum: least(
                    self.core.drill_cooldown_accum + delta,
                    ms(INPUT_COOLDOWN_ACCUM_CAP_MS as int),
                ) as u64,
                drill_flash_remaining: minus(self.core.drill_flash_remaining as int, delta as int) as u64,
                ..self.core
            },
            ..self
        }
    }
}

/// While the air is low but not out, a warning is told once a second.
pub open spec fn air_warned(t: Tale, delta: u64) -> Tale {
    let c = t.0.core;
    if 0 < t.0.player.oxygen <= OXYGEN_WARNING_THRESHOLD {
        let accum = plus64(c.oxygen_warning_accum as int, delta as int);
        if accum >= NANOS_PER_SEC {
            (
                t.0.with_core(Core { oxygen_warning_accum: (accum - NANOS_PER_SEC) as u64, ..c }),
                t.1.push(GameEvent::OxygenWarningTick),
            )
        } else {
            (t.0.with_core(Core { oxygen_warning_accum: accum as u64, ..c }), t.1)
        }
    } else {
        (t.0.with_core(Core { oxygen_warning_accum: 0, ..c }), t.1)
    }
}

/// A player who lives and is out of air loses a life.
pub open spec fn suffocated(t: Tale) -> Tale {
    if !t.0.dying() && t.0.player.oxygen == 0 {
        missed(t, MissCause::OxygenOut)
    } else {
        t
    }
}

impl World {
    /// What a tick of gravity looks at.
    pub open spec fn pull(self) -> Pull {
        pull_of(self.here(), resting_places(self.bombs), self.gravity, self.shake_count())
    }

    /// The player cannot be crushed.
    pub open spec fn safe(self) -> bool {
        self.core.invulnerability_ticks_remaining > 0 || self.dying()
    }

    /// A block lands where the player has just been.
    pub open spec fn narrow_escape(self) -> bool {
        let pull = self.pull();
        &&& !crushes_player(self.grid, pull, self.safe())
        &&& !self.dying()
        &&& self.core.dodge_stage == DodgeStage::Idle
        &&& self.core.dodge_watch_cell matches Some(cell) && cell != self.here() && lands_at(
            blocks_moved(self.grid, pull),
            cell,
        )
    }

    /// Field, gravity, player and safety after a tick of gravity.
    pub open spec fn pulled(self) -> World {
        let pull = self.pull();
        World {
            grid: field_after(self.grid, pull),
            gravity: loose_after(self.grid, pull),
            player: player_pulled(self.grid, pull, self.player),
            moves: blocks_moved(self.grid, pull),
            core: Core {
                invulnerability_ticks_remaining: minus(
                    self.core.invulnerability_ticks_remaining as int,
                    1,
                ) as u32,
                ..self.core
            },
            ..self
        }
    }

    /// The player slides.
    pub open spec fn sliding(self) -> World {
        self.with_core(
            Core {
                dodge_stage: DodgeStage::Sliding,
                dodge_stage_remaining: ms(DODGE_SLIDE_MS as int) as u64,
                dodge_watch_cell: None,
                ..self.core
            },
        )
    }
}

/// One of the blocks has moved to `cell`.
pub open spec fn lands_at(moves: Seq<BlockMove>, cell: Pos) -> bool {
    exists|i: int| 0 <= i < moves.len() && (#[trigger] moves[i]).0 == cell
}

/// What fell on the player is taken, told and used.
pub open spec fn catch_told(t: Tale, caught: Option<Cell>) -> Tale {
    match caught {
        Some(Cell::Oxygen) => (t.0, t.1.push(GameEvent::OxygenCollected)),
        Some(Cell::Item(effect)) => item_used(t, effect),
        _ => t,
    }
}

/// Blocks that vanished by themselves are told, and count for the attack.
pub open spec fn vanish_told(t: Tale, colors: int, rocks: int) -> Tale {
    let first = if colors > 0 {
        (t.0.armed(colors), t.1.push(GameEvent::BlockDestroyed { blocks: colors as usize }))
    } else {
        t
    };
    if rocks > 0 {
        (first.0.armed(rocks), first.1.push(GameEvent::RockDestroyed { blocks: rocks as usize }))
    } else {
        first
    }
}

/// Gravity rests after blocks have vanished, if the settings say so.
pub open spec fn chained(w: World, vanished: bool) -> World {
    if vanished && w.core.chain_vanish_interval_ms > 0 {
        w.with_core(
            Core { chain_pause_remaining: ms(w.core.chain_vanish_interval_ms as int) as u64, ..w.core },
        )
    } else {
        w
    }
}

/// The blocks are pulled down one tick, and a narrow escape is told.
pub open spec fn escape_told(t: Tale) -> Tale {
    if t.0.narrow_escape() {
        (t.0.pulled().sliding(), t.1.push(GameEvent::DodgeTriggered))
    } else {
        (t.0.pulled(), t.1)
    }
}

/// One tick of gravity.
pub open spec fn tick_told(t: Tale) -> Tale {
    let w = t.0;
    let pull = w.pull();
    let gone = cells_vanished(w.grid, pull);
    let colors = colors_among(gone) as int;
    let rocks = rocks_among(gone) as int;
    let told = vanish_told(catch_told(escape_told(t), onto_player(w.grid, pull)), colors, rocks);
    let delay = told.0.landing_delay();
    let after = chained(told.0.noted(gone, delay).gaps_swept(delay), colors > 0 || rocks > 0);
    if crushes_player(w.grid, pull, w.safe()) {
        missed((after, told.1), MissCause::CrushedByFallingBlock)
    } else {
        (after, told.1)
    }
}

/// A tick of gravity is due: it takes place, unless gravity rests.
pub open spec fn tick_due(t: Tale, tick: int) -> Tale {
    let w = t.0.with_core(
        Core { fall_tick_accum: (t.0.core.fall_tick_accum - tick) as u64, ..t.0.core },
    );
    if w.core.chain_pause_remaining > 0 {
        (
            World {
                moves: Seq::empty(),
                core: Core {
                    chain_pause_remaining: minus(w.core.chain_pause_remaining as int, tick) as u64,
                    ..w.core
                },
                ..w
            },
            t.1,
        )
    } else {
        tick_told((w, t.1))
    }
}

/// `n` ticks of gravity are due.
pub open spec fn ticks_due(t: Tale, tick: int, n: nat) -> Tale
    decreases n,
{
    if n == 0 {
        t
    } else {
        ticks_due(tick_due(t, tick), tick, (n - 1) as nat)
    }
}

/// Gravity has gone on.
pub open spec fn gravity_ran(t: Tale, delta: u64) -> Tale {
    let tick = ms(t.0.tick_ms());
    let accum = plus64(t.0.core.fall_tick_accum as int, delta as int);
    let w = t.0.with_core(Core { fall_tick_accum: accum as u64, ..t.0.core });
    ticks_due((w, t.1), tick, (accum / tick) as nat)
}

/// The stars in view have aged, and those that were in view for too long have
/// melted.
pub open spec fn stars_melted(t: Tale, delta: u64) -> Tale {
    let row = t.0.player.row as int;
    let g = stars_watched(t.0.grid, row, (delta / NANOS_PER_MS) as u32);
    let gone = haul(g, ripe_stars(g, row));
    let w = World { grid: cleared(g, swept(g, ripe_stars(g, row))), ..t.0 };
    if gone.len() > 0 {
        (w.noted(gone, 0), t.1.push(GameEvent::BlockDestroyed { blocks: gone.len() as usize }))
    } else {
        (w, t.1)
    }
}

/// What the player took in free fall is told and used.
pub open spec fn drop_told(t: Tale, outcome: FreeFallOutcome) -> Tale {
    match outcome {
        FreeFallOutcome::FellAndCollectedOxygen => (t.0, t.1.push(GameEvent::OxygenCollected)),
        FreeFallOutcome::FellAndCollectedItem(effect) => item_used(t, effect),
        _ => t,
    }
}

impl World {
    /// What free fall does to field and player. A bomb below holds the player
    /// up.
    pub open spec fn drop_outcome(self) -> Fell {
        if bomb_rests_at(self.bombs, (self.player.row + 1, self.player.col as int)) {
            Fell { grid: self.grid, player: self.player, outcome: FreeFallOutcome::DidNotFall }
        } else {
            free_fallen(self.grid, self.player)
        }
    }

    /// The player has fallen one row if nothing holds them up.
    pub open spec fn dropped(self) -> World {
        let tick = ms(self.core.player_fall_tick_ms as int);
        let fell = self.drop_outcome();
        (World {
            grid: fell.grid,
            player: fell.player,
            core: Core {
                player_fall_tick_accum: (self.core.player_fall_tick_accum - tick) as u64,
                ..self.core
            },
            ..self
        }).moved_from(self.here(), tick as u64)
    }
}

/// A tick of free fall is due.
pub open spec fn drop_due(t: Tale) -> Tale {
    let told = drop_told((t.0.dropped(), t.1), t.0.drop_outcome().outcome);
    if t.0.dropped().player.row != t.0.player.row {
        descended(told)
    } else {
        told
    }
}

/// Taking something in free fall does not change the clock of the fall.
proof fn lemma_drop_keeps(t: Tale, outcome: FreeFallOutcome)
    ensures
        drop_told(t, outcome).0.core.player_fall_tick_ms == t.0.core.player_fall_tick_ms,
        drop_told(t, outcome).0.core.player_fall_tick_accum == t.0.core.player_fall_tick_accum,
{
}

/// Nor does reaching a level, a checkpoint or the goal.
proof fn lemma_descent_keeps(t: Tale)
    ensures
        descended(t).0.core.player_fall_tick_ms == t.0.core.player_fall_tick_ms,
        descended(t).0.core.player_fall_tick_accum == t.0.core.player_fall_tick_accum,
{
    let a = levelled(t);
    let b = checked(a);
    let c = goal_checked(b);
    assert(a.0.core.player_fall_tick_accum == t.0.core.player_fall_tick_accum);
    assert(b.0.core.player_fall_tick_accum == a.0.core.player_fall_tick_accum);
    assert(c.0.core.player_fall_tick_accum == b.0.core.player_fall_tick_accum);
}

/// `n` ticks of free fall are due; the goal ends the fall.
pub open spec fn drops_due(t: Tale, n: nat) -> Tale
    decreases n,
{
    if n == 0 || t.0.status != GameStatus::Playing {
        t
    } else {
        drops_due(drop_due(t), (n - 1) as nat)
    }
}

/// A player who lives has fallen on.
pub open spec fn player_fell(t: Tale, delta: u64) -> Tale {
    if t.0.dying() {
        t
    } else {
        let accum = plus64(t.0.core.player_fall_tick_accum as int, delta as int);
        let w = t.0.with_core(Core { player_fall_tick_accum: accum as u64, ..t.0.core });
        drops_due((w, t.1), (accum / ms(t.0.core.player_fall_tick_ms as int)) as nat)
    }
}

/// A player who has lived through the whole frame has used air, and has been
/// warned if there is little left.
pub open spec fn breathed_on(t: Tale, delta: u64, was_dying: bool) -> Tale {
    if was_dying {
        t
    } else {
        air_warned((t.0.lived_on(delta), t.1), delta)
    }
}

/// A frame goes on after its beginning: the game was on, and the player has not
/// just lost the last life.
pub open spec fn goes_on(w: World, delta: u64) -> bool {
    let shown = w.shown_on(delta);
    shown.status == GameStatus::Playing && risen((shown, Seq::empty()), delta).0.status
        == GameStatus::Playing
}

/// The beginning of a frame: all but the free fall of the player.
pub open spec fn frame_begun(w: World, delta: u64) -> Tale {
    let shown = w.shown_on(delta);
    if shown.status != GameStatus::Playing {
        (shown.settled_on(delta), Seq::empty())
    } else {
        let rose = risen((shown, Seq::empty()), delta);
        if rose.0.status != GameStatus::Playing {
            rose
        } else {
            let awake = (rose.0.slid_on(delta).watched_on(delta), rose.1);
            stars_melted(
                gravity_ran(suffocated(breathed_on(awake, delta, shown.dying())), delta),
                delta,
            )
        }
    }
}

/// What the passing of `delta` does, if nothing comes between the two parts of
/// the frame.
pub open spec fn framed(w: World, delta: u64) -> Tale {
    if goes_on(w, delta) {
        player_fell(frame_begun(w, delta), delta)
    } else {
        frame_begun(w, delta)
    }
}

/// The beginning of a frame.
#[derive(Debug)]
pub struct FrameStart {
    /// What has happened so far.
    pub events: Vec<GameEvent>,
    /// Whether the frame goes on: bombs are due, then announced rocks, then the
    /// free fall. Otherwise the frame is over.
    pub goes_on: bool,
    /// Whether the player was rising to heaven when the frame began.
    pub was_dying: bool,
    /// Whether announced rocks are due in this frame.
    pub rocks_due: bool,
}

impl Game {
    /// Lets what is only to be seen go on.
    fn run_display(&mut self, delta: u64)
        requires
            old(self).wf(),
            old(self).core.frame_counter < u64::MAX,
        ensures
            final(self).wf(),
            final(self)@ == old(self)@.shown_on(delta),
    {
        self.core.frame_counter = self.core.frame_counter + 1;
        self.core.crush_flash_remaining = subtract(self.core.crush_flash_remaining, delta);
        self.core.checkpoint_flash_remaining = subtract(self.core.checkpoint_flash_remaining, delta);
        self.core.render_anim_elapsed = add_time(self.core.render_anim_elapsed, delta);
        self.recently_vanished = run_flashes(&self.recently_vanished, delta);
        self.recently_exploded = run_blazes(&self.recently_exploded, delta);
    }

    /// Lets the slide after a narrow escape go on.
    fn tick_dodge(&mut self, delta: u64)
        requires
            old(self).wf(),
        ensures
            final(self).wf(),
            final(self)@ == old(self)@.slid_on(delta),
    {
        let left: u64 = subtract(self.core.dodge_stage_remaining, delta);
        match self.core.dodge_stage {
            DodgeStage::Idle => {},
            DodgeStage::Sliding => {
                if left == 0 {
                    self.core.dodge_stage = DodgeStage::Recovering;
                    self.core.dodge_stage_remaining = millis(self.core.dodge_recovery_ms);
                } else {
                    self.core.dodge_stage_remaining = left;
                }
            },
            DodgeStage::Recovering => {
                if left == 0 {
                    self.core.dodge_stage = DodgeStage::Idle;
                } else {
                    self.core.dodge_stage_remaining = left;
                }
            },
        }
    }

    /// Lets the watch over the cell that the player fled from go on.
    fn tick_watch(&mut self, delta: u64)
        requires
            old(self).wf(),
        ensures
            final(self).wf(),
            final(self)@ == old(self)@.watched_on(delta),
    {
        if self.core.dodge_watch_cell.is_some() {
            self.core.dodge_watch_remaining = subtract(self.core.dodge_watch_remaining, delta);
            if self.core.dodge_watch_remaining == 0 {
                self.core.dodge_watch_cell = None;
            }
        }
    }

    /// Lets the player live on, and warns them if the air is low.
    fn live_on(&mut self, delta: u64, events: &mut Vec<GameEvent>)
        requires
            old(self).wf(),
        ensures
            final(self).wf(),
            (final(self)@, final(events)@) == air_warned(
                (old(self)@.lived_on(delta), old(events)@),
                delta,
            ),
    {
        let ghost before = self@;
        self.player.elapsed_nanos = add_time(self.player.elapsed_nanos, delta);
        let cap: u64 = millis(self.core.move_cooldown_ms + self.core.move_cooldown_ms / 2);
        self.core.move_cooldown_accum = add_time_up_to(self.core.move_cooldown_accum, delta, cap);
        self.core.drill_cooldown_accum =
        add_time_up_to(self.core.drill_cooldown_accum, delta, INPUT_COOLDOWN_ACCUM_CAP_MS * NANOS_PER_MS);
        self.core.drill_flash_remaining = subtract(self.core.drill_flash_remaining, delta);
        let depth: usize = self.player.row + 1;
        let felt: u64 = feel_time(delta, depth);
        proof {
            let p = self.player;
            let want = felt_time(delta as int, depth as int);
            assert(p.drained(OXYGEN_DECAY_PER_SEC * felt) == p.drained(OXYGEN_DECAY_PER_SEC * want));
        }
        apply_oxygen_decay(&mut self.player, felt);
        assert(self@ =~= before.lived_on(delta));
        if self.player.oxygen > 0 && self.player.oxygen <= OXYGEN_WARNING_THRESHOLD {
            self.core.oxygen_warning_accum = add_time(self.core.oxygen_warning_accum, delta);
            if self.core.oxygen_warning_accum >= NANOS_PER_SEC {
                self.core.oxygen_warning_accum = self.core.oxygen_warning_accum - NANOS_PER_SEC;
                events.push(GameEvent::OxygenWarningTick);
            }
        } else {
            self.core.oxygen_warning_accum = 0;
        }
    }

    /// Whether one of the blocks has moved to `cell`.
    fn any_lands_at(moves: &Vec<BlockMove>, cell: Pos) -> (r: bool)
        ensures
            r == lands_at(moves@, cell),
    {
        let mut i: usize = 0;
        while i < moves.len()
            invariant
                i <= moves@.len(),
                forall|k: int| 0 <= k < i ==> (#[trigger] moves@[k]).0 != cell,
            decreases moves@.len() - i,
        {
            let to: Pos = moves[i].0;
            if to.0 == cell.0 && to.1 == cell.1 {
                return true;
            }
            i = i + 1;
        }
        false
    }

    /// Pulls the blocks down one tick, and starts the slide of a narrow escape.
    fn pull_blocks(&mut self, events: &mut Vec<GameEvent>) -> (result: GravityTickResult)
        requires
            old(self).wf(),
        ensures
            final(self).wf(),
            (final(self)@, final(events)@) == escape_told((old(self)@, old(events)@)),
            result_tells(result, old(self)@.grid, old(self)@.pull(), old(self)@.safe()),
    {
        let ghost w = self@;
        let ghost pull = w.pull();
        let invulnerable: bool = self.core.invulnerability_ticks_remaining > 0 || self.is_dying();
        let shake: u8 = self.shake_ticks();
        let solid: Vec<Pos> = self.settled_bomb_positions();
        let result: GravityTickResult = process_gravity_tick(
            &mut self.board,
            &mut self.player,
            &solid,
            &mut self.gravity_state,
            invulnerable,
            shake,
        );
        if self.core.invulnerability_ticks_remaining > 0 {
            self.core.invulnerability_ticks_remaining = self.core.invulnerability_ticks_remaining - 1;
        }
        let here: Pos = self.player.position();
        let mut escaped: bool = false;
        if !result.life_lost_to_crush && !self.is_dying() && self.core.dodge_stage == DodgeStage::Idle {
            if let Some(cell) = self.core.dodge_watch_cell {
                let elsewhere: bool = cell.0 != here.0 || cell.1 != here.1;
                escaped = elsewhere && Game::any_lands_at(&result.moved_cells, cell);
            }
        }
        assert(escaped == w.narrow_escape());
        if escaped {
            self.core.dodge_stage = DodgeStage::Sliding;
            self.core.dodge_stage_remaining = DODGE_SLIDE_MS * NANOS_PER_MS;
            self.core.dodge_watch_cell = None;
            events.push(GameEvent::DodgeTriggered);
        }
        self.last_block_moves = copy_list(&result.moved_cells);
        proof {
            assert(self@ =~= (if w.narrow_escape() {
                w.pulled().sliding()
            } else {
                w.pulled()
            }));
        }
        result
    }

    /// Tells and uses what fell on the player.
    fn take_catch(
        &mut self,
        oxygen: usize,
        items: &Vec<ItemEffect>,
        events: &mut Vec<GameEvent>,
        Ghost(caught): Ghost<Option<Cell>>,
    )
        requires
            old(self).wf(),
            oxygen == (if caught == Some(Cell::Oxygen) { 1int } else { 0 }),
            items@ == (match caught {
                Some(Cell::Item(effect)) => seq![effect],
                _ => Seq::<ItemEffect>::empty(),
            }),
        ensures
            final(self).wf(),
            (final(self)@, final(events)@) == catch_told((old(self)@, old(events)@), caught),
            final(self).core.fall_tick_accum == old(self).core.fall_tick_accum,
    {
        if oxygen > 0 {
            events.push(GameEvent::OxygenCollected);
        }
        if items.len() > 0 {
            self.apply_item_effect(items[0], events);
        }
    }

    /// Tells the blocks that vanished by themselves.
    fn tell_vanished(&mut self, colors: usize, rocks: usize, events: &mut Vec<GameEvent>)
        requires
            old(self).wf(),
        ensures
            final(self).wf(),
            (final(self)@, final(events)@) == vanish_told(
                (old(self)@, old(events)@),
                colors as int,
                rocks as int,
            ),
            final(self).core.fall_tick_accum == old(self).core.fall_tick_accum,
    {
        if colors > 0 {
            events.push(GameEvent::BlockDestroyed { blocks: colors });
            self.add_attack_power(colors);
        }
        if rocks > 0 {
            events.push(GameEvent::RockDestroyed { blocks: rocks });
            self.add_attack_power(rocks);
        }
    }

    /// Runs one tick of gravity and everything that follows from it.
    fn gravity_tick(&mut self, events: &mut Vec<GameEvent>)
        requires
            old(self).wf(),
        ensures
            final(self).wf(),
            (final(self)@, final(events)@) == tick_told((old(self)@, old(events)@)),
            final(self).core.fall_tick_accum == old(self).core.fall_tick_accum,
    {
        let ghost w = self@;
        let result: GravityTickResult = self.pull_blocks(events);
        self.take_catch(
            result.oxygen_collected,
            &result.items_collected,
            events,
            Ghost(onto_player(w.grid, w.pull())),
        );
        self.tell_vanished(result.auto_vanished_blocks, result.auto_vanished_rock_blocks, events);
        let delay: u64 = self.gravity_vanish_delay();
        proof {
            lemma_flash_range(self@);
        }
        self.note_vanished_cells(&result.vanished_cells, delay);
        self.purge_checkpoint_zone_debris(delay);
        if (result.auto_vanished_blocks > 0 || result.auto_vanished_rock_blocks > 0)
            && self.core.chain_vanish_interval_ms > 0 {
            self.core.chain_pause_remaining = millis(self.core.chain_vanish_interval_ms);
        }
        if result.life_lost_to_crush {
            self.apply_miss(MissCause::CrushedByFallingBlock, events);
        }
    }

    /// Runs the ticks of gravity that are due.
    fn run_gravity(&mut self, delta: u64, events: &mut Vec<GameEvent>)
        requires
            old(self).wf(),
        ensures
            final(self).wf(),
            (final(self)@, final(events)@) == gravity_ran((old(self)@, old(events)@), delta),
    {
        let tick: u64 = millis(self.effective_block_fall_tick_ms());
        self.core.fall_tick_accum = add_time(self.core.fall_tick_accum, delta);
        let ghost goal = gravity_ran((old(self)@, old(events)@), delta);
        let ghost mut n: nat = (self.core.fall_tick_accum as int / tick as int) as nat;
        proof {
            vstd::arithmetic::div_mod::lemma_fundamental_div_mod(
                self.core.fall_tick_accum as int,
                tick as int,
            );
            assert(n * tick == tick as int * n) by (nonlinear_arith);
        }
        while self.core.fall_tick_accum >= tick
            invariant
                self.wf(),
                tick > 0,
                n * tick <= self.core.fall_tick_accum < n * tick + tick,
                ticks_due((self@, events@), tick as int, n) == goal,
            decreases self.core.fall_tick_accum,
        {
            proof {
                if n == 0 {
                    assert(0 * tick == 0);
                }
                assert((n - 1) * tick == n * tick - tick) by (nonlinear_arith);
            }
            self.core.fall_tick_accum = self.core.fall_tick_accum - tick;
            if self.core.chain_pause_remaining > 0 {
                self.core.chain_pause_remaining = subtract(self.core.chain_pause_remaining, tick);
                self.last_block_moves = Vec::new();
            } else {
                self.gravity_tick(events);
            }
            proof {
                n = (n - 1) as nat;
            }
        }
        proof {
            if n > 0 {
                assert(n * tick >= tick) by (nonlinear_arith)
                    requires
                        n >= 1,
                        tick >= 0,
                ;
            }
        }
    }

    /// Lets the stars in view age and melt.
    fn melt_stars(&mut self, delta: u64, events: &mut Vec<GameEvent>)
        requires
            old(self).wf(),
        ensures
            final(self).wf(),
            (final(self)@, final(events)@) == stars_melted((old(self)@, old(events)@), delta),
    {
        let melted: Vec<(Pos, Cell)> = tick_star_melting(
            &mut self.board,
            self.player.row,
            (delta / NANOS_PER_MS) as u32,
        );
        if melted.len() > 0 {
            events.push(GameEvent::BlockDestroyed { blocks: melted.len() });
            proof {
                lemma_flash_range(self@);
            }
            self.note_vanished_cells(&melted, 0);
        }
    }

    /// Lets the player fall one row if nothing holds them up, and starts to
    /// draw that. Returns what they took.
    fn fall_one_row(&mut self) -> (outcome: FreeFallOutcome)
        requires
            old(self).wf(),
            old(self).core.player_fall_tick_accum >= ms(old(self).core.player_fall_tick_ms as int),
        ensures
            final(self).wf(),
            final(self)@ == old(self)@.dropped(),
            outcome == old(self)@.drop_outcome().outcome,
    {
        let ghost w = self@;
        let tick: u64 = millis(self.core.player_fall_tick_ms);
        self.core.player_fall_tick_accum = self.core.player_fall_tick_accum - tick;
        let before: Pos = self.player.position();
        let outcome: FreeFallOutcome = if self.settled_bomb_at(self.player.row + 1, self.player.col) {
            FreeFallOutcome::DidNotFall
        } else {
            apply_player_free_fall(&mut self.board, &mut self.player)
        };
        self.note_possible_move_with_duration(before, tick);
        assert(self@ =~= w.dropped());
        outcome
    }

    /// Runs one tick of free fall and everything that follows from it.
    fn drop_tick(&mut self, events: &mut Vec<GameEvent>)
        requires
            old(self).wf(),
            old(self).core.player_fall_tick_accum >= ms(old(self).core.player_fall_tick_ms as int),
        ensures
            final(self).wf(),
            (final(self)@, final(events)@) == drop_due((old(self)@, old(events)@)),
            final(self).core.player_fall_tick_ms == old(self).core.player_fall_tick_ms,
            final(self).core.player_fall_tick_accum == old(self).core.player_fall_tick_accum - ms(
                old(self).core.player_fall_tick_ms as int,
            ),
    {
        let row: usize = self.player.row;
        let outcome: FreeFallOutcome = self.fall_one_row();
        let fell: bool = self.player.row != row;
        let ghost t = (self@, events@);
        proof {
            lemma_drop_keeps(t, outcome);
        }
        if outcome == FreeFallOutcome::FellAndCollectedOxygen {
            events.push(GameEvent::OxygenCollected);
        }
        if let FreeFallOutcome::FellAndCollectedItem(effect) = outcome {
            self.apply_item_effect(effect, events);
        }
        assert((self@, events@) == drop_told(t, outcome));
        if fell {
            proof {
                lemma_descent_keeps(drop_told(t, outcome));
            }
            self.check_level_and_clear(events);
        }
    }

    /// Finishes a frame that goes on: runs the ticks of free fall that are due.
    pub fn finish_frame(&mut self, delta: u64, events: &mut Vec<GameEvent>)
        requires
            old(self).wf(),
        ensures
            final(self).wf(),
            (final(self)@, final(events)@) == player_fell((old(self)@, old(events)@), delta),
    {
        if self.is_dying() {
            return;
        }
        let tick: u64 = millis(self.core.player_fall_tick_ms);
        self.core.player_fall_tick_accum = add_time(self.core.player_fall_tick_accum, delta);
        let ghost goal = player_fell((old(self)@, old(events)@), delta);
        let ghost mut n: nat = (self.core.player_fall_tick_accum as int / tick as int) as nat;
        proof {
            vstd::arithmetic::div_mod::lemma_fundamental_div_mod(
                self.core.player_fall_tick_accum as int,
                tick as int,
            );
            assert(n * tick == tick as int * n) by (nonlinear_arith);
        }
        while self.core.player_fall_tick_accum >= tick && self.status == GameStatus::Playing
            invariant
                self.wf(),
                tick > 0,
                tick == ms(self.core.player_fall_tick_ms as int),
                n * tick <= self.core.player_fall_tick_accum < n * tick + tick,
                drops_due((self@, events@), n) == goal,
            decreases self.core.player_fall_tick_accum,
        {
            proof {
                if n == 0 {
                    assert(0 * tick == 0);
                }
                assert((n - 1) * tick == n * tick - tick) by (nonlinear_arith);
            }
            self.drop_tick(events);
            proof {
                n = (n - 1) as nat;
            }
        }
        proof {
            if n > 0 {
                assert(n * tick >= tick) by (nonlinear_arith)
                    requires
                        n >= 1,
                        tick >= 0,
                ;
            }
        }
    }

    /// Begins a frame: lets time pass for all but the free fall of the player.
    /// Whoever has bombs and attacks going runs them next, if the frame goes on,
    /// and then calls `finish_frame`.
    pub fn begin_frame(&mut self, delta: u64) -> (start: FrameStart)
        requires
            old(self).wf(),
            old(self).core.frame_counter < u64::MAX,
        ensures
            final(self).wf(),
            (final(self)@, start.events@) == frame_begun(old(self)@, delta),
            start.goes_on == goes_on(old(self)@, delta),
            start.was_dying == old(self)@.dying(),
            start.rocks_due == (start.goes_on && !start.was_dying && old(self).core.attack_rules_enabled),
    {
        let attacks: bool = self.core.attack_rules_enabled;
        let was_dying: bool = self.is_dying();
        let mut events: Vec<GameEvent> = Vec::new();
        self.run_display(delta);
        if self.status != GameStatus::Playing {
            if self.status == GameStatus::GameOver {
                let tick: u64 = millis(self.effective_block_fall_tick_ms());
                self.core.fall_tick_accum = add_time_up_to(self.core.fall_tick_accum, delta, tick);
            }
            return FrameStart { events, goes_on: false, was_dying, rocks_due: false };
        }
        self.tick_ascending(delta, &mut events);
        if self.status != GameStatus::Playing {
            return FrameStart { events, goes_on: false, was_dying, rocks_due: false };
        }
        self.tick_dodge(delta);
        self.tick_watch(delta);
        if !was_dying {
            self.live_on(delta, &mut events);
        }
        if !self.is_dying() && self.player.is_out_of_oxygen() {
            self.apply_miss(MissCause::OxygenOut, &mut events);
        }
        self.run_gravity(delta, &mut events);
        self.melt_stars(delta, &mut events);
        FrameStart { events, goes_on: true, was_dying, rocks_due: !was_dying && attacks }
    }

    /// Lets time pass. Returns what happened. Bombs lie still and attacks wait
    /// meanwhile: who has them going takes the two parts of the frame one by
    /// one.
    pub fn update(&mut self, delta: u64) -> (events: Vec<GameEvent>)
        requires
            old(self).wf(),
            old(self).core.frame_counter < u64::MAX,
        ensures
            final(self).wf(),
            (final(self)@, events@) == framed(old(self)@, delta),
    {
        let start: FrameStart = self.begin_frame(delta);
        let mut events: Vec<GameEvent> = start.events;
        if start.goes_on {
            self.finish_frame(delta, &mut events);
        }
        events
    }
}

/// Time as the air gauge feels it at a depth, up to the largest that can be
/// counted.
fn feel_time(delta: u64, depth_m: usize) -> (felt: u64)
    ensures
        felt == least(felt_time(delta as int, depth_m as int), u64::MAX as int),
{
    let scaled: u128 = if depth_m < FIELD_DEPTH_M { depth_m as u128 } else { FIELD_DEPTH_M as u128 };
    let extra: u128 = (OXYGEN_DECAY_DEPTH_MAX_PERCENT - 100) as u128;
    proof {
        assert(0 <= scaled * extra <= 100000) by (nonlinear_arith)
            requires
                scaled <= 1000,
                extra == 100,
        ;
    }
    let share: u128 = 100 * FIELD_DEPTH_M as u128 + scaled * extra;
    proof {
        assert(0 <= delta * share <= u64::MAX * 200000) by (nonlinear_arith)
            requires
                0 <= share <= 200000,
                0 <= delta <= u64::MAX,
        ;
    }
    let felt: u128 = delta as u128 * share / (100 * FIELD_DEPTH_M as u128);
    if felt > u64::MAX as u128 {
        u64::MAX
    } else {
        felt as u64
    }
}

} // verus!
