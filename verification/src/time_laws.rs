//! What the passing of time does, told from the outside: clocks, air, gravity's
//! beat, stars, escapes, and a frame as a whole.
use vstd::prelude::*;

use crate::board::{rectangular, Cell, Grid, Pos};
use crate::bombs::resting_places;
use crate::effects::stars_watched;
use crate::fall::{blocks_moved, cells_vanished, colors_among, field_after, loose_after, onto_player, rocks_among, Pull};
use crate::flash::{blazes_after, flashes_after, flashes_with, Blaze, VanishedCell};
use crate::flood::{at, on_grid, spot, spots, Spot};
use crate::frame::{
    air_warned, breathed_on, catch_told, chained, drops_due, escape_told, felt_time, frame_begun, framed, goes_on,
    gravity_ran, player_fell, stars_melted, suffocated, tick_due, tick_told, ticks_due, vanish_told,
};
use crate::game::{tuned, Core, DodgeStage, GameEvent, GameStatus, MissCause, Tale, World};
use crate::gravity_laws::neighbours;
use crate::listing::{addressable, lemma_listing, listing};
use crate::mishaps::{item_used, missed, risen};
use crate::physics::{crushes_player, player_pulled};
use crate::play_laws::{nanos, raised};
use crate::player::Player;
use crate::sweep::{haul, swept, Sweep};

verus! {

/// `a - b`, but not below zero.
pub open spec fn less(a: int, b: int) -> int {
    if a >= b { a - b } else { 0 }
}

/// What is only drawn runs on in every frame: banners and flashes run out, the
/// latest move grows older, and the frame is counted.
pub proof fn law_the_show_goes_on(w: World, delta: u64)
    requires
        w.core.frame_counter < u64::MAX,
        w.core.render_anim_elapsed + delta <= u64::MAX,
    ensures
        ({
            let s = w.shown_on(delta);
            &&& s == (World {
                vanished: s.vanished,
                exploded: s.exploded,
                core: Core {
                    frame_counter: (w.core.frame_counter + 1) as u64,
                    crush_flash_remaining: less(w.core.crush_flash_remaining as int, delta as int) as u64,
                    checkpoint_flash_remaining: less(w.core.checkpoint_flash_remaining as int, delta as int) as u64,
                    render_anim_elapsed: (w.core.render_anim_elapsed + delta) as u64,
                    ..w.core
                },
                ..w
            })
            &&& s.vanished == flashes_after(w.vanished, delta)
            &&& s.exploded == blazes_after(w.exploded, delta)
        }),
{
}

/// A flash first waits, then burns; the time of both together is what passes.
/// One that has burnt out is gone; the others stay, in their order.
pub proof fn law_flashes_burn_out(list: Seq<VanishedCell>, delta: u64, v: VanishedCell)
    ensures
        ({
            let one = flashes_after(list.push(v), delta);
            let left = less(v.delay + v.remaining, delta as int);
            let rest = flashes_after(list, delta);
            &&& (v.delay > delta || left > 0) <==> one.len() == rest.len() + 1
            &&& !(v.delay > delta || left > 0) ==> one == rest
            &&& one.len() == rest.len() + 1 ==> {
                let u = one.last();
                &&& one.drop_last() =~= rest
                &&& u.pos == v.pos && u.kind == v.kind && u.total == v.total
                &&& u.delay == less(v.delay as int, delta as int)
                &&& delta <= v.delay ==> u.remaining == v.remaining
                &&& delta > v.delay ==> u.remaining == left
            }
        }),
{
    assert(list.push(v).drop_last() =~= list);
}

/// A cell that vanishes starts to flash after its delay. A flash beside it that
/// burns already lasts until the new one is over; no other changes.
pub proof fn law_flashes_join(list: Seq<VanishedCell>, fresh: Seq<(Pos, Cell)>, delay: u64, total: u64, i: int)
    requires
        delay + total <= u64::MAX,
        0 <= i < list.len() + fresh.len(),
    ensures
        ({
            let all = flashes_with(list, fresh, delay, total);
            let touched = exists|k: int|
                0 <= k < fresh.len() && neighbours(
                    (list[i].pos.0 as int, list[i].pos.1 as int),
                    ((#[trigger] fresh[k]).0.0 as int, fresh[k].0.1 as int),
                );
            let first = forall|j: int|
                0 <= j < i ==> !((#[trigger] list[j]).delay == 0 && list[j].pos == list[i].pos);
            &&& all.len() == list.len() + fresh.len()
            &&& i >= list.len() ==> all[i] == (VanishedCell {
                pos: fresh[i - list.len()].0,
                kind: fresh[i - list.len()].1,
                delay,
                remaining: total,
                total,
            })
            &&& i < list.len() && list[i].delay == 0 && touched && first ==> all[i] == (VanishedCell {
                remaining: (delay + total) as u64,
                ..list[i]
            })
            &&& i < list.len() && !(list[i].delay == 0 && touched && first) ==> all[i] == list[i]
        }),
{
    if i < list.len() {
        let p = list[i].pos;
        if crate::flash::touched(fresh, p) {
            let k = choose|k: int|
                0 <= k < fresh.len() && crate::flood::adjacent(crate::flood::spot(p), crate::flood::spot((#[trigger] fresh[k]).0));
            assert(neighbours((p.0 as int, p.1 as int), (fresh[k].0.0 as int, fresh[k].0.1 as int)));
        }
        if exists|k: int|
            0 <= k < fresh.len() && neighbours(
                (p.0 as int, p.1 as int),
                ((#[trigger] fresh[k]).0.0 as int, fresh[k].0.1 as int),
            ) {
            let k = choose|k: int|
                0 <= k < fresh.len() && neighbours(
                    (p.0 as int, p.1 as int),
                    ((#[trigger] fresh[k]).0.0 as int, fresh[k].0.1 as int),
                );
            assert(crate::flood::adjacent(crate::flood::spot(p), crate::flood::spot(fresh[k].0)));
        }
    }
}

/// The fire of an explosion burns down, and goes out.
pub proof fn law_fires_burn_out(list: Seq<Blaze>, delta: u64, b: Blaze)
    ensures
        ({
            let one = blazes_after(list.push(b), delta);
            let rest = blazes_after(list, delta);
            &&& b.remaining <= delta ==> one == rest
            &&& b.remaining > delta ==> one =~= rest.push(Blaze { remaining: (b.remaining - delta) as u64, ..b })
        }),
{
    assert(list.push(b).drop_last() =~= list);
}

/// How long a tick of gravity takes: what the settings say at the surface, half
/// of it a thousand metres down and deeper, in even steps between, but never
/// less than 25 milliseconds.
pub proof fn law_the_beat_of_gravity(w: World)
    ensures
        ({
            let depth = if w.player.row + 1 < 1000 { w.player.row + 1 } else { 1000 };
            let tick = w.core.block_fall_tick_ms * (2000 - depth) / 2000;
            w.tick_ms() == (if tick < 25 { 25 } else { tick })
        }),
{
    let depth = if w.player.row + 1 < 1000 { w.player.row + 1 } else { 1000 };
    let b = w.core.block_fall_tick_ms as int;
    assert(b * (100 * 1000 - depth * 50) / 100000 == b * (2000 - depth) / 2000) by (nonlinear_arith)
        requires
            0 <= depth <= 1000,
            b >= 0,
    ;
}

/// A block shakes for as many whole ticks as fit into its time, at least one and
/// at most 255, or not at all if the time is zero. A flash lasts 200
/// milliseconds at the usual beat and shrinks with it, down to 100.
pub proof fn law_the_length_of_things(w: World)
    requires
        w.tick_ms() > 0,
    ensures
        ({
            let tick = w.tick_ms();
            let n = w.core.shake_duration_ms as int / tick;
            &&& w.core.shake_duration_ms == 0 ==> w.shake_count() == 0
            &&& w.core.shake_duration_ms > 0 && 1 <= n <= 255 ==> w.shake_count() == n
            &&& w.core.shake_duration_ms > 0 && n < 1 ==> w.shake_count() == 1
            &&& n > 255 ==> w.shake_count() == 255
            &&& w.flash_ms() == (if 200 * tick / 150 < 100 { 100 } else { 200 * tick / 150 })
            &&& tick <= 600 ==> w.landing_delay() == less(nanos(tick), w.core.fall_tick_accum as int)
        }),
{
}

/// Once the game is over, blocks in the air still arrive, and no further. A
/// paused or won game stays as it is.
pub proof fn law_the_last_blocks_arrive(w: World, delta: u64)
    requires
        25 <= w.tick_ms() <= 600,
    ensures
        w.status != GameStatus::GameOver ==> w.settled_on(delta) == w,
        w.status == GameStatus::GameOver ==> {
            let s = w.settled_on(delta);
            &&& s == w.with_core(Core { fall_tick_accum: s.core.fall_tick_accum, ..w.core })
            &&& w.core.fall_tick_accum + delta <= nanos(w.tick_ms()) ==> s.core.fall_tick_accum
                == w.core.fall_tick_accum + delta
            &&& w.core.fall_tick_accum + delta > nanos(w.tick_ms()) ==> s.core.fall_tick_accum == nanos(w.tick_ms())
        },
{
}

/// A slide turns into getting up once its time is over, and getting up into
/// standing; nothing else changes.
pub proof fn law_slides_end(w: World, delta: u64)
    requires
        w.core.dodge_recovery_ms <= 2000,
    ensures
        ({
            let s = w.slid_on(delta);
            let over = w.core.dodge_stage_remaining <= delta;
            &&& s == w.with_core(
                Core { dodge_stage: s.core.dodge_stage, dodge_stage_remaining: s.core.dodge_stage_remaining, ..w.core },
            )
            &&& w.core.dodge_stage == DodgeStage::Idle ==> s == w
            &&& w.core.dodge_stage != DodgeStage::Idle && !over ==> s.core.dodge_stage == w.core.dodge_stage
                && s.core.dodge_stage_remaining == w.core.dodge_stage_remaining - delta
            &&& w.core.dodge_stage == DodgeStage::Sliding && over ==> s.core.dodge_stage == DodgeStage::Recovering
                && s.core.dodge_stage_remaining == nanos(w.core.dodge_recovery_ms as int)
            &&& w.core.dodge_stage == DodgeStage::Recovering && over ==> s.core.dodge_stage == DodgeStage::Idle
        }),
{
}

/// A cell is watched until its time is over.
pub proof fn law_watches_end(w: World, delta: u64)
    ensures
        w.core.dodge_watch_cell is None ==> w.watched_on(delta) == w,
        w.core.dodge_watch_cell is Some ==> {
            let s = w.watched_on(delta);
            &&& s == w.with_core(
                Core {
                    dodge_watch_cell: s.core.dodge_watch_cell,
                    dodge_watch_remaining: s.core.dodge_watch_remaining,
                    ..w.core
                },
            )
            &&& s.core.dodge_watch_remaining == less(w.core.dodge_watch_remaining as int, delta as int)
            &&& w.core.dodge_watch_remaining > delta ==> s.core.dodge_watch_cell == w.core.dodge_watch_cell
            &&& w.core.dodge_watch_remaining <= delta ==> s.core.dodge_watch_cell is None
        },
{
}

/// Air runs out at a point a second at the surface, twice as fast a thousand
/// metres down and deeper, and in even steps between; a clock of the playing
/// time runs; and time is saved up for steps and strokes, up to one and a half
/// times what one needs.
pub proof fn law_living_takes_air(w: World, delta: u64)
    requires
        w.player.elapsed_nanos + delta <= u64::MAX,
        w.core.move_cooldown_ms <= 300,
    ensures
        ({
            let s = w.lived_on(delta);
            let depth = if w.player.row + 1 < 1000 { w.player.row + 1 } else { 1000 };
            let used = delta * (1000 + depth) / 1000;
            let cap = nanos(w.core.move_cooldown_ms + w.core.move_cooldown_ms as int / 2);
            &&& s.player == (Player {
                elapsed_nanos: (w.player.elapsed_nanos + delta) as u64,
                oxygen: less(w.player.oxygen as int, used) as u64,
                ..w.player
            })
            &&& s == (World {
                player: s.player,
                core: Core {
                    move_cooldown_accum: (if w.core.move_cooldown_accum + delta <= cap {
                        w.core.move_cooldown_accum + delta
                    } else {
                        cap
                    }) as u64,
                    drill_cooldown_accum: (if w.core.drill_cooldown_accum + delta <= nanos(120) {
                        w.core.drill_cooldown_accum + delta
                    } else {
                        nanos(120)
                    }) as u64,
                    drill_flash_remaining: less(w.core.drill_flash_remaining as int, delta as int) as u64,
                    ..w.core
                },
                ..w
            })
        }),
{
    let depth = if w.player.row + 1 < 1000 { w.player.row + 1 } else { 1000 };
    let d = delta as int;
    assert(d * (100 * 1000 + depth * 100) / 100000 == d * (1000 + depth) / 1000) by (nonlinear_arith)
        requires
            0 <= depth <= 1000,
            d >= 0,
    ;
    assert(felt_time(d, w.player.row + 1) == d * (1000 + depth) / 1000);
}

/// From thirty points down a warning is told every second, as long as there is
/// air; with more air, or none, the clock of the warnings stands at zero.
pub proof fn law_warnings(t: Tale, delta: u64)
    requires
        t.0.core.oxygen_warning_accum + delta <= u64::MAX,
    ensures
        ({
            let a = air_warned(t, delta);
            let low = 0 < t.0.player.oxygen <= 30_000_000_000;
            let sum = t.0.core.oxygen_warning_accum + delta;
            let accum = if !low { 0 } else if sum >= 1_000_000_000 { sum - 1_000_000_000 } else { sum };
            &&& a.0 == t.0.with_core(Core { oxygen_warning_accum: accum as u64, ..t.0.core })
            &&& a.1 == (if low && sum >= 1_000_000_000 { t.1.push(GameEvent::OxygenWarningTick) } else { t.1 })
        }),
{
}

/// Whoever lives and is out of air loses a life for it, and nobody else does.
pub proof fn law_suffocation(t: Tale)
    ensures
        t.0.core.ascending_remaining is None && t.0.player.oxygen == 0 ==> suffocated(t) == missed(
            t,
            MissCause::OxygenOut,
        ),
        t.0.core.ascending_remaining is Some || t.0.player.oxygen > 0 ==> suffocated(t) == t,
{
}

/// Stars within twelve rows of the player grow older by what passes; those that
/// have been in view for three seconds melt and are told, all others stay.
pub proof fn law_stars_melt(t: Tale, delta: u64, p: Spot)
    requires
        on_grid(t.0.grid, p),
        t.0.player.row < t.0.grid.len() <= usize::MAX,
        delta / 1_000_000 <= u32::MAX,
    ensures
        ({
            let w = t.0;
            let a = stars_melted(t, delta);
            let near = w.player.row - 12 <= p.0 <= w.player.row + 12;
            let age = at(w.grid, p)->Star_visible_ms + delta / 1_000_000;
            &&& !(near && at(w.grid, p) is Star) ==> at(a.0.grid, p) == at(w.grid, p)
            &&& near && at(w.grid, p) is Star && age >= 3000 ==> at(a.0.grid, p) is Empty
            &&& near && at(w.grid, p) is Star && age < 3000 ==> at(a.0.grid, p) == (Cell::Star {
                visible_ms: age as u32,
            })
            &&& a.0.player == w.player && a.0.core == w.core && a.0.bombs == w.bombs && a.0.status == w.status
            &&& a.0.gravity == w.gravity && a.0.moves == w.moves
            &&& a.1 == t.1 || (a.1.len() == t.1.len() + 1 && a.1.last() is BlockDestroyed)
        }),
{
}

/// What comes down on the player in a tick is told, and an item is used.
pub proof fn law_catches(t: Tale, caught: Option<Cell>)
    ensures
        caught == Some(Cell::Oxygen) ==> catch_told(t, caught) == (t.0, t.1.push(GameEvent::OxygenCollected)),
        caught matches Some(Cell::Item(effect)) ==> catch_told(t, caught) == item_used(t, effect),
        !(caught matches Some(cell) && (cell is Oxygen || cell is Item)) ==> catch_told(t, caught) == t,
{
}

/// Blocks that vanish in a tick are told, colours first, and count for the
/// attack.
pub proof fn law_vanishing_is_told(t: Tale, colors: int, rocks: int)
    requires
        0 <= colors,
        0 <= rocks,
    ensures
        ({
            let a = vanish_told(t, colors, rocks);
            let told = if colors > 0 {
                t.1.push(GameEvent::BlockDestroyed { blocks: colors as usize })
            } else {
                t.1
            };
            &&& a.1 == (if rocks > 0 {
                told.push(GameEvent::RockDestroyed { blocks: rocks as usize })
            } else {
                told
            })
            &&& a.0 == t.0.with_core(Core { attack_power_pending: raised(t.0, colors + rocks), ..t.0.core })
        }),
{
}

/// Gravity rests after a vanishing for as long as the settings say.
pub proof fn law_gravity_rests(w: World, vanished: bool)
    requires
        w.core.chain_vanish_interval_ms <= 2000,
    ensures
        chained(w, vanished) == w.with_core(
            Core { chain_pause_remaining: chained(w, vanished).core.chain_pause_remaining, ..w.core },
        ),
        vanished && w.core.chain_vanish_interval_ms > 0 ==> chained(w, vanished).core.chain_pause_remaining == nanos(
            w.core.chain_vanish_interval_ms as int,
        ),
        !vanished || w.core.chain_vanish_interval_ms == 0 ==> chained(w, vanished) == w,
{
}

/// What gravity looks at in a game.
pub open spec fn pulls(w: World) -> Pull {
    Pull {
        player: (w.player.row as int, w.player.col as int),
        solid: spots(resting_places(w.bombs)),
        waits: w.gravity.waits,
        shake_ticks: w.shake_count() as u16,
    }
}

/// A tick of gravity moves the blocks, keeps their waits, gives the player what
/// they get from it, and makes the time in which they cannot be hurt shorter. A
/// block that comes down where they have just fled from makes them slide.
pub proof fn law_a_tick_of_gravity(t: Tale)
    ensures
        ({
            let w = t.0;
            let pull = pulls(w);
            let a = escape_told(t);
            let safe = w.core.invulnerability_ticks_remaining > 0 || w.core.ascending_remaining is Some;
            let narrow = !crushes_player(w.grid, pull, safe) && w.core.ascending_remaining is None
                && w.core.dodge_stage == DodgeStage::Idle && (w.core.dodge_watch_cell matches Some(cell) && cell != (
            w.player.row, w.player.col) && exists|i: int|
                0 <= i < blocks_moved(w.grid, pull).len() && (#[trigger] blocks_moved(w.grid, pull)[i]).0 == cell);
            &&& a.0.grid == field_after(w.grid, pull)
            &&& a.0.gravity == loose_after(w.grid, pull)
            &&& a.0.moves == blocks_moved(w.grid, pull)
            &&& a.0.player == player_pulled(w.grid, pull, w.player)
            &&& a.0.core.invulnerability_ticks_remaining == less(
                w.core.invulnerability_ticks_remaining as int,
                1,
            )
            &&& a.0.bombs == w.bombs && a.0.status == w.status && a.0.vanished == w.vanished
            &&& narrow ==> a.1 == t.1.push(GameEvent::DodgeTriggered) && a.0.core.dodge_stage == DodgeStage::Sliding
                && a.0.core.dodge_stage_remaining == nanos(500) && a.0.core.dodge_watch_cell is None
            &&& !narrow ==> a.1 == t.1 && a.0.core == (Core {
                invulnerability_ticks_remaining: a.0.core.invulnerability_ticks_remaining,
                ..w.core
            })
        }),
{
    let w = t.0;
    assert(w.pull() == pulls(w));
}

/// A tick that is due uses up its time. While gravity rests, that is all that
/// happens, besides that the latest moves are over and the rest grows shorter.
pub proof fn law_ticks_use_their_time(t: Tale, tick: int)
    requires
        0 < tick <= t.0.core.fall_tick_accum,
    ensures
        ({
            let w = t.0;
            let a = tick_due(t, tick);
            let paid = w.with_core(Core { fall_tick_accum: (w.core.fall_tick_accum - tick) as u64, ..w.core });
            &&& w.core.chain_pause_remaining > 0 ==> a.1 == t.1 && a.0 == (World {
                moves: Seq::empty(),
                core: Core {
                    chain_pause_remaining: less(w.core.chain_pause_remaining as int, tick) as u64,
                    ..paid.core
                },
                ..paid
            })
            &&& w.core.chain_pause_remaining == 0 ==> a == tick_told((paid, t.1))
        }),
{
}

/// A tick in which nothing vanishes, nothing is taken, nobody is hurt and no
/// checkpoint has been passed leaves exactly what gravity leaves.
pub proof fn law_a_plain_tick(t: Tale)
    requires
        cells_vanished(t.0.grid, pulls(t.0)).len() == 0,
        onto_player(t.0.grid, pulls(t.0)) is None,
        t.0.core.last_checkpoint_reported == 0,
    ensures
        tick_told(t).0.grid == field_after(t.0.grid, pulls(t.0)),
        tick_told(t).0.gravity == loose_after(t.0.grid, pulls(t.0)),
        tick_told(t).0.player == player_pulled(t.0.grid, pulls(t.0), t.0.player),
        tick_told(t).0.moves == blocks_moved(t.0.grid, pulls(t.0)),
        tick_told(t).1 == escape_told(t).1,
        tick_told(t).0.core == escape_told(t).0.core,
{
    let w = t.0;
    assert(w.pull() == pulls(w));
    let pull = pulls(w);
    let gone = cells_vanished(w.grid, pull);
    assert(colors_among(gone) == 0 && rocks_among(gone) == 0);
    let a = escape_told(t);
    assert(catch_told(a, onto_player(w.grid, pull)) == a);
    let noted = a.0.noted(gone, a.0.landing_delay());
    let what = crate::sweep::Sweep::Gaps { checkpoints: 0 };
    let swept = noted.gaps_swept(a.0.landing_delay());
    assert(crate::sweep::swept(noted.grid, what) =~= Set::empty());
    assert(swept.grid =~= noted.grid) by {
        assert forall|r: int| 0 <= r < noted.grid.len() implies #[trigger] swept.grid[r] =~= noted.grid[r] by {}
    }
}

/// A block that comes down on a player who can be hurt costs a life, last of all
/// in the tick; otherwise the tick costs none.
pub proof fn law_crushing(t: Tale)
    ensures
        ({
            let w = t.0;
            let safe = w.core.invulnerability_ticks_remaining > 0 || w.core.ascending_remaining is Some;
            let hit = crushes_player(w.grid, pulls(w), safe);
            let a = tick_told(t);
            &&& hit && !w.core.invincible && w.player.lives > 1 ==> a.1.last() == (GameEvent::LifeLost {
                cause: MissCause::CrushedByFallingBlock,
            })
            &&& hit && !w.core.invincible && w.player.lives <= 1 ==> a.1.last() == (GameEvent::GameOverMiss {
                cause: MissCause::CrushedByFallingBlock,
            })
            &&& hit && !w.core.invincible ==> a.0.core.ascending_remaining == Some(nanos(2800) as u64)
            &&& hit && w.core.invincible ==> a.1.last() == (GameEvent::MissAverted {
                cause: MissCause::CrushedByFallingBlock,
            })
            &&& !hit ==> a.0.core.ascending_remaining == w.core.ascending_remaining
        }),
{
    let w = t.0;
    assert(w.pull() == pulls(w));
    let pull = pulls(w);
    let a = escape_told(t);
    let b = catch_told(a, onto_player(w.grid, pull));
    if let Some(Cell::Item(effect)) = onto_player(w.grid, pull) {
        crate::play_laws::law_items_are_told(a, effect);
        lemma_item_keeps(a, effect);
    }
    assert(b.0.core.ascending_remaining == w.core.ascending_remaining);
    assert(b.0.core.invincible == w.core.invincible);
    assert(b.0.player.lives == w.player.lives);
}

proof fn lemma_item_keeps(t: Tale, effect: crate::board::ItemEffect)
    ensures
        item_used(t, effect).0.core == (Core { rng: item_used(t, effect).0.core.rng, ..t.0.core }),
{
}

/// As many ticks of gravity run as fit into the time that has been saved up, one
/// after the other; none if not enough has.
pub proof fn law_gravity_keeps_time(t: Tale, delta: u64)
    requires
        t.0.tick_ms() > 0,
        t.0.core.fall_tick_accum + delta <= u64::MAX,
    ensures
        ({
            let tick = nanos(t.0.tick_ms());
            let sum = t.0.core.fall_tick_accum + delta;
            let ready = t.0.with_core(Core { fall_tick_accum: sum as u64, ..t.0.core });
            &&& sum < tick ==> gravity_ran(t, delta) == (ready, t.1)
            &&& tick <= sum < 2 * tick ==> gravity_ran(t, delta) == tick_due((ready, t.1), tick)
            &&& 2 * tick <= sum < 3 * tick ==> gravity_ran(t, delta) == tick_due(tick_due((ready, t.1), tick), tick)
            &&& gravity_ran(t, delta) == ticks_due((ready, t.1), tick, (sum / tick) as nat)
        }),
{
    let tick = nanos(t.0.tick_ms());
    let sum = t.0.core.fall_tick_accum + delta;
    reveal_with_fuel(ticks_due, 3);
    if sum < tick {
        assert(sum / tick == 0) by (nonlinear_arith)
            requires
                0 <= sum < tick,
        ;
    } else if sum < 2 * tick {
        assert(sum / tick == 1) by (nonlinear_arith)
            requires
                0 < tick <= sum < 2 * tick,
        ;
    } else if sum < 3 * tick {
        assert(sum / tick == 2) by (nonlinear_arith)
            requires
                0 < tick,
                2 * tick <= sum < 3 * tick,
        ;
    }
}

/// Free fall keeps its own time in the same way. It stands still while the
/// player rises to heaven, and ends with the game.
pub proof fn law_free_fall_keeps_time(t: Tale, delta: u64)
    requires
        t.0.core.player_fall_tick_ms > 0,
        t.0.core.player_fall_tick_accum + delta <= u64::MAX,
    ensures
        ({
            let tick = nanos(t.0.core.player_fall_tick_ms as int);
            let sum = t.0.core.player_fall_tick_accum + delta;
            let ready = t.0.with_core(Core { player_fall_tick_accum: sum as u64, ..t.0.core });
            &&& t.0.core.ascending_remaining is Some ==> player_fell(t, delta) == t
            &&& t.0.core.ascending_remaining is None && sum < tick ==> player_fell(t, delta) == (ready, t.1)
            &&& t.0.core.ascending_remaining is None && t.0.status == GameStatus::Playing && tick <= sum < 2 * tick
                ==> player_fell(t, delta) == crate::frame::drop_due((ready, t.1))
            &&& t.0.core.ascending_remaining is None && t.0.status != GameStatus::Playing ==> player_fell(t, delta)
                == (ready, t.1)
            &&& t.0.core.ascending_remaining is None ==> player_fell(t, delta) == drops_due(
                (ready, t.1),
                (sum / tick) as nat,
            )
        }),
{
    let tick = nanos(t.0.core.player_fall_tick_ms as int);
    let sum = t.0.core.player_fall_tick_accum + delta;
    reveal_with_fuel(drops_due, 3);
    if sum < tick {
        assert(sum / tick == 0) by (nonlinear_arith)
            requires
                0 <= sum < tick,
        ;
    } else if sum < 2 * tick {
        assert(sum / tick == 1) by (nonlinear_arith)
            requires
                0 < tick <= sum < 2 * tick,
        ;
    }
}

/// More than one tick of free fall: one, and then the others, until the game
/// ends.
pub proof fn law_falls_add_up(t: Tale, n: nat)
    ensures
        drops_due(t, 0) == t,
        t.0.status != GameStatus::Playing ==> drops_due(t, n) == t,
        t.0.status == GameStatus::Playing ==> drops_due(t, n + 1) == drops_due(crate::frame::drop_due(t), n),
        ticks_due(t, 1, 0) == t,
        forall|tick: int| #[trigger] ticks_due(t, tick, n + 1) == ticks_due(tick_due(t, tick), tick, n),
{
}

/// What a frame makes of a player who lives, before gravity sets in.
pub open spec fn woken(w: World, delta: u64) -> Tale {
    breathed_on((w.shown_on(delta).slid_on(delta).watched_on(delta), Seq::empty()), delta, false)
}

/// The numbers of a frame before gravity sets in.
proof fn lemma_woken(w: World, delta: u64)
    requires
        w.status == GameStatus::Playing,
        w.core.ascending_remaining is None,
    ensures
        ({
            let t = woken(w, delta);
            let lived = w.lived_on(delta);
            let watched = w.slid_on(delta).watched_on(delta);
            let warned = air_warned((lived, Seq::empty()), delta);
            &&& t.0 == (World {
                player: lived.player,
                vanished: w.shown_on(delta).vanished,
                exploded: w.shown_on(delta).exploded,
                core: Core {
                    frame_counter: w.shown_on(delta).core.frame_counter,
                    crush_flash_remaining: w.shown_on(delta).core.crush_flash_remaining,
                    checkpoint_flash_remaining: w.shown_on(delta).core.checkpoint_flash_remaining,
                    render_anim_elapsed: w.shown_on(delta).core.render_anim_elapsed,
                    dodge_stage: watched.core.dodge_stage,
                    dodge_stage_remaining: watched.core.dodge_stage_remaining,
                    dodge_watch_cell: watched.core.dodge_watch_cell,
                    dodge_watch_remaining: watched.core.dodge_watch_remaining,
                    move_cooldown_accum: lived.core.move_cooldown_accum,
                    drill_cooldown_accum: lived.core.drill_cooldown_accum,
                    drill_flash_remaining: lived.core.drill_flash_remaining,
                    oxygen_warning_accum: warned.0.core.oxygen_warning_accum,
                    ..w.core
                },
                ..w
            })
            &&& t.1 == warned.1
            &&& goes_on(w, delta)
            &&& frame_begun(w, delta) == stars_melted(gravity_ran(suffocated(t), delta), delta)
        }),
{
    let none = Seq::<GameEvent>::empty();
    let shown = w.shown_on(delta);
    assert(risen((shown, none), delta) == (shown, none));
}

/// A frame in which the player lives and no tick is due: they breathe, time is
/// saved up, what is watched and what slides goes on, and stars melt. Nobody
/// moves and no block falls.
pub proof fn law_a_quiet_frame(w: World, delta: u64)
    requires
        tuned(w.core),
        w.status == GameStatus::Playing,
        w.core.ascending_remaining is None,
        w.core.frame_counter < u64::MAX,
        w.player.elapsed_nanos + delta <= u64::MAX,
        w.core.render_anim_elapsed + delta <= u64::MAX,
        w.core.fall_tick_accum + delta < nanos(w.tick_ms()) <= u64::MAX,
        w.core.player_fall_tick_accum + delta < nanos(w.core.player_fall_tick_ms as int),
        w.lived_on(delta).player.oxygen > 0,
    ensures
        ({
            let f = framed(w, delta);
            let lived = w.lived_on(delta);
            let watched = w.slid_on(delta).watched_on(delta);
            &&& f.0.player == lived.player
            &&& f.0.status == GameStatus::Playing
            &&& f.0.core.move_cooldown_accum == lived.core.move_cooldown_accum
            &&& f.0.core.drill_cooldown_accum == lived.core.drill_cooldown_accum
            &&& f.0.core.drill_flash_remaining == lived.core.drill_flash_remaining
            &&& f.0.core.dodge_stage == watched.core.dodge_stage
            &&& f.0.core.dodge_stage_remaining == watched.core.dodge_stage_remaining
            &&& f.0.core.dodge_watch_cell == watched.core.dodge_watch_cell
            &&& f.0.core.dodge_watch_remaining == watched.core.dodge_watch_remaining
            &&& f.0.core.fall_tick_accum == w.core.fall_tick_accum + delta
            &&& f.0.core.player_fall_tick_accum == w.core.player_fall_tick_accum + delta
            &&& f.0.core.frame_counter == w.core.frame_counter + 1
            &&& f.0.core.crush_flash_remaining == less(w.core.crush_flash_remaining as int, delta as int)
            &&& f.0.core.render_anim_elapsed == w.core.render_anim_elapsed + delta
            &&& f.0.core.oxygen_warning_accum == air_warned((lived, Seq::empty()), delta).0.core.oxygen_warning_accum
            &&& f.0.grid == stars_melted((lived, Seq::empty()), delta).0.grid
            &&& f.0.gravity == w.gravity && f.0.bombs == w.bombs && f.0.moves == w.moves && f.0.rocks == w.rocks
            &&& f.0.core.rng == w.core.rng
            &&& forall|i: int|
                0 <= i < f.1.len() ==> (#[trigger] f.1[i]) is OxygenWarningTick || f.1[i] is BlockDestroyed
        }),
{
    let t = woken(w, delta);
    lemma_woken(w, delta);
    assert(suffocated(t) == t);
    assert(t.0.tick_ms() == w.tick_ms());
    lemma_quiet(t, delta);
    let m = stars_melted(
        (t.0.with_core(Core { fall_tick_accum: (w.core.fall_tick_accum + delta) as u64, ..t.0.core }), t.1),
        delta,
    );
    assert(framed(w, delta).0 == m.0.with_core(
        Core { player_fall_tick_accum: (w.core.player_fall_tick_accum + delta) as u64, ..m.0.core },
    ));
    assert(framed(w, delta).1 == m.1);
}

/// With no tick due, gravity and free fall only save up time.
proof fn lemma_quiet(t: Tale, delta: u64)
    requires
        t.0.core.ascending_remaining is None,
        t.0.core.player_fall_tick_ms > 0,
        0 <= t.0.core.fall_tick_accum + delta < nanos(t.0.tick_ms()) <= u64::MAX,
        t.0.core.player_fall_tick_accum + delta < nanos(t.0.core.player_fall_tick_ms as int),
        t.0.core.player_fall_tick_accum + delta <= u64::MAX,
    ensures
        ({
            let ready = t.0.with_core(
                Core { fall_tick_accum: (t.0.core.fall_tick_accum + delta) as u64, ..t.0.core },
            );
            let m = stars_melted((ready, t.1), delta);
            &&& gravity_ran(t, delta) == (ready, t.1)
            &&& player_fell(m, delta) == (
                m.0.with_core(
                    Core {
                        player_fall_tick_accum: (t.0.core.player_fall_tick_accum + delta) as u64,
                        ..m.0.core
                    },
                ),
                m.1,
            )
        }),
{
    law_gravity_keeps_time(t, delta);
    let ready = t.0.with_core(Core { fall_tick_accum: (t.0.core.fall_tick_accum + delta) as u64, ..t.0.core });
    let m = stars_melted((ready, t.1), delta);
    assert(m.0.core == ready.core);
    law_free_fall_keeps_time(m, delta);
}

/// A frame in which the player is out of air in the end costs a life.
pub proof fn law_a_last_frame(w: World, delta: u64)
    requires
        tuned(w.core),
        w.status == GameStatus::Playing,
        w.core.ascending_remaining is None,
        !w.core.invincible,
        w.core.frame_counter < u64::MAX,
        w.core.fall_tick_accum + delta < nanos(w.tick_ms()) <= u64::MAX,
        w.lived_on(delta).player.oxygen == 0,
    ensures
        ({
            let f = framed(w, delta);
            &&& f.0.core.ascending_remaining == Some(nanos(2800) as u64)
            &&& f.0.player == w.lived_on(delta).player
            &&& f.1.len() >= 1
            &&& f.1[0] == (if w.player.lives <= 1 {
                GameEvent::GameOverMiss { cause: MissCause::OxygenOut }
            } else {
                GameEvent::LifeLost { cause: MissCause::OxygenOut }
            })
        }),
{
    let breathed = woken(w, delta);
    lemma_woken(w, delta);
    let t = suffocated(breathed);
    assert(t == missed(breathed, MissCause::OxygenOut));
    assert(t.0.tick_ms() == w.tick_ms());
    law_gravity_keeps_time(t, delta);
    let m = stars_melted(gravity_ran(t, delta), delta);
    assert(m.0.dying());
    assert(framed(w, delta) == m);
}

/// A frame in which one tick of gravity is due: the blocks move as gravity moves
/// them, seen from where the player is.
pub proof fn law_a_frame_with_a_tick(w: World, delta: u64)
    requires
        tuned(w.core),
        w.status == GameStatus::Playing,
        w.core.ascending_remaining is None,
        w.core.frame_counter < u64::MAX,
        w.core.chain_pause_remaining == 0,
        nanos(w.tick_ms()) <= w.core.fall_tick_accum + delta < 2 * nanos(w.tick_ms()),
        w.core.fall_tick_accum + delta <= u64::MAX,
        w.lived_on(delta).player.oxygen > 0,
    ensures
        ({
            let b = frame_begun(w, delta);
            &&& goes_on(w, delta)
            &&& b.0.moves == blocks_moved(w.grid, pulls(w))
            &&& b.0.player.row == w.player.row && b.0.player.col == w.player.col
            &&& exists|ready: World, told: Seq<GameEvent>|
                ready.grid == w.grid && ready.gravity == w.gravity && ready.bombs == w.bombs && ready.player
                    == w.lived_on(delta).player && ready.core.fall_tick_accum == w.core.fall_tick_accum + delta - nanos(
                    w.tick_ms(),
                ) && told == air_warned((w.lived_on(delta), Seq::empty()), delta).1 && b == stars_melted(
                    #[trigger] tick_told((ready, told)),
                    delta,
                )
        }),
{
    let t = woken(w, delta);
    lemma_woken(w, delta);
    assert(suffocated(t) == t);
    assert(t.0.tick_ms() == w.tick_ms());
    law_gravity_keeps_time(t, delta);
    let tick = nanos(w.tick_ms());
    let sum = w.core.fall_tick_accum + delta;
    let ready = t.0.with_core(Core { fall_tick_accum: sum as u64, ..t.0.core });
    let paid = ready.with_core(Core { fall_tick_accum: (sum - tick) as u64, ..ready.core });
    assert(pulls(paid) == pulls(w));
    assert(gravity_ran(t, delta) == tick_told((paid, t.1)));
    lemma_tick_moves((paid, t.1));
    assert(t.1 == air_warned((w.lived_on(delta), Seq::empty()), delta).1);
    assert(frame_begun(w, delta) == stars_melted(tick_told((paid, t.1)), delta));
}

proof fn lemma_tick_moves(t: Tale)
    ensures
        tick_told(t).0.moves == blocks_moved(t.0.grid, pulls(t.0)),
        tick_told(t).0.player.row == t.0.player.row,
        tick_told(t).0.player.col == t.0.player.col,
{
    let w = t.0;
    assert(w.pull() == pulls(w));
    let a = escape_told(t);
    if let Some(Cell::Item(effect)) = onto_player(w.grid, pulls(w)) {
        crate::play_laws::law_items_are_told(a, effect);
    }
    let b = catch_told(a, onto_player(w.grid, pulls(w)));
    assert(b.0.moves == a.0.moves);
    assert(b.0.player == a.0.player);
}

/// What a tick of gravity is told as, in order: a narrow escape, what came down
/// on the player, what vanished, and whether it cost a life.
pub open spec fn tick_events(w: World) -> Seq<GameEvent> {
    let pull = pulls(w);
    let gone = cells_vanished(w.grid, pull);
    let safe = w.core.invulnerability_ticks_remaining > 0 || w.core.ascending_remaining is Some;
    let hit = crushes_player(w.grid, pull, safe);
    let a = escape_told((w, Seq::empty())).1;
    let b = match onto_player(w.grid, pull) {
        Some(Cell::Oxygen) => a.push(GameEvent::OxygenCollected),
        Some(Cell::Item(effect)) => a.push(GameEvent::ItemCollected(effect)),
        _ => a,
    };
    let c = if colors_among(gone) > 0 {
        b.push(GameEvent::BlockDestroyed { blocks: colors_among(gone) as usize })
    } else {
        b
    };
    let d = if rocks_among(gone) > 0 {
        c.push(GameEvent::RockDestroyed { blocks: rocks_among(gone) as usize })
    } else {
        c
    };
    let cause = MissCause::CrushedByFallingBlock;
    if !hit {
        d
    } else if w.core.invincible {
        d.push(GameEvent::MissAverted { cause })
    } else if w.player.lives <= 1 {
        d.push(GameEvent::GameOverMiss { cause })
    } else {
        d.push(GameEvent::LifeLost { cause })
    }
}

/// The row lies in one of the gaps below the first checkpoints. That of the
/// bonus floor is not kept free.
pub open spec fn gap_row(r: int, checkpoints: int) -> bool {
    5 <= r % 100 < 10 && 1 <= r / 100 <= checkpoints && r / 100 != 5
}

/// Sweeping the gaps empties them, and nothing else.
pub proof fn law_gaps(w: World, delay: u64, p: Spot)
    requires
        on_grid(w.grid, p),
    ensures
        ({
            let a = w.gaps_swept(delay);
            &&& gap_row(p.0, w.core.last_checkpoint_reported as int) ==> at(a.grid, p) is Empty
            &&& !gap_row(p.0, w.core.last_checkpoint_reported as int) ==> at(a.grid, p) == at(w.grid, p)
            &&& a.player == w.player && a.core == w.core && a.gravity == w.gravity && a.moves == w.moves
            &&& a.bombs == w.bombs && a.status == w.status
        }),
{
    let n = w.core.last_checkpoint_reported as int;
    if gap_row(p.0, n) {
        let k = p.0 / 100;
        assert(crate::sweep::gap_start(k) == k * 100 + 5);
        assert(crate::sweep::in_gap(p.0, n));
    }
    if crate::sweep::in_gap(p.0, n) {
        let k = choose|k: int|
            1 <= k <= n && #[trigger] crate::sweep::gap_start(k) <= p.0 < crate::sweep::gap_start(k) + 5 && k * 100
                != 500;
        assert(k * 100 + 5 <= p.0 < k * 100 + 10);
        assert(p.0 / 100 == k);
    }
}

/// Everything that a tick of gravity does: it is told in order; the attack grows
/// by what vanished; gravity rests after a vanishing if it is to; an item that
/// came down is used; the gaps are free; and the field is otherwise what gravity
/// leaves.
pub proof fn law_a_whole_tick(t: Tale, p: Spot)
    requires
        on_grid(t.0.grid, p),
        t.0.core.chain_vanish_interval_ms <= 2000,
    ensures
        ({
            let w = t.0;
            let pull = pulls(w);
            let gone = cells_vanished(w.grid, pull);
            let a = tick_told(t);
            let n = colors_among(gone) + rocks_among(gone);
            let plain = !(onto_player(w.grid, pull) matches Some(cell) && (cell is Item || !(cell is Oxygen)));
            &&& a.1 =~= t.1 + tick_events(w)
            &&& a.0.core.attack_power_pending == raised(w, n as int)
            &&& n > 0 && w.core.chain_vanish_interval_ms > 0 ==> a.0.core.chain_pause_remaining == nanos(
                w.core.chain_vanish_interval_ms as int,
            )
            &&& n == 0 || w.core.chain_vanish_interval_ms == 0 ==> a.0.core.chain_pause_remaining
                == w.core.chain_pause_remaining
            &&& a.0.status == w.status && a.0.bombs == w.bombs && a.0.rocks == w.rocks
            &&& a.0.core.fall_tick_accum == w.core.fall_tick_accum
            &&& plain && gap_row(p.0, w.core.last_checkpoint_reported as int) ==> at(a.0.grid, p) is Empty
            &&& plain && !gap_row(p.0, w.core.last_checkpoint_reported as int) ==> at(a.0.grid, p) == at(
                field_after(w.grid, pull),
                p,
            )
            &&& plain ==> a.0.gravity == loose_after(w.grid, pull)
        }),
{
    let w = t.0;
    assert(w.pull() == pulls(w));
    let pull = pulls(w);
    let gone = cells_vanished(w.grid, pull);
    let colors = colors_among(gone) as int;
    let rocks = rocks_among(gone) as int;
    let a = escape_told(t);
    assert(a.1 =~= t.1 + escape_told((w, Seq::empty())).1);
    let caught = onto_player(w.grid, pull);
    if let Some(Cell::Item(effect)) = caught {
        crate::play_laws::law_items_are_told(a, effect);
        lemma_item_keeps(a, effect);
    }
    let b = catch_told(a, caught);
    let c = vanish_told(b, colors, rocks);
    law_vanishing_is_told(b, colors, rocks);
    let delay = c.0.landing_delay();
    let noted = c.0.noted(gone, delay);
    assert(on_grid(noted.grid, p) || (caught matches Some(cell) && cell is Item));
    if on_grid(noted.grid, p) {
        law_gaps(noted, delay, p);
    }
    let swept = noted.gaps_swept(delay);
    let after = chained(swept, colors > 0 || rocks > 0);
    assert(after.grid == swept.grid);
    assert(after.core.attack_power_pending == raised(w, colors + rocks));
    assert(tick_told(t) == (after, c.1) || tick_told(t) == missed((after, c.1), MissCause::CrushedByFallingBlock));
    assert(after.core.invincible == w.core.invincible);
    assert(after.player.lives == w.player.lives);
}

/// The last life ends the frame: nothing falls and nobody moves any more.
pub proof fn law_the_last_life_ends_the_frame(w: World, delta: u64)
    requires
        w.status == GameStatus::Playing,
        w.core.ascending_remaining matches Some(left) && left <= delta,
        w.player.lives <= 1,
    ensures
        !goes_on(w, delta),
        framed(w, delta) == risen((w.shown_on(delta), Seq::empty()), delta),
        framed(w, delta).0.status == GameStatus::GameOver,
        framed(w, delta).0.core.fall_tick_accum == w.core.fall_tick_accum,
        framed(w, delta).0.gravity == w.gravity,
{
}

/// Whoever comes back in a frame has used no air in it, and saved up no time.
pub proof fn law_coming_back_costs_no_air(w: World, delta: u64)
    requires
        tuned(w.core),
        w.status == GameStatus::Playing,
        w.core.ascending_remaining matches Some(left) && left <= delta,
        w.player.lives > 1,
        w.core.fall_tick_accum + delta < nanos(w.tick_ms()) <= u64::MAX,
        w.core.player_fall_tick_accum + delta < nanos(w.core.player_fall_tick_ms as int),
    ensures
        ({
            let f = framed(w, delta).0;
            &&& f.player.oxygen == 100_000_000_000
            &&& f.player.lives == w.player.lives - 1
            &&& f.player.elapsed_nanos == w.player.elapsed_nanos
            &&& f.core.move_cooldown_accum == w.core.move_cooldown_accum
            &&& f.core.drill_cooldown_accum == w.core.drill_cooldown_accum
            &&& f.core.player_fall_tick_accum == w.core.player_fall_tick_accum + delta
        }),
{
    let none = Seq::<GameEvent>::empty();
    let shown = w.shown_on(delta);
    let rose = risen((shown, none), delta);
    let awake = (rose.0.slid_on(delta).watched_on(delta), rose.1);
    assert(awake.0.core.ascending_remaining is None);
    assert(awake.0.player.oxygen == 100_000_000_000);
    let t = suffocated(breathed_on(awake, delta, true));
    assert(t == awake);
    assert(t.0.tick_ms() == w.tick_ms());
    law_gravity_keeps_time(t, delta);
    let m = stars_melted(gravity_ran(t, delta), delta);
    law_free_fall_keeps_time(m, delta);
    assert(goes_on(w, delta));
}

/// A frame is its beginning and, if it goes on, the free fall.
pub proof fn law_frames_have_two_parts(w: World, delta: u64)
    ensures
        goes_on(w, delta) ==> framed(w, delta) == player_fell(frame_begun(w, delta), delta),
        !goes_on(w, delta) ==> framed(w, delta) == frame_begun(w, delta),
        w.status != GameStatus::Playing ==> !goes_on(w, delta),
        w.status == GameStatus::Playing && w.core.ascending_remaining is None ==> goes_on(w, delta),
{
}

/// A star that melts is told: something is told exactly if a star melts.
pub proof fn law_melting_is_told(t: Tale, delta: u64)
    requires
        rectangular(t.0.grid, t.0.width as nat),
        t.0.grid.len() <= usize::MAX,
        t.0.player.row < t.0.grid.len(),
        delta / 1_000_000 <= u32::MAX,
    ensures
        ({
            let w = t.0;
            let ripe = |p: Spot|
                on_grid(w.grid, p) && w.player.row - 12 <= p.0 <= w.player.row + 12 && at(w.grid, p) is Star && at(
                    w.grid,
                    p,
                )->Star_visible_ms + delta / 1_000_000 >= 3000;
            &&& (forall|p: Spot| !#[trigger] ripe(p)) ==> stars_melted(t, delta).1 == t.1
            &&& (exists|p: Spot| #[trigger] ripe(p)) ==> stars_melted(t, delta).1.len() == t.1.len() + 1
        }),
{
    let w = t.0;
    let row = w.player.row as int;
    let ripe = |p: Spot|
        on_grid(w.grid, p) && w.player.row - 12 <= p.0 <= w.player.row + 12 && at(w.grid, p) is Star && at(
            w.grid,
            p,
        )->Star_visible_ms + delta / 1_000_000 >= 3000;
    let g = stars_watched(w.grid, row, (delta / 1_000_000) as u32);
    let what = crate::effects::ripe_stars(g, row);
    let s = crate::sweep::swept(g, what);
    assert(crate::listing::addressable(g)) by {
        assert forall|r: int| 0 <= r < g.len() implies (#[trigger] g[r]).len() <= usize::MAX by {
            assert(w.grid[r].len() == w.width);
        }
    }
    crate::listing::lemma_listing(g, s);
    let list = crate::listing::listing(g, s);
    assert(crate::sweep::haul(g, what).len() == list.len());
    assert forall|p: Spot| #[trigger] s.contains(p) <==> ripe(p) by {}
    if forall|p: Spot| !#[trigger] ripe(p) {
        if list.len() > 0 {
            assert(s.contains(crate::flood::spot(list[0])));
            assert(ripe(crate::flood::spot(list[0])));
        }
    }
    if exists|p: Spot| #[trigger] ripe(p) {
        let p = choose|p: Spot| #[trigger] ripe(p);
        assert(s.contains(p));
        assert(spots(list).contains(p));
    }
}

/// What a sweep takes is listed, each cell once, with what it held.
pub proof fn law_hauls(g: Grid, what: Sweep, p: Spot)
    requires
        addressable(g),
        on_grid(g, p),
    ensures
        ({
            let h = haul(g, what);
            &&& what.takes(p.0, at(g, p)) <==> exists|i: int| 0 <= i < h.len() && spot((#[trigger] h[i]).0) == p
            &&& forall|i: int| 0 <= i < h.len() ==> (#[trigger] h[i]).1 == at(g, spot(h[i].0))
            &&& forall|i: int, j: int|
                0 <= i < j < h.len() ==> (#[trigger] h[i]).0 != (#[trigger] h[j]).0
        }),
{
    let s = swept(g, what);
    lemma_listing(g, s);
    let list = listing(g, s);
    let h = haul(g, what);
    if what.takes(p.0, at(g, p)) {
        assert(s.contains(p));
        let i = choose|i: int| 0 <= i < list.len() && #[trigger] spot(list[i]) == p;
        assert(spot(h[i].0) == p);
    }
    if exists|i: int| 0 <= i < h.len() && spot((#[trigger] h[i]).0) == p {
        let i = choose|i: int| 0 <= i < h.len() && spot((#[trigger] h[i]).0) == p;
        assert(s.contains(spot(list[i])));
    }
    assert forall|i: int, j: int| 0 <= i < j < h.len() implies (#[trigger] h[i]).0 != (#[trigger] h[j]).0 by {
        assert(list[i] != list[j]);
    }
}

/// What each sweep takes.
pub proof fn law_what_sweeps_take(r: int, cell: Cell, row: usize, low: usize, to: usize, checkpoints: usize)
    requires
        0 <= r,
    ensures
        (Sweep::BlocksAbove { row }).takes(r, cell) <==> r < row && (cell is Color || cell is Rock || cell is Diamond
            || cell is Star),
        (Sweep::RipeStars { low, to }).takes(r, cell) <==> low <= r < to && cell is Star && cell->Star_visible_ms
            >= 3000,
        (Sweep::Everything { low, to }).takes(r, cell) <==> low <= r < to && !(cell is Empty),
        (Sweep::Gaps { checkpoints }).takes(r, cell) <==> !(cell is Empty) && gap_row(r, checkpoints as int),
{
    let n = checkpoints as int;
    if gap_row(r, n) {
        let k = r / 100;
        assert(crate::sweep::gap_start(k) == k * 100 + 5);
        assert(crate::sweep::in_gap(r, n));
    }
    if crate::sweep::in_gap(r, n) {
        let k = choose|k: int|
            1 <= k <= n && #[trigger] crate::sweep::gap_start(k) <= r < crate::sweep::gap_start(k) + 5 && k * 100 != 500;
        assert(k * 100 + 5 <= r < k * 100 + 10);
        assert(r / 100 == k);
    }
}

/// A block that an item or a checkpoint takes away above the player is seen to
/// flash at once.
pub proof fn law_cleared_blocks_flash(w: World, p: Spot)
    requires
        w.status == GameStatus::Playing,
        addressable(w.grid),
        on_grid(w.grid, p),
        p.0 < w.player.row,
        at(w.grid, p) is Color || at(w.grid, p) is Rock || at(w.grid, p) is Diamond || at(w.grid, p) is Star,
    ensures
        exists|i: int|
            w.vanished.len() <= i < w.above_cleared().vanished.len() && spot(
                (#[trigger] w.above_cleared().vanished[i]).pos,
            ) == p && w.above_cleared().vanished[i].kind == at(w.grid, p) && w.above_cleared().vanished[i].delay == 0,
{
    let what = Sweep::BlocksAbove { row: w.player.row };
    law_hauls(w.grid, what, p);
    let h = haul(w.grid, what);
    let i = choose|i: int| 0 <= i < h.len() && spot((#[trigger] h[i]).0) == p;
    let after = w.above_cleared();
    assert(spot(after.vanished[w.vanished.len() + i].pos) == p);
}

} // verus!
