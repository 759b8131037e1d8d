//! What holds of every game, whatever is done to it.
use vstd::prelude::*;

use crate::board::{rectangular, with_cell, Cell, ItemEffect, Pos};
use crate::bombs::resting_places;
use crate::constants::{
    least, ms, plus64, scaled_depth, FALL_SPEED_DEPTH_MAX_SPEEDUP_PERCENT, FIELD_DEPTH_M,
    INPUT_COOLDOWN_ACCUM_CAP_MS, LIVES_MAX, MOVE_ANIM_DURATION_MS, OXYGEN_DECAY_DEPTH_MAX_PERCENT, OXYGEN_MAX,
};
use crate::controls::{acted, pickup_used, pickups_used, shoved, strolled, stroked};
use crate::effects::{cleared_above, pushed_up};
use crate::fall::{cells_vanished, colors_among, is_pickup, onto_player, rocks_among};
use crate::field_laws::{law_nothing_is_left_above, law_what_is_in_view_stays};
use crate::flood::{at, on_grid, spot, spots, Spot};
use crate::frame::{
    breathed_on, catch_told, chained, drop_due, drop_told, drops_due, escape_told, felt_time, framed,
    gravity_ran, stars_melted, suffocated, tick_due, tick_told, ticks_due, vanish_told,
};
use crate::game::{
    checkpoint_at, move_accum_cap, sound, tuned, Core, GameEvent, GameStatus, InputAction, MissCause, Tale,
    World,
};
use crate::groups::Pickup;
use crate::journey::{checked, descended, goal_checked, levelled};
use crate::mishaps::{item_used, missed, risen};
use crate::physics::{
    drilled_facing, faced, stepped, DrillOutcome, FreeFallOutcome, LateralOutcome,
};
use crate::player::{level_at, Direction, Player};
use crate::tuning::tick_ms_at;

verus! {

/// Pausing and going on leaves the game as it was.
pub proof fn law_pausing_is_undone(w: World)
    ensures
        w.paused_or_not().paused_or_not() == w,
{
}

/// The choice at the end of a game is between two.
pub proof fn law_choosing_is_undone(w: World)
    ensures
        w.other_choice().other_choice() == w,
{
}

/// Only the five ways to move, face and drill do something to a game.
pub proof fn law_other_inputs_do_nothing(w: World, action: InputAction)
    requires
        !(action is MoveLeft || action is MoveRight || action is FaceUp || action is FaceDown
            || action is Drill),
    ensures
        acted(w, action) == (w, Seq::<GameEvent>::empty()),
{
}

/// A player who slides or rises to heaven does not react to input, and neither
/// does a game that is paused or has ended.
pub proof fn law_frozen_players_do_not_react(w: World, action: InputAction)
    requires
        w.frozen() || w.status != GameStatus::Playing,
    ensures
        acted(w, action) == (w, Seq::<GameEvent>::empty()),
{
}

/// Facing up or down neither moves the player nor touches the field.
pub proof fn law_facing_is_not_moving(w: World, action: InputAction)
    requires
        action is FaceUp || action is FaceDown,
    ensures
        ({
            let (after, events) = acted(w, action);
            &&& events.len() == 0
            &&& after == (World {
                player: Player {
                    facing: after.player.facing,
                    bumped_direction: after.player.bumped_direction,
                    ..w.player
                },
                ..w
            })
        }),
{
}

/// Drilling never moves the player.
pub proof fn law_drilling_is_not_moving(w: World)
    ensures
        stroked(w).0.here() == w.here(),
{
}

/// Using an item leaves the clocks of steps and strokes alone.
proof fn lemma_item_keeps_clocks(t: Tale, effect: ItemEffect)
    ensures
        item_used(t, effect).0.core.drill_cooldown_accum == t.0.core.drill_cooldown_accum,
        item_used(t, effect).0.core.move_cooldown_accum == t.0.core.move_cooldown_accum,
        item_used(t, effect).0.core.move_cooldown_ms == t.0.core.move_cooldown_ms,
{
}

proof fn lemma_pickups_keep_clocks(t: Tale, first: Option<Pickup>, second: Option<Pickup>)
    ensures
        pickups_used(t, first, second).0.core.drill_cooldown_accum == t.0.core.drill_cooldown_accum,
        pickups_used(t, first, second).0.core.move_cooldown_accum == t.0.core.move_cooldown_accum,
        pickups_used(t, first, second).0.core.move_cooldown_ms == t.0.core.move_cooldown_ms,
{
    let told = if first == Some(Pickup::Oxygen) || second == Some(Pickup::Oxygen) {
        (t.0, t.1.push(GameEvent::OxygenCollected))
    } else {
        t
    };
    if let Some(Pickup::Item(effect)) = first {
        lemma_item_keeps_clocks(told, effect);
    }
    if let Some(Pickup::Item(effect)) = second {
        lemma_item_keeps_clocks(pickup_used(told, first), effect);
    }
}

/// A step pays for itself alone.
proof fn lemma_step_pays(w: World, dir: Direction)
    ensures
        strolled(w, dir).0.core.drill_cooldown_accum == w.core.drill_cooldown_accum,
        strolled(w, dir).0.core.move_cooldown_ms == w.core.move_cooldown_ms,
        strolled(w, dir).0.core.move_cooldown_accum == (if w.may_step() {
            w.step_paid().core.move_cooldown_accum
        } else {
            w.core.move_cooldown_accum
        }),
{
    let shove = shoved(w.step_paid(), dir);
    assert(shove.world.core.drill_cooldown_accum == w.core.drill_cooldown_accum);
    assert(shove.world.core.move_cooldown_accum == w.step_paid().core.move_cooldown_accum);
    assert(shove.world.core.move_cooldown_ms == w.core.move_cooldown_ms);
    match shove.climb {
        Some(taken) => {
            lemma_pickups_keep_clocks((shove.world, Seq::empty()), taken.0, taken.1);
        },
        None => {
            let s = stepped(shove.world.grid, shove.world.width as int, shove.world.player, dir);
            let t = (
                (World { grid: s.grid, player: s.player, ..shove.world }).moved_from(
                    w.here(),
                    ms(MOVE_ANIM_DURATION_MS as int) as u64,
                ),
                Seq::<GameEvent>::empty(),
            );
            assert(t.0.core.drill_cooldown_accum == w.core.drill_cooldown_accum);
            assert(t.0.core.move_cooldown_accum == w.step_paid().core.move_cooldown_accum);
            assert(t.0.core.move_cooldown_ms == w.core.move_cooldown_ms);
            match s.outcome {
                LateralOutcome::MovedLevelAndCollectedItem(effect) => {
                    lemma_item_keeps_clocks(t, effect);
                },
                LateralOutcome::ClimbedStep { overhead, landing } => {
                    lemma_pickups_keep_clocks(t, overhead, landing);
                },
                _ => {},
            }
        },
    }
}

/// Steps and strokes do not wait for each other: each leaves alone the time
/// that is saved up for the other.
pub proof fn law_steps_and_strokes_do_not_compete(w: World, dir: Direction)
    ensures
        strolled(w, dir).0.core.drill_cooldown_accum == w.core.drill_cooldown_accum,
        stroked(w).0.core.move_cooldown_accum == w.core.move_cooldown_accum,
{
    lemma_step_pays(w, dir);
}

/// However long the player has waited, two steps or two strokes never follow
/// each other at once.
pub proof fn law_no_two_at_once(w: World, dir: Direction)
    requires
        tuned(w.core),
        w.core.move_cooldown_accum <= move_accum_cap(w.core),
        w.core.drill_cooldown_accum <= ms(INPUT_COOLDOWN_ACCUM_CAP_MS as int),
    ensures
        w.may_step() ==> !strolled(w, dir).0.may_step(),
        w.may_drill() ==> !stroked(w).0.may_drill(),
{
    lemma_step_pays(w, dir);
}

/// A game that is paused or has ended stands still: nothing on the field and
/// nothing about the player changes, and nothing is told.
pub proof fn law_stopped_games_stand_still(w: World, delta: u64)
    requires
        w.status != GameStatus::Playing,
    ensures
        ({
            let (after, events) = framed(w, delta);
            &&& events.len() == 0
            &&& after.grid == w.grid
            &&& after.player == w.player
            &&& after.status == w.status
            &&& after.gravity == w.gravity
            &&& after.bombs == w.bombs
            &&& after.moves == w.moves
            &&& after.core.ascending_remaining == w.core.ascending_remaining
            &&& after.core.rng == w.core.rng
        }),
{
}

/// A paused game does not even let falling blocks arrive.
pub proof fn law_paused_blocks_hang(w: World, delta: u64)
    requires
        w.status == GameStatus::Paused,
    ensures
        framed(w, delta).0.core.fall_tick_accum == w.core.fall_tick_accum,
{
}

/// The player is where they were, with the lives they had, no less air, and
/// still rises to heaven.
pub open spec fn rests(before: World, after: World) -> bool {
    &&& after.here() == before.here()
    &&& after.player.lives == before.player.lives
    &&& after.player.oxygen >= before.player.oxygen
    &&& after.player.oxygen <= OXYGEN_MAX
    &&& after.status == before.status
    &&& after.core.ascending_remaining == before.core.ascending_remaining
}

proof fn lemma_item_rests(t: Tale, effect: ItemEffect)
    ensures
        item_used(t, effect).0.player == t.0.player,
        item_used(t, effect).0.status == t.0.status,
        item_used(t, effect).0.core.ascending_remaining == t.0.core.ascending_remaining,
        item_used(t, effect).0.core.invincible == t.0.core.invincible,
{
}

/// A tick of gravity leaves a dying player in peace.
proof fn lemma_tick_rests(t: Tale)
    requires
        t.0.dying(),
        t.0.player.oxygen <= OXYGEN_MAX,
    ensures
        rests(t.0, tick_told(t).0),
{
    let w = t.0;
    let pull = w.pull();
    let a = escape_told(t);
    assert(rests(w, a.0));
    let caught = onto_player(w.grid, pull);
    let b = catch_told(a, caught);
    if let Some(Cell::Item(effect)) = caught {
        lemma_item_rests(a, effect);
    }
    assert(rests(w, b.0));
    let gone = cells_vanished(w.grid, pull);
    let c = vanish_told(b, colors_among(gone) as int, rocks_among(gone) as int);
    assert(rests(w, c.0));
}

proof fn lemma_ticks_rest(t: Tale, tick: int, n: nat)
    requires
        t.0.dying(),
        t.0.player.oxygen <= OXYGEN_MAX,
    ensures
        rests(t.0, ticks_due(t, tick, n).0),
    decreases n,
{
    if n > 0 {
        let w = t.0.with_core(
            Core { fall_tick_accum: (t.0.core.fall_tick_accum - tick) as u64, ..t.0.core },
        );
        lemma_tick_rests((w, t.1));
        assert(rests(t.0, tick_due(t, tick).0));
        lemma_ticks_rest(tick_due(t, tick), tick, (n - 1) as nat);
    }
}

/// While the player rises to heaven, blocks go on falling, but the player stays
/// where they are, keeps their lives, and uses no air.
pub proof fn law_the_dying_rest(w: World, delta: u64)
    requires
        w.status == GameStatus::Playing,
        w.core.ascending_remaining matches Some(left) && left > delta,
        w.player.oxygen <= OXYGEN_MAX,
    ensures
        ({
            let after = framed(w, delta).0;
            &&& after.here() == w.here()
            &&& after.player.lives == w.player.lives
            &&& after.player.oxygen >= w.player.oxygen
            &&& after.status == GameStatus::Playing
            &&& after.dying()
        }),
{
    let shown = w.shown_on(delta);
    let rose = risen((shown, Seq::empty()), delta);
    let awake = (rose.0.slid_on(delta).watched_on(delta), rose.1);
    assert(awake.0.core.ascending_remaining == rose.0.core.ascending_remaining);
    let t = suffocated(breathed_on(awake, delta, shown.dying()));
    assert(t == awake);
    let tick = ms(t.0.tick_ms());
    let accum = plus64(t.0.core.fall_tick_accum as int, delta as int);
    let start = t.0.with_core(Core { fall_tick_accum: accum as u64, ..t.0.core });
    lemma_ticks_rest((start, t.1), tick, (accum / tick) as nat);
    assert(stars_melted(gravity_ran(t, delta), delta).0.dying());
}

/// Nothing among the events costs a life, or brings anyone back.
pub open spec fn harmless(events: Seq<GameEvent>) -> bool {
    forall|i: int|
        0 <= i < events.len() ==> !((#[trigger] events[i]) is LifeLost || events[i] is GameOverMiss
            || events[i] is Revived)
}

/// How many of the events tell of a miss that was averted.
pub open spec fn averted_among(events: Seq<GameEvent>) -> nat
    decreases events.len(),
{
    if events.len() == 0 {
        0
    } else {
        averted_among(events.drop_last()) + (if events.last() is MissAverted {
            1nat
        } else {
            0nat
        })
    }
}

broadcast proof fn lemma_averted_pushed(events: Seq<GameEvent>, event: GameEvent)
    ensures
        #[trigger] averted_among(events.push(event)) == averted_among(events) + (if event is MissAverted {
            1nat
        } else {
            0nat
        }),
{
    assert(events.push(event).drop_last() =~= events);
}

/// An invincible player is none the worse: they live, with no fewer lives than
/// they had or can have, nothing was told that costs one, and what was told to
/// be averted has been counted.
pub open spec fn unharmed(before: Tale, after: Tale) -> bool {
    &&& after.0.core.invincible
    &&& !after.0.dying()
    &&& least(before.0.player.lives as int, LIVES_MAX as int) <= after.0.player.lives
    &&& after.0.status == before.0.status || after.0.status == GameStatus::Cleared
    &&& harmless(after.1)
    &&& averted_among(before.1) <= averted_among(after.1)
    &&& after.0.core.misses_averted == least(
        before.0.core.misses_averted + averted_among(after.1) - averted_among(before.1),
        u32::MAX as int,
    )
}

/// An invincible player who lives.
pub open spec fn immune(w: World) -> bool {
    w.core.invincible && !w.dying()
}

proof fn lemma_unharmed_still(a: Tale, b: Tale, c: Tale)
    requires
        unharmed(a, b),
        unharmed(b, c),
    ensures
        unharmed(a, c),
{
}

proof fn lemma_item_unharmed(t: Tale, effect: ItemEffect)
    requires
        immune(t.0),
        harmless(t.1),
    ensures
        unharmed(t, item_used(t, effect)),
{
    broadcast use lemma_averted_pushed;

    lemma_item_rests(t, effect);
}

proof fn lemma_miss_unharmed(t: Tale, cause: MissCause)
    requires
        immune(t.0),
        harmless(t.1),
    ensures
        unharmed(t, missed(t, cause)),
{
    broadcast use lemma_averted_pushed;

}

proof fn lemma_escape_unharmed(t: Tale)
    requires
        immune(t.0),
        harmless(t.1),
    ensures
        unharmed(t, escape_told(t)),
{
    broadcast use lemma_averted_pushed;

}

proof fn lemma_catch_unharmed(t: Tale, caught: Option<Cell>)
    requires
        immune(t.0),
        harmless(t.1),
    ensures
        unharmed(t, catch_told(t, caught)),
{
    broadcast use lemma_averted_pushed;

    if let Some(Cell::Item(effect)) = caught {
        lemma_item_unharmed(t, effect);
    }
}

proof fn lemma_vanish_unharmed(t: Tale, colors: int, rocks: int)
    requires
        immune(t.0),
        harmless(t.1),
    ensures
        unharmed(t, vanish_told(t, colors, rocks)),
{
    broadcast use lemma_averted_pushed;

}

proof fn lemma_sweep_unharmed(t: Tale, gone: Seq<(Pos, Cell)>, delay: u64, vanished: bool)
    requires
        immune(t.0),
        harmless(t.1),
    ensures
        unharmed(t, (chained(t.0.noted(gone, delay).gaps_swept(delay), vanished), t.1)),
{
    broadcast use lemma_averted_pushed;

}

proof fn lemma_tick_unharmed(t: Tale)
    requires
        immune(t.0),
        harmless(t.1),
    ensures
        unharmed(t, tick_told(t)),
{
    broadcast use lemma_averted_pushed;

    let pull = t.0.pull();
    let gone = cells_vanished(t.0.grid, pull);
    let colors = colors_among(gone) as int;
    let rocks = rocks_among(gone) as int;
    let a = escape_told(t);
    lemma_escape_unharmed(t);
    let b = catch_told(a, onto_player(t.0.grid, pull));
    lemma_catch_unharmed(a, onto_player(t.0.grid, pull));
    let c = vanish_told(b, colors, rocks);
    lemma_vanish_unharmed(b, colors, rocks);
    let delay = c.0.landing_delay();
    let after = chained(c.0.noted(gone, delay).gaps_swept(delay), colors > 0 || rocks > 0);
    lemma_sweep_unharmed(c, gone, delay, colors > 0 || rocks > 0);
    lemma_miss_unharmed((after, c.1), MissCause::CrushedByFallingBlock);
    assert(tick_told(t) == (after, c.1) || tick_told(t) == missed(
        (after, c.1),
        MissCause::CrushedByFallingBlock,
    ));
}

proof fn lemma_ticks_unharmed(t: Tale, tick: int, n: nat)
    requires
        immune(t.0),
        harmless(t.1),
    ensures
        unharmed(t, ticks_due(t, tick, n)),
    decreases n,
{
    broadcast use lemma_averted_pushed;

    if n > 0 {
        let w = t.0.with_core(
            Core { fall_tick_accum: (t.0.core.fall_tick_accum - tick) as u64, ..t.0.core },
        );
        lemma_tick_unharmed((w, t.1));
        assert(unharmed(t, tick_due(t, tick)));
        lemma_ticks_unharmed(tick_due(t, tick), tick, (n - 1) as nat);
    }
}

proof fn lemma_descent_unharmed(t: Tale)
    requires
        immune(t.0),
        harmless(t.1),
    ensures
        unharmed(t, descended(t)),
{
    broadcast use lemma_averted_pushed;

    let a = levelled(t);
    assert(unharmed(t, a));
    let b = checked(a);
    assert(unharmed(t, b));
    let c = goal_checked(b);
    assert(unharmed(t, c));
}

proof fn lemma_drop_unharmed(t: Tale)
    requires
        immune(t.0),
        harmless(t.1),
    ensures
        unharmed(t, drop_due(t)),
{
    broadcast use lemma_averted_pushed;

    let a = (t.0.dropped(), t.1);
    assert(unharmed(t, a));
    let outcome = t.0.drop_outcome().outcome;
    if let FreeFallOutcome::FellAndCollectedItem(effect) = outcome {
        lemma_item_unharmed(a, effect);
    }
    let told = drop_told(a, outcome);
    assert(unharmed(t, told));
    lemma_descent_unharmed(told);
    lemma_unharmed_still(t, told, descended(told));
}

proof fn lemma_drops_unharmed(t: Tale, n: nat)
    requires
        immune(t.0),
        harmless(t.1),
    ensures
        unharmed(t, drops_due(t, n)),
    decreases n,
{
    if n > 0 && t.0.status == GameStatus::Playing {
        lemma_drop_unharmed(t);
        let next = drop_due(t);
        lemma_drops_unharmed(next, (n - 1) as nat);
        lemma_unharmed_still(t, next, drops_due(next, (n - 1) as nat));
    }
}

/// The passing of time costs an invincible player no life, and brings nobody
/// back. The count of averted misses grows by those that are told, as far as it
/// goes.
pub proof fn law_time_does_not_hurt_the_invincible(w: World, delta: u64)
    requires
        immune(w),
    ensures
        unharmed((w, Seq::empty()), framed(w, delta)),
        w.player.lives <= LIVES_MAX ==> framed(w, delta).0.player.lives >= w.player.lives,
        framed(w, delta).0.core.misses_averted == least(
            w.core.misses_averted + averted_among(framed(w, delta).1),
            u32::MAX as int,
        ),
{
    broadcast use lemma_averted_pushed;

    let shown = w.shown_on(delta);
    if w.status == GameStatus::Playing {
        let rose = risen((shown, Seq::empty()), delta);
        assert(unharmed((w, Seq::empty()), rose));
        let awake = (rose.0.slid_on(delta).watched_on(delta), rose.1);
        assert(unharmed((w, Seq::empty()), awake));
        let breathed = breathed_on(awake, delta, shown.dying());
        assert(unharmed((w, Seq::empty()), breathed));
        lemma_miss_unharmed(breathed, MissCause::OxygenOut);
        let t = suffocated(breathed);
        assert(unharmed((w, Seq::empty()), t));
        let tick = ms(t.0.tick_ms());
        let accum = plus64(t.0.core.fall_tick_accum as int, delta as int);
        let start = t.0.with_core(Core { fall_tick_accum: accum as u64, ..t.0.core });
        lemma_ticks_unharmed((start, t.1), tick, (accum / tick) as nat);
        let pulled = gravity_ran(t, delta);
        assert(unharmed((w, Seq::empty()), pulled));
        let melted = stars_melted(pulled, delta);
        assert(unharmed((w, Seq::empty()), melted));
        let fall = plus64(melted.0.core.player_fall_tick_accum as int, delta as int);
        let from = melted.0.with_core(Core { player_fall_tick_accum: fall as u64, ..melted.0.core });
        lemma_drops_unharmed(
            (from, melted.1),
            (fall / ms(melted.0.core.player_fall_tick_ms as int)) as nat,
        );
    }
}

proof fn lemma_pickups_unharmed(t: Tale, first: Option<Pickup>, second: Option<Pickup>)
    requires
        immune(t.0),
        harmless(t.1),
    ensures
        unharmed(t, pickups_used(t, first, second)),
{
    broadcast use lemma_averted_pushed;

    let told = if first == Some(Pickup::Oxygen) || second == Some(Pickup::Oxygen) {
        (t.0, t.1.push(GameEvent::OxygenCollected))
    } else {
        t
    };
    assert(harmless(told.1));
    if let Some(Pickup::Item(effect)) = first {
        lemma_item_unharmed(told, effect);
    }
    let next = pickup_used(told, first);
    assert(unharmed(t, next));
    if let Some(Pickup::Item(effect)) = second {
        lemma_item_unharmed(next, effect);
    }
}

proof fn lemma_step_unharmed(w: World, dir: Direction)
    requires
        immune(w),
    ensures
        unharmed((w, Seq::empty()), strolled(w, dir)),
{
    broadcast use lemma_averted_pushed;

    let shove = shoved(w.step_paid(), dir);
    let none = Seq::<GameEvent>::empty();
    assert(unharmed((w, Seq::empty()), (shove.world, none)));
    match shove.climb {
        Some(taken) => {
            lemma_pickups_unharmed((shove.world, none), taken.0, taken.1);
        },
        None => {
            let s = stepped(shove.world.grid, shove.world.width as int, shove.world.player, dir);
            let t = (
                (World { grid: s.grid, player: s.player, ..shove.world }).moved_from(
                    w.here(),
                    ms(MOVE_ANIM_DURATION_MS as int) as u64,
                ),
                none,
            );
            assert(unharmed((w, Seq::empty()), t));
            match s.outcome {
                LateralOutcome::MovedLevelAndCollectedItem(effect) => {
                    lemma_item_unharmed(t, effect);
                },
                LateralOutcome::ClimbedStep { overhead, landing } => {
                    lemma_pickups_unharmed(t, overhead, landing);
                },
                _ => {},
            }
        },
    }
}

proof fn lemma_stroke_unharmed(w: World)
    requires
        immune(w),
    ensures
        unharmed((w, Seq::empty()), stroked(w)),
{
    broadcast use lemma_averted_pushed;

    let ready = w.stroke_paid();
    let target = faced(w.player);
    let d = drilled_facing(w.grid, w.player, w.gravity, spots(resting_places(w.bombs)));
    let t = (World { grid: d.grid, player: d.player, ..ready }, Seq::<GameEvent>::empty());
    assert(unharmed((w, Seq::empty()), t));
    match d.outcome {
        DrillOutcome::RockDestroyed { blocks } => {
            let told = (
                t.0.armed(blocks as int),
                t.1.push(GameEvent::DrillImpact).push(GameEvent::RockDestroyed { blocks }),
            );
            assert(unharmed((w, Seq::empty()), told));
            lemma_miss_unharmed(told, MissCause::OxygenOut);
        },
        DrillOutcome::CrushedByUnstableOverhead => {
            lemma_miss_unharmed(t, MissCause::DrilledIntoFallingBlock);
        },
        _ => {},
    }
}

/// What an invincible player does costs them no life, and brings nobody back.
/// The count of averted misses grows by those that are told, as far as it goes.
pub proof fn law_the_invincible_do_not_hurt_themselves(w: World, action: InputAction)
    requires
        immune(w),
    ensures
        unharmed((w, Seq::empty()), acted(w, action)),
        w.player.lives <= LIVES_MAX ==> acted(w, action).0.player.lives >= w.player.lives,
        acted(w, action).0.core.misses_averted == least(
            w.core.misses_averted + averted_among(acted(w, action).1),
            u32::MAX as int,
        ),
{
    broadcast use lemma_averted_pushed;

    lemma_step_unharmed(w, Direction::Left);
    lemma_step_unharmed(w, Direction::Right);
    lemma_stroke_unharmed(w);
}

/// A level, and a checkpoint, is told once: looking again tells nothing new.
pub proof fn law_depths_are_told_once(t: Tale)
    requires
        t.0.player.row < usize::MAX,
    ensures
        levelled(levelled(t)) == levelled(t),
        checked(checked(t)) == checked(t),
{
    let level = level_at(t.0.player.row + 1);
    assert(0 <= level <= t.0.player.row + 1);
    let checkpoint = checkpoint_at(t.0.player.row + 1);
    assert(0 <= checkpoint <= t.0.player.row + 1);
    let a = levelled(t);
    assert(a.0.player.row == t.0.player.row);
    assert(a.0.core.last_level_reported >= level);
    let b = checked(t);
    assert(b.0.player.row == t.0.player.row);
    assert(b.0.core.last_checkpoint_reported >= checkpoint);
}

/// A player who has come back stands on a free cell, with no block above them.
pub proof fn law_the_returned_are_free(t: Tale, delta: u64, p: Spot)
    requires
        sound(t.0),
        t.0.status == GameStatus::Playing,
        t.0.core.ascending_remaining matches Some(left) && left <= delta,
        on_grid(t.0.grid, p),
        p.0 < t.0.player.row || p == spot(t.0.here()),
    ensures
        ({
            let cell = at(risen(t, delta).0.grid, p);
            cell is Empty || (p.0 < t.0.player.row && is_pickup(cell))
        }),
{
    let row = t.0.player.row;
    let width = t.0.width as nat;
    let emptied = with_cell(t.0.grid, row as int, t.0.player.col as int, Cell::Empty);
    assert(t.0.grid[row as int].len() == width);
    assert(t.0.grid[p.0].len() == width);
    assert(rectangular(emptied, width));
    assert(on_grid(emptied, p));
    assert(at(emptied, spot(t.0.here())) is Empty);
    if p.0 < row {
        law_nothing_is_left_above(emptied, width, row, p);
    } else {
        law_what_is_in_view_stays(emptied, width, row, p);
    }
    law_what_is_in_view_stays(emptied, width, row, spot(t.0.here()));
    let g = cleared_above(emptied, row);
    assert(pushed_up(g, row as int, t.0.player.col as int) == g);
}

/// The deeper, the faster: a tick of gravity never takes longer further down.
pub proof fn law_deeper_is_faster(tick_ms: int, depth_m: int, deeper_m: int)
    requires
        0 <= tick_ms,
        0 <= depth_m <= deeper_m,
    ensures
        tick_ms_at(tick_ms, deeper_m) <= tick_ms_at(tick_ms, depth_m),
{
    let a = scaled_depth(depth_m);
    let b = scaled_depth(deeper_m);
    let x = 100 * FIELD_DEPTH_M - a * (100 - FALL_SPEED_DEPTH_MAX_SPEEDUP_PERCENT);
    let y = 100 * FIELD_DEPTH_M - b * (100 - FALL_SPEED_DEPTH_MAX_SPEEDUP_PERCENT);
    assert(y <= x) by (nonlinear_arith)
        requires
            a <= b,
            x == 100000 - a * 50,
            y == 100000 - b * 50,
    ;
    assert(tick_ms * y <= tick_ms * x) by (nonlinear_arith)
        requires
            y <= x,
            0 <= tick_ms,
    ;
}

/// The deeper, the thinner the air: the same time never feels shorter further
/// down.
pub proof fn law_deeper_is_harder(delta: int, depth_m: int, deeper_m: int)
    requires
        0 <= delta,
        0 <= depth_m <= deeper_m,
    ensures
        delta <= felt_time(delta, depth_m) <= felt_time(delta, deeper_m),
{
    let a = scaled_depth(depth_m);
    let b = scaled_depth(deeper_m);
    let x = 100 * FIELD_DEPTH_M + a * (OXYGEN_DECAY_DEPTH_MAX_PERCENT - 100);
    let y = 100 * FIELD_DEPTH_M + b * (OXYGEN_DECAY_DEPTH_MAX_PERCENT - 100);
    assert(100000 <= x <= y) by (nonlinear_arith)
        requires
            0 <= a <= b,
            x == 100000 + a * 100,
            y == 100000 + b * 100,
    ;
    assert(delta * 100000 <= delta * x <= delta * y) by (nonlinear_arith)
        requires
            100000 <= x <= y,
            0 <= delta,
    ;
}

/// A block that loses its support shakes for at least a tick before it falls,
/// unless the settings say that blocks do not shake.
pub proof fn law_blocks_shake_first(w: World)
    requires
        sound(w),
    ensures
        w.shake_count() == 0 <==> w.core.shake_duration_ms == 0,
{
}

/// Going back in time gives back the moment itself: field, player, bombs and
/// the luck of the draw. What is not undone keeps its value, and one rewind is
/// used up.
pub proof fn law_going_back_gives_the_moment_back(w: World, past: World)
    requires
        w.may_rewind(),
    ensures
        ({
            let back = w.rewound(past);
            &&& back.grid == past.grid
            &&& back.player == past.player
            &&& back.status == past.status
            &&& back.gravity == past.gravity
            &&& back.bombs == past.bombs
            &&& back.core.rng == past.core.rng
            &&& back.core.frame_counter == w.core.frame_counter
            &&& back.core.invincible == w.core.invincible
            &&& back.core.misses_averted == w.core.misses_averted
            &&& back.core.rewind_stock == w.core.rewind_stock - 1
            &&& back.core.rewind_stock_max == w.core.rewind_stock_max
        }),
{
}

} // verus!
