//! Going back in time really does give the moment back: the same inputs at the
//! same times lead to the same future.
use vstd::prelude::*;

use crate::board::{with_cell, Cell, ItemEffect, Pos};
use crate::bombs::resting_places;
use crate::constants::{ms, plus64, MOVE_ANIM_DURATION_MS};
use crate::controls::{
    acted, air_checked, pickup_used, pickups_used, shoved, step_told, stroke_told, strolled, stroked,
};
use crate::fall::{cells_vanished, colors_among, onto_player, rocks_among};
use crate::flood::spots;
use crate::frame::{
    air_warned, breathed_on, catch_told, chained, drop_due, drop_told, drops_due, escape_told, framed,
    gravity_ran, player_fell, stars_melted, suffocated, tick_due, tick_told, ticks_due, vanish_told,
};
use crate::game::{checkpoint_at, Core, GameEvent, GameStatus, InputAction, MissCause, Tale, World};
use crate::groups::Pickup;
use crate::journey::{checked, descended, goal_checked, levelled};
use crate::mishaps::{averted, come_back, item_used, laid_to_rest, missed, risen};
use crate::physics::{crushes_player, drilled_facing, stepped, DrillOutcome, FreeFallOutcome, LateralOutcome};
use crate::player::Direction;
use crate::screens::started;
use crate::settings::Settings;
use crate::state_hash::{digest, law_digest_of_what_counts};

verus! {

/// The world without what is only counted: frames, escapes by invincibility,
/// and rewinds.
pub open spec fn uncounted(w: World) -> World {
    w.with_core(
        Core { frame_counter: 0, misses_averted: 0, rewind_stock: 0, rewind_stock_max: 0, ..w.core },
    )
}

/// The worlds differ at most in what is only counted.
pub open spec fn same_play(a: World, b: World) -> bool {
    uncounted(a) == uncounted(b)
}

/// The same has happened, and the worlds differ at most in what is only counted.
pub open spec fn same_tale(s: Tale, t: Tale) -> bool {
    same_play(s.0, t.0) && s.1 == t.1
}

/// What is the same in worlds that differ at most in what is only counted.
proof fn lemma_same_parts(a: World, b: World)
    requires
        same_play(a, b),
    ensures
        a.grid == b.grid,
        a.width == b.width,
        a.player == b.player,
        a.status == b.status,
        a.gravity == b.gravity,
        a.moves == b.moves,
        a.vanished == b.vanished,
        a.exploded == b.exploded,
        a.bombs == b.bombs,
        a.rocks == b.rocks,
        b.core == (Core {
            frame_counter: b.core.frame_counter,
            misses_averted: b.core.misses_averted,
            rewind_stock: b.core.rewind_stock,
            rewind_stock_max: b.core.rewind_stock_max,
            ..a.core
        }),
{
    assert(uncounted(a).grid == uncounted(b).grid);
    assert(uncounted(a).core == uncounted(b).core);
}

proof fn lemma_noted(a: World, b: World, gone: Seq<(Pos, Cell)>, delay: u64)
    requires
        same_play(a, b),
    ensures
        same_play(a.noted(gone, delay), b.noted(gone, delay)),
{
    lemma_same_parts(a, b);
}

proof fn lemma_above_cleared(a: World, b: World)
    requires
        same_play(a, b),
    ensures
        same_play(a.above_cleared(), b.above_cleared()),
{
    lemma_same_parts(a, b);
}

proof fn lemma_item_used(s: Tale, t: Tale, effect: ItemEffect)
    requires
        same_tale(s, t),
    ensures
        same_tale(item_used(s, effect), item_used(t, effect)),
{
    lemma_same_parts(s.0, t.0);
    lemma_above_cleared(s.0, t.0);
}

proof fn lemma_averted(s: Tale, t: Tale, cause: MissCause)
    requires
        same_tale(s, t),
    ensures
        same_tale(averted(s, cause), averted(t, cause)),
{
    lemma_same_parts(s.0, t.0);
}

proof fn lemma_missed(s: Tale, t: Tale, cause: MissCause)
    requires
        same_tale(s, t),
    ensures
        same_tale(missed(s, cause), missed(t, cause)),
{
    lemma_same_parts(s.0, t.0);
    lemma_averted(s, t, cause);
}

proof fn lemma_laid_to_rest(s: Tale, t: Tale)
    requires
        same_tale(s, t),
    ensures
        same_tale(laid_to_rest(s), laid_to_rest(t)),
{
    lemma_same_parts(s.0, t.0);
    lemma_above_cleared(s.0, t.0);
    lemma_same_parts(s.0.above_cleared(), t.0.above_cleared());
}

proof fn lemma_come_back(s: Tale, t: Tale)
    requires
        same_tale(s, t),
    ensures
        same_tale(come_back(s), come_back(t)),
{
    lemma_same_parts(s.0, t.0);
}

proof fn lemma_risen(s: Tale, t: Tale, delta: u64)
    requires
        same_tale(s, t),
    ensures
        same_tale(risen(s, delta), risen(t, delta)),
{
    lemma_same_parts(s.0, t.0);
    match s.0.core.ascending_remaining {
        None => {},
        Some(remaining) => {
            if remaining <= delta {
                let row = s.0.player.row as int;
                let col = s.0.player.col as int;
                let a = (
                    World {
                        grid: with_cell(s.0.grid, row, col, Cell::Empty),
                        core: Core { ascending_remaining: None, ..s.0.core },
                        ..s.0
                    },
                    s.1,
                );
                let b = (
                    World {
                        grid: with_cell(t.0.grid, row, col, Cell::Empty),
                        core: Core { ascending_remaining: None, ..t.0.core },
                        ..t.0
                    },
                    t.1,
                );
                assert(same_tale(a, b));
                lemma_laid_to_rest(a, b);
                lemma_come_back(laid_to_rest(a), laid_to_rest(b));
            }
        },
    }
}

proof fn lemma_descended(s: Tale, t: Tale)
    requires
        same_tale(s, t),
    ensures
        same_tale(descended(s), descended(t)),
{
    lemma_same_parts(s.0, t.0);
    let (a, b) = (levelled(s), levelled(t));
    assert(same_tale(a, b));
    lemma_checked(a, b);
    let (c, d) = (checked(a), checked(b));
    lemma_same_parts(c.0, d.0);
    let (e, f) = (goal_checked(c), goal_checked(d));
    assert(same_tale(e, f));
    lemma_same_parts(e.0, f.0);
}

proof fn lemma_checked(s: Tale, t: Tale)
    requires
        same_tale(s, t),
    ensures
        same_tale(checked(s), checked(t)),
{
    lemma_same_parts(s.0, t.0);
    let checkpoint = checkpoint_at(s.0.player.row + 1);
    let a = s.0.with_core(Core { last_checkpoint_reported: checkpoint as usize, ..s.0.core });
    let b = t.0.with_core(Core { last_checkpoint_reported: checkpoint as usize, ..t.0.core });
    assert(same_play(a, b));
    lemma_above_cleared(a, b);
    lemma_same_parts(a.above_cleared(), b.above_cleared());
}

proof fn lemma_pickup_used(s: Tale, t: Tale, pickup: Option<Pickup>)
    requires
        same_tale(s, t),
    ensures
        same_tale(pickup_used(s, pickup), pickup_used(t, pickup)),
{
    if let Some(Pickup::Item(effect)) = pickup {
        lemma_item_used(s, t, effect);
    }
}

proof fn lemma_pickups_used(s: Tale, t: Tale, first: Option<Pickup>, second: Option<Pickup>)
    requires
        same_tale(s, t),
    ensures
        same_tale(pickups_used(s, first, second), pickups_used(t, first, second)),
{
    let oxygen = first == Some(Pickup::Oxygen) || second == Some(Pickup::Oxygen);
    let a = if oxygen {
        (s.0, s.1.push(GameEvent::OxygenCollected))
    } else {
        s
    };
    let b = if oxygen {
        (t.0, t.1.push(GameEvent::OxygenCollected))
    } else {
        t
    };
    lemma_pickup_used(a, b, first);
    lemma_pickup_used(pickup_used(a, first), pickup_used(b, first), second);
}

proof fn lemma_step_told(s: Tale, t: Tale, outcome: LateralOutcome)
    requires
        same_tale(s, t),
    ensures
        same_tale(step_told(s, outcome), step_told(t, outcome)),
{
    match outcome {
        LateralOutcome::MovedLevelAndCollectedItem(effect) => {
            lemma_item_used(s, t, effect);
        },
        LateralOutcome::ClimbedStep { overhead, landing } => {
            lemma_pickups_used(s, t, overhead, landing);
        },
        _ => {},
    }
}

proof fn lemma_shoved(a: World, b: World, dir: Direction)
    requires
        same_play(a, b),
    ensures
        same_play(shoved(a, dir).world, shoved(b, dir).world),
        shoved(a, dir).climb == shoved(b, dir).climb,
{
    lemma_same_parts(a, b);
}

proof fn lemma_strolled(a: World, b: World, dir: Direction)
    requires
        same_play(a, b),
    ensures
        same_tale(strolled(a, dir), strolled(b, dir)),
{
    lemma_same_parts(a, b);
    if a.may_step() {
        let (c, d) = (a.step_paid(), b.step_paid());
        assert(same_play(c, d));
        lemma_same_parts(c, d);
        lemma_shoved(c, d, dir);
        let (e, f) = (shoved(c, dir).world, shoved(d, dir).world);
        lemma_same_parts(e, f);
        let none = Seq::<GameEvent>::empty();
        match shoved(c, dir).climb {
            Some(taken) => {
                lemma_pickups_used((e, none), (f, none), taken.0, taken.1);
            },
            None => {
                let n = stepped(e.grid, e.width as int, e.player, dir);
                let time = ms(MOVE_ANIM_DURATION_MS as int) as u64;
                let x = (World { grid: n.grid, player: n.player, ..e }).moved_from(a.here(), time);
                let y = (World { grid: n.grid, player: n.player, ..f }).moved_from(b.here(), time);
                assert(same_play(x, y));
                lemma_step_told((x, none), (y, none), n.outcome);
            },
        }
    }
}

proof fn lemma_air_checked(s: Tale, t: Tale)
    requires
        same_tale(s, t),
    ensures
        same_tale(air_checked(s), air_checked(t)),
{
    lemma_same_parts(s.0, t.0);
    lemma_missed(s, t, MissCause::OxygenOut);
}

proof fn lemma_stroke_told(s: Tale, t: Tale, outcome: DrillOutcome)
    requires
        same_tale(s, t),
    ensures
        same_tale(stroke_told(s, outcome), stroke_told(t, outcome)),
{
    lemma_same_parts(s.0, t.0);
    match outcome {
        DrillOutcome::RockDestroyed { blocks } => {
            let told = s.1.push(GameEvent::DrillImpact).push(GameEvent::RockDestroyed { blocks });
            let (a, b) = ((s.0.armed(blocks as int), told), (t.0.armed(blocks as int), told));
            assert(same_tale(a, b));
            lemma_air_checked(a, b);
        },
        DrillOutcome::CrushedByUnstableOverhead => {
            lemma_missed(s, t, MissCause::DrilledIntoFallingBlock);
        },
        _ => {},
    }
}

proof fn lemma_stroked(a: World, b: World)
    requires
        same_play(a, b),
    ensures
        same_tale(stroked(a), stroked(b)),
{
    lemma_same_parts(a, b);
    let (c, d) = (a.stroke_paid(), b.stroke_paid());
    assert(same_play(c, d));
    lemma_same_parts(c, d);
    let drill = drilled_facing(a.grid, a.player, a.gravity, spots(resting_places(a.bombs)));
    let none = Seq::<GameEvent>::empty();
    let x = World { grid: drill.grid, player: drill.player, ..c };
    let y = World { grid: drill.grid, player: drill.player, ..d };
    assert(same_play(x, y));
    lemma_stroke_told((x, none), (y, none), drill.outcome);
}

/// The same input does the same.
proof fn lemma_acted(a: World, b: World, action: InputAction)
    requires
        same_play(a, b),
    ensures
        same_tale(acted(a, action), acted(b, action)),
{
    lemma_same_parts(a, b);
    lemma_strolled(a, b, Direction::Left);
    lemma_strolled(a, b, Direction::Right);
    lemma_stroked(a, b);
}

proof fn lemma_awake(a: World, b: World, delta: u64)
    requires
        same_play(a, b),
    ensures
        same_play(a.slid_on(delta).watched_on(delta), b.slid_on(delta).watched_on(delta)),
{
    lemma_same_parts(a, b);
    assert(same_play(a.slid_on(delta), b.slid_on(delta)));
    lemma_same_parts(a.slid_on(delta), b.slid_on(delta));
}

proof fn lemma_breathed_on(s: Tale, t: Tale, delta: u64, was_dying: bool)
    requires
        same_tale(s, t),
    ensures
        same_tale(breathed_on(s, delta, was_dying), breathed_on(t, delta, was_dying)),
{
    lemma_same_parts(s.0, t.0);
    let (a, b) = (s.0.lived_on(delta), t.0.lived_on(delta));
    assert(same_play(a, b));
    lemma_same_parts(a, b);
    assert(same_tale(air_warned((a, s.1), delta), air_warned((b, t.1), delta)));
}

proof fn lemma_escape_told(s: Tale, t: Tale)
    requires
        same_tale(s, t),
    ensures
        same_tale(escape_told(s), escape_told(t)),
{
    lemma_same_parts(s.0, t.0);
    assert(s.0.pull() == t.0.pull());
    assert(same_play(s.0.pulled(), t.0.pulled()));
    lemma_same_parts(s.0.pulled(), t.0.pulled());
}

proof fn lemma_vanish_told(s: Tale, t: Tale, colors: int, rocks: int)
    requires
        same_tale(s, t),
    ensures
        same_tale(vanish_told(s, colors, rocks), vanish_told(t, colors, rocks)),
{
    lemma_same_parts(s.0, t.0);
    assert(same_play(s.0.armed(colors), t.0.armed(colors)));
    lemma_same_parts(s.0.armed(colors), t.0.armed(colors));
}

proof fn lemma_swept(a: World, b: World, gone: Seq<(Pos, Cell)>, delay: u64, vanished: bool)
    requires
        same_play(a, b),
    ensures
        same_play(
            chained(a.noted(gone, delay).gaps_swept(delay), vanished),
            chained(b.noted(gone, delay).gaps_swept(delay), vanished),
        ),
{
    lemma_noted(a, b, gone, delay);
    let (c, d) = (a.noted(gone, delay), b.noted(gone, delay));
    lemma_same_parts(c, d);
    assert(same_play(c.gaps_swept(delay), d.gaps_swept(delay)));
    lemma_same_parts(c.gaps_swept(delay), d.gaps_swept(delay));
}

proof fn lemma_tick_told(s: Tale, t: Tale)
    requires
        same_tale(s, t),
    ensures
        same_tale(tick_told(s), tick_told(t)),
{
    lemma_same_parts(s.0, t.0);
    let pull = s.0.pull();
    assert(pull == t.0.pull());
    let gone = cells_vanished(s.0.grid, pull);
    let colors = colors_among(gone) as int;
    let rocks = rocks_among(gone) as int;
    lemma_escape_told(s, t);
    let (a, b) = (escape_told(s), escape_told(t));
    let caught = onto_player(s.0.grid, pull);
    if let Some(Cell::Item(effect)) = caught {
        lemma_item_used(a, b, effect);
    }
    let (c, d) = (catch_told(a, caught), catch_told(b, caught));
    assert(same_tale(c, d));
    lemma_vanish_told(c, d, colors, rocks);
    let (e, f) = (vanish_told(c, colors, rocks), vanish_told(d, colors, rocks));
    lemma_same_parts(e.0, f.0);
    let delay = e.0.landing_delay();
    assert(delay == f.0.landing_delay());
    let vanished = colors > 0 || rocks > 0;
    lemma_swept(e.0, f.0, gone, delay, vanished);
    let x = (chained(e.0.noted(gone, delay).gaps_swept(delay), vanished), e.1);
    let y = (chained(f.0.noted(gone, delay).gaps_swept(delay), vanished), f.1);
    lemma_missed(x, y, MissCause::CrushedByFallingBlock);
    assert(crushes_player(s.0.grid, pull, s.0.safe()) == crushes_player(t.0.grid, pull, t.0.safe()));
    assert(tick_told(s) == if crushes_player(s.0.grid, pull, s.0.safe()) {
        missed(x, MissCause::CrushedByFallingBlock)
    } else {
        x
    });
    assert(tick_told(t) == if crushes_player(t.0.grid, pull, t.0.safe()) {
        missed(y, MissCause::CrushedByFallingBlock)
    } else {
        y
    });
}

proof fn lemma_ticks_due(s: Tale, t: Tale, tick: int, n: nat)
    requires
        same_tale(s, t),
    ensures
        same_tale(ticks_due(s, tick, n), ticks_due(t, tick, n)),
    decreases n,
{
    if n > 0 {
        lemma_same_parts(s.0, t.0);
        let a = s.0.with_core(
            Core { fall_tick_accum: (s.0.core.fall_tick_accum - tick) as u64, ..s.0.core },
        );
        let b = t.0.with_core(
            Core { fall_tick_accum: (t.0.core.fall_tick_accum - tick) as u64, ..t.0.core },
        );
        assert(same_play(a, b));
        lemma_same_parts(a, b);
        lemma_tick_told((a, s.1), (b, t.1));
        assert(same_tale(tick_due(s, tick), tick_due(t, tick)));
        lemma_ticks_due(tick_due(s, tick), tick_due(t, tick), tick, (n - 1) as nat);
    }
}

proof fn lemma_gravity_ran(s: Tale, t: Tale, delta: u64)
    requires
        same_tale(s, t),
    ensures
        same_tale(gravity_ran(s, delta), gravity_ran(t, delta)),
{
    lemma_same_parts(s.0, t.0);
    let tick = ms(s.0.tick_ms());
    let accum = plus64(s.0.core.fall_tick_accum as int, delta as int);
    let a = s.0.with_core(Core { fall_tick_accum: accum as u64, ..s.0.core });
    let b = t.0.with_core(Core { fall_tick_accum: accum as u64, ..t.0.core });
    assert(same_play(a, b));
    lemma_ticks_due((a, s.1), (b, t.1), tick, (accum / tick) as nat);
}

proof fn lemma_stars_melted(s: Tale, t: Tale, delta: u64)
    requires
        same_tale(s, t),
    ensures
        same_tale(stars_melted(s, delta), stars_melted(t, delta)),
{
    lemma_same_parts(s.0, t.0);
}

proof fn lemma_drop_due(s: Tale, t: Tale)
    requires
        same_tale(s, t),
    ensures
        same_tale(drop_due(s), drop_due(t)),
{
    lemma_same_parts(s.0, t.0);
    let fell = s.0.drop_outcome();
    assert(fell == t.0.drop_outcome());
    let (a, b) = ((s.0.dropped(), s.1), (t.0.dropped(), t.1));
    assert(same_tale(a, b));
    lemma_same_parts(a.0, b.0);
    if let FreeFallOutcome::FellAndCollectedItem(effect) = fell.outcome {
        lemma_item_used(a, b, effect);
    }
    assert(same_tale(drop_told(a, fell.outcome), drop_told(b, fell.outcome)));
    lemma_descended(drop_told(a, fell.outcome), drop_told(b, fell.outcome));
}

proof fn lemma_drops_due(s: Tale, t: Tale, n: nat)
    requires
        same_tale(s, t),
    ensures
        same_tale(drops_due(s, n), drops_due(t, n)),
    decreases n,
{
    lemma_same_parts(s.0, t.0);
    if n > 0 && s.0.status == GameStatus::Playing {
        lemma_drop_due(s, t);
        lemma_drops_due(drop_due(s), drop_due(t), (n - 1) as nat);
    }
}

proof fn lemma_player_fell(s: Tale, t: Tale, delta: u64)
    requires
        same_tale(s, t),
    ensures
        same_tale(player_fell(s, delta), player_fell(t, delta)),
{
    lemma_same_parts(s.0, t.0);
    let accum = plus64(s.0.core.player_fall_tick_accum as int, delta as int);
    let a = s.0.with_core(Core { player_fall_tick_accum: accum as u64, ..s.0.core });
    let b = t.0.with_core(Core { player_fall_tick_accum: accum as u64, ..t.0.core });
    assert(same_play(a, b));
    lemma_drops_due(
        (a, s.1),
        (b, t.1),
        (accum / ms(s.0.core.player_fall_tick_ms as int)) as nat,
    );
}

proof fn lemma_suffocated(s: Tale, t: Tale)
    requires
        same_tale(s, t),
    ensures
        same_tale(suffocated(s), suffocated(t)),
{
    lemma_same_parts(s.0, t.0);
    lemma_missed(s, t, MissCause::OxygenOut);
}

/// The same time does the same.
proof fn lemma_framed(a: World, b: World, delta: u64)
    requires
        same_play(a, b),
    ensures
        same_tale(framed(a, delta), framed(b, delta)),
{
    lemma_same_parts(a, b);
    let none = Seq::<GameEvent>::empty();
    let (c, d) = (a.shown_on(delta), b.shown_on(delta));
    assert(same_play(c, d));
    lemma_same_parts(c, d);
    if a.status != GameStatus::Playing {
        assert(same_play(c.settled_on(delta), d.settled_on(delta)));
    } else {
        lemma_risen((c, none), (d, none), delta);
        let (e, f) = (risen((c, none), delta), risen((d, none), delta));
        lemma_same_parts(e.0, f.0);
        if e.0.status == GameStatus::Playing {
            lemma_awake(e.0, f.0, delta);
            let g = (e.0.slid_on(delta).watched_on(delta), e.1);
            let h = (f.0.slid_on(delta).watched_on(delta), f.1);
            lemma_breathed_on(g, h, delta, c.dying());
            let (i, j) = (breathed_on(g, delta, c.dying()), breathed_on(h, delta, d.dying()));
            lemma_suffocated(i, j);
            let (k, l) = (suffocated(i), suffocated(j));
            lemma_gravity_ran(k, l, delta);
            let (m, n) = (gravity_ran(k, delta), gravity_ran(l, delta));
            lemma_stars_melted(m, n, delta);
            let (o, p) = (stars_melted(m, delta), stars_melted(n, delta));
            lemma_player_fell(o, p, delta);
        }
    }
}

/// Something that happens to a game: an input, or the passing of time.
pub enum Deed {
    Input(InputAction),
    Time(u64),
}

/// What a deed does.
pub open spec fn deed_done(w: World, deed: Deed) -> Tale {
    match deed {
        Deed::Input(action) => acted(w, action),
        Deed::Time(delta) => framed(w, delta),
    }
}

/// What a series of deeds does.
pub open spec fn deeds_done(w: World, deeds: Seq<Deed>) -> Tale
    decreases deeds.len(),
{
    if deeds.len() == 0 {
        (w, Seq::empty())
    } else {
        let (before, told) = deeds_done(w, deeds.drop_last());
        let (after, more) = deed_done(before, deeds.last());
        (after, told + more)
    }
}

/// Worlds that differ at most in what is only counted have the same future.
pub proof fn law_counts_do_not_matter(a: World, b: World, deeds: Seq<Deed>)
    requires
        same_play(a, b),
    ensures
        same_tale(deeds_done(a, deeds), deeds_done(b, deeds)),
    decreases deeds.len(),
{
    if deeds.len() > 0 {
        law_counts_do_not_matter(a, b, deeds.drop_last());
        let (c, d) = (deeds_done(a, deeds.drop_last()).0, deeds_done(b, deeds.drop_last()).0);
        match deeds.last() {
            Deed::Input(action) => {
                lemma_acted(c, d, action);
            },
            Deed::Time(delta) => {
                lemma_framed(c, d, delta);
            },
        }
    }
}

/// The future repeats itself: whatever was done since a moment, going back to it
/// and then doing the same leads where it would have led from the moment
/// itself, and the same is told on the way. Invincibility and the settings of
/// attacks, which going back does not undo, have to be what they were.
pub proof fn law_the_future_repeats(now: World, past: World, deeds: Seq<Deed>)
    requires
        now.core.invincible == past.core.invincible,
        now.core.attack_blocks_per_rock == past.core.attack_blocks_per_rock,
        now.core.attack_rocks_per_wave_max == past.core.attack_rocks_per_wave_max,
    ensures
        same_tale(deeds_done(now.rewound(past), deeds), deeds_done(past, deeds)),
{
    assert(uncounted(now.rewound(past)) == uncounted(past));
    law_counts_do_not_matter(now.rewound(past), past, deeds);
}

/// The worlds that a game goes through, each the outcome of one deed more.
pub open spec fn is_run(run: Seq<World>, deeds: Seq<Deed>) -> bool {
    &&& run.len() == deeds.len() + 1
    &&& forall|i: int| 0 <= i < deeds.len() ==> #[trigger] run[i + 1] == deed_done(run[i], deeds[i]).0
}

proof fn lemma_run(run: Seq<World>, deeds: Seq<Deed>, i: int)
    requires
        is_run(run, deeds),
        0 <= i <= deeds.len(),
    ensures
        run[i] == deeds_done(run[0], deeds.take(i)).0,
    decreases i,
{
    if i > 0 {
        lemma_run(run, deeds, i - 1);
        assert(deeds.take(i).drop_last() =~= deeds.take(i - 1));
        assert(deeds.take(i).last() == deeds[i - 1]);
        assert(run[(i - 1) + 1] == deed_done(run[i - 1], deeds[i - 1]).0);
    }
}

/// Two games that start alike and have the same done to them have the same
/// digest all along.
pub proof fn law_digests_agree_all_along(a: Seq<World>, b: Seq<World>, deeds: Seq<Deed>, i: int)
    requires
        is_run(a, deeds),
        is_run(b, deeds),
        same_play(a[0], b[0]),
        0 <= i <= deeds.len(),
    ensures
        same_play(a[i], b[i]),
        digest(a[i]) == digest(b[i]),
{
    lemma_run(a, deeds, i);
    lemma_run(b, deeds, i);
    law_counts_do_not_matter(a[0], b[0], deeds.take(i));
    lemma_same_parts(a[i], b[i]);
    law_digest_of_what_counts(a[i], b[i]);
}

/// One seed and the same settings make the same game: with the same done to
/// them, two such games are equal all along, and so are their digests.
pub proof fn law_one_seed_one_game(
    seed: u64,
    settings: Settings,
    depth_goal_m: usize,
    a: Seq<World>,
    b: Seq<World>,
    deeds: Seq<Deed>,
    i: int,
)
    requires
        is_run(a, deeds),
        is_run(b, deeds),
        a[0] == started(seed, settings, depth_goal_m),
        b[0] == started(seed, settings, depth_goal_m),
        0 <= i <= deeds.len(),
    ensures
        a[i] == b[i],
        digest(a[i]) == digest(b[i]),
{
    lemma_run(a, deeds, i);
    lemma_run(b, deeds, i);
}

} // verus!
