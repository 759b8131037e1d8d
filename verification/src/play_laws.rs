//! What happens in a game, told from the outside: inputs, items, misfortune, the
//! way down, and the passing of time.
use vstd::prelude::*;

use crate::board::{rectangular, Cell, ColorKind, Grid, ItemEffect};
use crate::bombs::{at_rest, bomb_rests_at, first_bomb_at, Bomb, BombPhase};
use crate::controls::{acted, pickups_used, shoved, step_told, stroke_told};
use crate::dice::Dice;
use crate::effects::{painted, painted_row, pushed_up};
use crate::field_laws::{law_nothing_is_left_above, law_what_is_in_view_stays};
use crate::flood::{at, on_grid, spot, Spot};
use crate::frame::drop_due;
use crate::game::{Core, DodgeStage, GameEvent, GameOverChoice, GameStatus, InputAction, MissCause, Tale, World};
use crate::groups::Pickup;
use crate::journey::{checked, descended, goal_checked, levelled};
use crate::mishaps::{item_used, missed, risen};
use crate::physics::{drilled_facing, faced, free_fallen, stepped, DrillOutcome, LateralOutcome};
use crate::player::{Direction, Player};
use crate::player_laws::{beside, open_cell, trembles};

verus! {

/// So many milliseconds, in nanoseconds.
pub open spec fn nanos(millis: int) -> int {
    millis * 1_000_000
}

/// The worlds differ at most in field, gravity, flashes and the numbers of the
/// game.
pub open spec fn same_people(a: World, b: World) -> bool {
    &&& a.width == b.width
    &&& a.player == b.player
    &&& a.status == b.status
    &&& a.moves == b.moves
    &&& a.exploded == b.exploded
    &&& a.bombs == b.bombs
    &&& a.rocks == b.rocks
}

/// An item that is used is told, last of all, and does its work.
pub proof fn law_items_are_told(t: Tale, effect: ItemEffect)
    ensures
        item_used(t, effect).1 == t.1.push(GameEvent::ItemCollected(effect)),
        same_people(item_used(t, effect).0, t.0),
        t.0.status != GameStatus::Playing ==> item_used(t, effect).0 == t.0,
{
}

/// The item of stars turns the rocks and diamonds within twelve rows that do
/// not shake into fresh stars, and nothing else.
pub proof fn law_stars_are_made(t: Tale, p: Spot)
    requires
        t.0.status == GameStatus::Playing,
        on_grid(t.0.grid, p),
    ensures
        ({
            let w = t.0;
            let after = item_used(t, ItemEffect::StarifyScreen).0;
            let near = w.player.row - 12 <= p.0 <= w.player.row + 12;
            let stone = at(w.grid, p) is Rock || at(w.grid, p) is Diamond;
            &&& after.grid.len() == w.grid.len()
            &&& near && stone && !trembles(w.gravity, p) ==> at(after.grid, p) == (Cell::Star { visible_ms: 0 })
            &&& !(near && stone && !trembles(w.gravity, p)) ==> at(after.grid, p) == at(w.grid, p)
            &&& after.gravity == w.gravity
            &&& after.core == w.core
            &&& after.vanished == w.vanished
        }),
{
}

/// The item that clears takes away the blocks above the player. From the
/// player's row down nothing changes, and nothing but capsules and items is left
/// above.
pub proof fn law_the_way_up_is_cleared(t: Tale, p: Spot)
    requires
        t.0.status == GameStatus::Playing,
        rectangular(t.0.grid, t.0.width as nat),
        t.0.player.row < t.0.grid.len(),
        on_grid(t.0.grid, p),
    ensures
        ({
            let w = t.0;
            let after = item_used(t, ItemEffect::ClearAbove).0;
            &&& p.0 >= w.player.row ==> at(after.grid, p) == at(w.grid, p)
            &&& p.0 < w.player.row ==> open_cell(at(after.grid, p))
            &&& w.player.row - 4 <= p.0 < w.player.row && (at(w.grid, p) is Oxygen || at(w.grid, p) is Item) ==> at(
                after.grid,
                p,
            ) == at(w.grid, p)
            &&& after.gravity == w.gravity
            &&& after.core == w.core
        }),
{
    if p.0 < t.0.player.row {
        law_nothing_is_left_above(t.0.grid, t.0.width as nat, t.0.player.row, p);
    }
    if p.0 >= t.0.player.row || (p.0 >= t.0.player.row - 4 && (at(t.0.grid, p) is Oxygen || at(t.0.grid, p) is Item)) {
        law_what_is_in_view_stays(t.0.grid, t.0.width as nat, t.0.player.row, p);
    }
}

proof fn lemma_painted_row(row: Seq<Cell>, dice: Dice, first: ColorKind, second: ColorKind, n: nat)
    requires
        n <= row.len(),
    ensures
        painted_row(row, dice, first, second, n).0.len() == n,
        forall|c: int|
            0 <= c < n ==> {
                let after = #[trigger] painted_row(row, dice, first, second, n).0[c];
                if row[c] is Color {
                    after == Cell::Color(first) || after == Cell::Color(second)
                } else {
                    after == row[c]
                }
            },
    decreases n,
{
    if n > 0 {
        lemma_painted_row(row, dice, first, second, (n - 1) as nat);
    }
}

proof fn lemma_painted(g: Grid, dice: Dice, first: ColorKind, second: ColorKind, from: int, to: int)
    requires
        0 <= from,
        to <= g.len(),
    ensures
        painted(g, dice, first, second, from, to).0.len() == g.len(),
        forall|r: int|
            0 <= r < g.len() ==> (#[trigger] painted(g, dice, first, second, from, to).0[r]).len() == g[r].len(),
        forall|r: int|
            0 <= r < g.len() && !(from <= r < to) ==> #[trigger] painted(g, dice, first, second, from, to).0[r]
                == g[r],
        forall|r: int, c: int|
            from <= r < to && 0 <= c < g[r].len() ==> {
                let after = #[trigger] painted(g, dice, first, second, from, to).0[r][c];
                if g[r][c] is Color {
                    after == Cell::Color(first) || after == Cell::Color(second)
                } else {
                    after == g[r][c]
                }
            },
    decreases to - from,
{
    if to > from {
        lemma_painted(g, dice, first, second, from, to - 1);
        let (rest, d) = painted(g, dice, first, second, from, to - 1);
        lemma_painted_row(rest[to - 1], d, first, second, rest[to - 1].len());
        assert(rest[to - 1] == g[to - 1]);
    }
}

/// The item of colours leaves two colours within twelve rows of the player, and
/// touches nothing but colour blocks there. What has shaken for no longer than
/// blocks shake starts its wait anew.
pub proof fn law_colors_are_unified(t: Tale, p: Spot, q: Spot, r: Spot)
    requires
        t.0.status == GameStatus::Playing,
        t.0.player.row < t.0.grid.len(),
        on_grid(t.0.grid, p),
        on_grid(t.0.grid, q),
        on_grid(t.0.grid, r),
    ensures
        ({
            let w = t.0;
            let after = item_used(t, ItemEffect::UnifyColors).0;
            let near = |s: Spot| w.player.row - 12 <= s.0 <= w.player.row + 12 && at(w.grid, s) is Color;
            &&& near(p) ==> at(after.grid, p) is Color
            &&& !near(p) ==> at(after.grid, p) == at(w.grid, p)
            &&& near(p) && near(q) && near(r) ==> at(after.grid, p) == at(after.grid, q) || at(after.grid, q) == at(
                after.grid,
                r,
            ) || at(after.grid, p) == at(after.grid, r)
            &&& w.gravity.waits.dom().contains(p) && w.gravity.waits[p] > w.shake_count()
                ==> after.gravity.waits.dom().contains(p) && after.gravity.waits[p] == w.gravity.waits[p]
            &&& !(w.gravity.waits.dom().contains(p) && w.gravity.waits[p] > w.shake_count())
                ==> !after.gravity.waits.dom().contains(p)
        }),
{
    let w = t.0;
    let d = w.core.rng;
    let n = w.grid.len() as int;
    let from = if w.player.row > 12 { w.player.row - 12 } else { 0 };
    let to = if w.player.row + 13 <= n { w.player.row + 13 } else { n };
    let first = crate::board::nth_color(d.below_of(4) as int);
    let second = crate::board::nth_color((d.below_of(4) + (1 + d.after_below(4).below_of(3))) % 4);
    lemma_painted(w.grid, d.after_below(4).after_below(3), first, second, from, to);
    let after = item_used(t, ItemEffect::UnifyColors).0;
    let h = painted(w.grid, d.after_below(4).after_below(3), first, second, from, to).0;
    assert(after.grid == h);
    assert(h[p.0][p.1] == at(after.grid, p));
    assert(h[q.0][q.1] == at(after.grid, q));
    assert(h[r.0][r.1] == at(after.grid, r));
    assert(!(from <= p.0 < to) ==> h[p.0] == w.grid[p.0]);
}

/// An item that the player falls onto leaves the field with them and does its
/// work at once: it is told first of all that the fall brings, and the world is
/// the one that using it makes of the world after the fall.
pub proof fn law_items_are_used_in_a_fall(t: Tale, effect: ItemEffect)
    requires
        t.0.player.row + 1 < t.0.grid.len(),
        rectangular(t.0.grid, t.0.width as nat),
        t.0.player.col < t.0.width,
        at(t.0.grid, (t.0.player.row + 1, t.0.player.col as int)) == Cell::Item(effect),
        !bomb_rests_at(t.0.bombs, (t.0.player.row + 1, t.0.player.col as int)),
        t.0.grid.len() <= usize::MAX,
    ensures
        ({
            let under = (t.0.player.row + 1, t.0.player.col as int);
            let landed = t.0.dropped();
            let after = drop_due(t);
            &&& landed.player.row == t.0.player.row + 1
            &&& landed.player.col == t.0.player.col
            &&& at(landed.grid, under) is Empty
            &&& after == descended(item_used((landed, t.1), effect))
            &&& after.1.len() > t.1.len()
            &&& after.1[t.1.len() as int] == GameEvent::ItemCollected(effect)
            &&& forall|i: int| 0 <= i < t.1.len() ==> #[trigger] after.1[i] == t.1[i]
        }),
{
    let under = (t.0.player.row + 1, t.0.player.col as int);
    assert(t.0.grid[t.0.player.row + 1].len() == t.0.width);
    let landed = t.0.dropped();
    assert(landed.player.row == t.0.player.row + 1);
    let used = item_used((landed, t.1), effect);
    assert(drop_due(t) == descended(used));
    lemma_descent_adds(used);
}

/// What follows a change of rows only adds to what is told.
proof fn lemma_descent_adds(t: Tale)
    ensures
        descended(t).1.len() >= t.1.len(),
        forall|i: int| 0 <= i < t.1.len() ==> #[trigger] descended(t).1[i] == t.1[i],
{
    let a = levelled(t);
    assert(a.1.len() >= t.1.len());
    assert(forall|i: int| 0 <= i < t.1.len() ==> #[trigger] a.1[i] == t.1[i]);
    let b = checked(a);
    assert(b.1.len() >= a.1.len());
    assert(forall|i: int| 0 <= i < t.1.len() ==> #[trigger] b.1[i] == t.1[i]);
    let c = goal_checked(b);
    assert(forall|i: int| 0 <= i < t.1.len() ==> #[trigger] c.1[i] == t.1[i]);
}

/// A tick of free fall: the player sinks one row into an open cell, unless a
/// bomb lies there. A capsule is told. Whoever has changed rows has reached what
/// the row brings; whoever has not stays, and nothing is told.
pub proof fn law_a_tick_of_free_fall(t: Tale)
    requires
        rectangular(t.0.grid, t.0.width as nat),
        t.0.player.row < t.0.grid.len() <= usize::MAX,
        t.0.player.col < t.0.width,
        t.0.core.player_fall_tick_accum >= nanos(t.0.core.player_fall_tick_ms as int),
    ensures
        ({
            let under = (t.0.player.row + 1, t.0.player.col as int);
            let falls = t.0.player.row + 1 < t.0.grid.len() && !bomb_rests_at(t.0.bombs, under) && open_cell(
                at(t.0.grid, under),
            );
            let w = t.0.dropped();
            &&& w.core.player_fall_tick_accum == t.0.core.player_fall_tick_accum - nanos(
                t.0.core.player_fall_tick_ms as int,
            )
            &&& falls ==> {
                &&& w.player.row == t.0.player.row + 1
                &&& w.player == free_fallen(t.0.grid, t.0.player).player
                &&& w.grid == free_fallen(t.0.grid, t.0.player).grid
                &&& w.core.render_prev_position == (t.0.player.row, t.0.player.col)
                &&& w.core.render_anim_elapsed == 0
            }
            &&& !falls ==> {
                &&& w.player == t.0.player
                &&& w.grid == t.0.grid
                &&& drop_due(t) == (w, t.1)
            }
            &&& falls && at(t.0.grid, under) is Oxygen ==> drop_due(t) == descended(
                (w, t.1.push(GameEvent::OxygenCollected)),
            )
            &&& falls && at(t.0.grid, under) is Empty ==> drop_due(t) == descended((w, t.1))
        }),
{
    if t.0.player.row + 1 < t.0.grid.len() {
        assert(t.0.grid[t.0.player.row + 1].len() == t.0.width);
    }
}

/// The game does not take a step: it is not on, the player rises to heaven or
/// slides, or the last step was too short a while ago.
pub open spec fn no_step(w: World) -> bool {
    ||| w.status != GameStatus::Playing
    ||| w.core.ascending_remaining is Some
    ||| w.core.dodge_stage != DodgeStage::Idle
    ||| w.core.move_cooldown_accum < nanos(w.core.move_cooldown_ms as int)
}

/// The player hangs in the air: there is a row below, no bomb in it, and the
/// cell is empty or holds a capsule.
pub open spec fn in_the_air(w: World) -> bool {
    let under = (w.player.row + 1, w.player.col as int);
    &&& w.player.row + 1 < w.grid.len()
    &&& !bomb_rests_at(w.bombs, under)
    &&& at(w.grid, under) is Empty || at(w.grid, under) is Oxygen
}

/// The input for a step.
pub open spec fn step_input(dir: Direction) -> InputAction {
    if dir == Direction::Left {
        InputAction::MoveLeft
    } else {
        InputAction::MoveRight
    }
}

/// A step that is not taken changes nothing; in the air it only uses up its time.
pub proof fn law_steps_that_fail(w: World, dir: Direction)
    requires
        dir == Direction::Left || dir == Direction::Right,
    ensures
        no_step(w) ==> acted(w, step_input(dir)) == (w, Seq::<GameEvent>::empty()),
        !no_step(w) && in_the_air(w) ==> {
            let t = acted(w, step_input(dir));
            &&& t.1.len() == 0
            &&& t.0 == w.with_core(Core { move_cooldown_accum: t.0.core.move_cooldown_accum, ..w.core })
            &&& t.0.core.move_cooldown_accum == w.core.move_cooldown_accum - nanos(w.core.move_cooldown_ms as int)
        },
{
}

/// A step beside which no bomb lies is the step that the field allows. What is
/// taken on the way is told, and an item that is taken is used.
pub proof fn law_steps(w: World, dir: Direction)
    requires
        dir == Direction::Left || dir == Direction::Right,
        !no_step(w),
        !in_the_air(w),
        !bomb_rests_at(w.bombs, beside(w.player, dir)),
    ensures
        ({
            let s = stepped(w.grid, w.width as int, w.player, dir);
            let t = acted(w, step_input(dir));
            let plain = !(s.outcome is MovedLevelAndCollectedItem || s.outcome is ClimbedStep);
            &&& plain ==> {
                &&& t.0.grid == s.grid
                &&& t.0.player == s.player
                &&& t.0.bombs == w.bombs
                &&& t.0.status == w.status
                &&& t.0.gravity == w.gravity
                &&& t.0.core.move_cooldown_accum == w.core.move_cooldown_accum - nanos(
                    w.core.move_cooldown_ms as int,
                )
                &&& t.0.core.drill_cooldown_accum == w.core.drill_cooldown_accum
                &&& t.1 == (if s.outcome == LateralOutcome::MovedLevelAndCollectedOxygen {
                    seq![GameEvent::OxygenCollected]
                } else {
                    Seq::empty()
                })
            }
            &&& s.outcome matches LateralOutcome::MovedLevelAndCollectedItem(effect) ==> {
                &&& t.1 == seq![GameEvent::ItemCollected(effect)]
                &&& t.0.player == s.player
                &&& exists|before: World|
                    before.grid == s.grid && before.player == s.player && before.bombs == w.bombs && t
                        == #[trigger] item_used((before, Seq::empty()), effect)
            }
            &&& s.outcome matches LateralOutcome::ClimbedStep { overhead, landing } ==> {
                &&& t.0.player == s.player
                &&& t.1 == climb_told(overhead, landing)
            }
        }),
{
    let s = stepped(w.grid, w.width as int, w.player, dir);
    let before = (World { grid: s.grid, player: s.player, ..w.step_paid() }).moved_from(
        w.here(),
        nanos(100) as u64,
    );
    let t = acted(w, step_input(dir));
    assert(shoved(w.step_paid(), dir).world == w.step_paid());
    assert(t == step_told((before, Seq::empty()), s.outcome));
    match s.outcome {
        LateralOutcome::MovedLevelAndCollectedItem(effect) => {
            law_items_are_told((before, Seq::empty()), effect);
            assert(t == item_used((before, Seq::empty()), effect));
        },
        LateralOutcome::ClimbedStep { overhead, landing } => {
            law_climbs_are_told((before, Seq::empty()), overhead, landing);
        },
        _ => {},
    }
}

/// What a climb is told as: the air first, and only once, then the items.
pub open spec fn climb_told(overhead: Option<Pickup>, landing: Option<Pickup>) -> Seq<GameEvent> {
    let air = if overhead == Some(Pickup::Oxygen) || landing == Some(Pickup::Oxygen) {
        seq![GameEvent::OxygenCollected]
    } else {
        Seq::empty()
    };
    let first = match overhead {
        Some(Pickup::Item(effect)) => air.push(GameEvent::ItemCollected(effect)),
        _ => air,
    };
    match landing {
        Some(Pickup::Item(effect)) => first.push(GameEvent::ItemCollected(effect)),
        _ => first,
    }
}

/// What is taken on a climb is told and used, and moves nobody.
pub proof fn law_climbs_are_told(t: Tale, overhead: Option<Pickup>, landing: Option<Pickup>)
    ensures
        pickups_used(t, overhead, landing).1 =~= t.1 + climb_told(overhead, landing),
        same_people(pickups_used(t, overhead, landing).0, t.0),
{
    let told = if overhead == Some(Pickup::Oxygen) || landing == Some(Pickup::Oxygen) {
        (t.0, t.1.push(GameEvent::OxygenCollected))
    } else {
        t
    };
    if let Some(Pickup::Item(effect)) = overhead {
        law_items_are_told(told, effect);
    }
    let next = crate::controls::pickup_used(told, overhead);
    if let Some(Pickup::Item(effect)) = landing {
        law_items_are_told(next, effect);
    }
}

/// A bomb beside the player is pushed on by one cell if that is empty and holds
/// no bomb, and the player steps as if it had not been there. It is not harmed,
/// and the other bombs stay.
pub proof fn law_bombs_are_pushed(w: World, dir: Direction, i: int)
    requires
        rectangular(w.grid, w.width as nat),
        w.player.row < w.grid.len(),
        w.player.col < w.width,
        dir == Direction::Left || dir == Direction::Right,
        0 <= beside(w.player, dir).1 < w.width,
        first_bomb_at(w.bombs, beside(w.player, dir), i),
        ({
            let q = (w.player.row as int, if dir == Direction::Left { w.player.col - 2 } else { w.player.col + 2 });
            0 <= q.1 < w.width && at(w.grid, q) is Empty && !bomb_rests_at(w.bombs, q)
        }),
    ensures
        ({
            let q = if dir == Direction::Left { w.player.col - 2 } else { w.player.col + 2 };
            let s = shoved(w, dir);
            &&& s.climb is None
            &&& s.world == (World { bombs: s.world.bombs, ..w })
            &&& s.world.bombs.len() == w.bombs.len()
            &&& s.world.bombs[i] == (Bomb { pos: (w.player.row, q as usize), ..w.bombs[i] })
            &&& forall|k: int| 0 <= k < w.bombs.len() && k != i ==> #[trigger] s.world.bombs[k] == w.bombs[k]
        }),
{
    assert(w.grid[w.player.row as int].len() == w.width);
    lemma_first_bomb_is_chosen(w.bombs, beside(w.player, dir), i);
    assert(at_rest(w.bombs[i]));
}

/// There is only one first bomb.
proof fn lemma_first_bomb_is_chosen(bombs: Seq<Bomb>, p: Spot, i: int)
    requires
        first_bomb_at(bombs, p, i),
    ensures
        (choose|k: int| first_bomb_at(bombs, p, k)) == i,
        bomb_rests_at(bombs, p),
{
    let k = choose|k: int| first_bomb_at(bombs, p, k);
    assert(at_rest(bombs[i]));
    if k < i {
        assert(!(at_rest(bombs[k]) && spot(bombs[k].pos) == p));
    }
    if i < k {
        assert(!(at_rest(bombs[i]) && spot(bombs[i].pos) == p));
    }
}

/// A bomb that cannot be pushed is bumped into like a block, and climbed like
/// one by whoever has bumped into it before.
pub proof fn law_stuck_bombs_are_obstacles(w: World, dir: Direction)
    requires
        rectangular(w.grid, w.width as nat),
        w.player.row < w.grid.len(),
        w.player.col < w.width,
        dir == Direction::Left || dir == Direction::Right,
        0 <= beside(w.player, dir).1 < w.width,
        bomb_rests_at(w.bombs, beside(w.player, dir)),
        ({
            let q = (w.player.row as int, if dir == Direction::Left { w.player.col - 2 } else { w.player.col + 2 });
            !(0 <= q.1 < w.width) || !(at(w.grid, q) is Empty) || bomb_rests_at(w.bombs, q)
        }),
    ensures
        ({
            let s = shoved(w, dir);
            let over = (w.player.row - 1, w.player.col as int);
            let top = (w.player.row - 1, beside(w.player, dir).1);
            let climbs = w.player.bumped_direction == Some(dir) && w.player.row > 0 && open_cell(at(w.grid, over))
                && open_cell(at(w.grid, top));
            &&& s.world.bombs == w.bombs
            &&& !climbs ==> s.climb == Some((None::<Pickup>, None::<Pickup>)) && s.world == (World {
                player: Player { facing: dir, bumped_direction: Some(dir), ..w.player },
                ..w
            })
            &&& climbs ==> s.climb is Some && s.world.player.row == w.player.row - 1 && s.world.player.col == beside(
                w.player,
                dir,
            ).1 && s.world.player.facing == dir && s.world.player.bumped_direction is None && at(
                s.world.grid,
                over,
            ) is Empty && at(s.world.grid, top) is Empty
        }),
{
    assert(w.grid[w.player.row as int].len() == w.width);
    if w.player.row > 0 {
        assert(w.grid[w.player.row - 1].len() == w.width);
    }
}

/// Which bombs lie on the field: those that settle and those that tick.
pub proof fn law_bombs_at_rest(b: Bomb)
    ensures
        at_rest(b) <==> b.phase == BombPhase::Settling || b.phase == BombPhase::Ticking,
{
}

/// The player has moved: where they were is kept, the move is drawn from its
/// beginning, and the cell they left is watched for a second if something shook
/// above it, and nothing is watched otherwise.
pub proof fn law_moves_leave_traces(w: World, before: (usize, usize), duration: u64)
    ensures
        ({
            let after = w.moved_from(before, duration);
            let fled = before.0 > 0 && trembles(w.gravity, (before.0 - 1, before.1 as int));
            &&& (w.player.row, w.player.col) == before ==> after == w
            &&& (w.player.row, w.player.col) != before ==> {
                &&& after.core.render_prev_position == before
                &&& after.core.render_anim_elapsed == 0
                &&& duration >= 1_000_000 ==> after.core.render_anim_duration == duration
                &&& fled ==> after.core.dodge_watch_cell == Some(before) && after.core.dodge_watch_remaining == nanos(
                    1000,
                )
                &&& !fled ==> after.core.dodge_watch_cell is None
            }
            &&& same_people(after, w) && after.grid == w.grid && after.gravity == w.gravity
            &&& after.core.move_cooldown_accum == w.core.move_cooldown_accum
        }),
{
}

/// The game does not take a stroke.
pub open spec fn no_stroke(w: World) -> bool {
    ||| w.status != GameStatus::Playing
    ||| w.core.ascending_remaining is Some
    ||| w.core.dodge_stage != DodgeStage::Idle
    ||| w.core.drill_cooldown_accum < nanos(80)
}

/// The world once a stroke has used up its time and is being drawn, with the
/// field and the player that the stroke leaves.
pub open spec fn struck(w: World, after: World, grid: Grid, player: Player, power: u32) -> bool {
    after == (World {
        grid,
        player,
        core: Core {
            drill_cooldown_accum: (w.core.drill_cooldown_accum - nanos(80)) as u64,
            drill_flash_remaining: nanos(200) as u64,
            attack_power_pending: power,
            ..w.core
        },
        ..w
    })
}

/// Blocks that are gone count for the attack, if there is an opponent.
pub open spec fn raised(w: World, blocks: int) -> u32 {
    if w.core.attack_rules_enabled {
        if w.core.attack_power_pending + blocks > u32::MAX {
            u32::MAX
        } else {
            (w.core.attack_power_pending + blocks) as u32
        }
    } else {
        w.core.attack_power_pending
    }
}

/// A stroke is told as what it did, and what it broke counts for the attack.
pub proof fn law_strokes_are_told(w: World)
    requires
        !no_stroke(w),
        !(on_grid(w.grid, faced(w.player)) && bomb_rests_at(w.bombs, faced(w.player))),
    ensures
        ({
            let d = drilled_facing(
                w.grid,
                w.player,
                w.gravity,
                crate::flood::spots(crate::bombs::resting_places(w.bombs)),
            );
            let t = acted(w, InputAction::Drill);
            match d.outcome {
                DrillOutcome::OutOfBounds | DrillOutcome::NoEffect | DrillOutcome::OxygenUntouchedByDrill
                | DrillOutcome::ItemUntouchedByDrill => t.1.len() == 0 && struck(
                    w,
                    t.0,
                    d.grid,
                    d.player,
                    w.core.attack_power_pending,
                ),
                DrillOutcome::RockHitIntact => t.1 == seq![GameEvent::DrillImpact, GameEvent::RockHitIntact]
                    && struck(w, t.0, d.grid, d.player, w.core.attack_power_pending),
                DrillOutcome::ColorDestroyed { blocks } => t.1 == seq![
                    GameEvent::DrillImpact,
                    GameEvent::BlockDestroyed { blocks },
                ] && struck(w, t.0, d.grid, d.player, raised(w, blocks as int)),
                DrillOutcome::CollectedDiamond => t.1 == seq![GameEvent::DiamondCollected] && struck(
                    w,
                    t.0,
                    d.grid,
                    d.player,
                    w.core.attack_power_pending,
                ),
                DrillOutcome::StarDestroyed => t.1 == seq![
                    GameEvent::DrillImpact,
                    GameEvent::BlockDestroyed { blocks: 1 },
                ] && struck(w, t.0, d.grid, d.player, raised(w, 1)),
                DrillOutcome::RockDestroyed { blocks } => d.player.oxygen > 0 ==> t.1 == seq![
                    GameEvent::DrillImpact,
                    GameEvent::RockDestroyed { blocks },
                ] && struck(w, t.0, d.grid, d.player, raised(w, blocks as int)),
                DrillOutcome::CrushedByUnstableOverhead => exists|before: World|
                    struck(w, before, d.grid, d.player, w.core.attack_power_pending) && t == #[trigger] missed(
                        (before, Seq::empty()),
                        MissCause::DrilledIntoFallingBlock,
                    ),
            }
        }),
{
    let d = drilled_facing(
        w.grid,
        w.player,
        w.gravity,
        crate::flood::spots(crate::bombs::resting_places(w.bombs)),
    );
    let before = World { grid: d.grid, player: d.player, ..w.stroke_paid() };
    let t = acted(w, InputAction::Drill);
    assert(t == stroke_told((before, Seq::empty()), d.outcome));
    match d.outcome {
        DrillOutcome::CrushedByUnstableOverhead => {
            assert(struck(w, before, d.grid, d.player, w.core.attack_power_pending));
            assert(t == missed((before, Seq::empty()), MissCause::DrilledIntoFallingBlock));
        },
        _ => {},
    }
}

/// Breaking a rock with the last of one's air costs a life.
pub proof fn law_the_last_breath(w: World, blocks: usize)
    requires
        w.status == GameStatus::Playing,
        w.player.oxygen == 0,
    ensures
        ({
            let t = stroke_told((w, Seq::empty()), DrillOutcome::RockDestroyed { blocks });
            &&& t.1.len() == 3
            &&& t.1[0] == GameEvent::DrillImpact
            &&& t.1[1] == (GameEvent::RockDestroyed { blocks })
            &&& w.core.invincible ==> t.1[2] == (GameEvent::MissAverted { cause: MissCause::OxygenOut })
            &&& !w.core.invincible && w.player.lives <= 1 ==> t.1[2] == (GameEvent::GameOverMiss {
                cause: MissCause::OxygenOut,
            })
            &&& !w.core.invincible && w.player.lives > 1 ==> t.1[2] == (GameEvent::LifeLost {
                cause: MissCause::OxygenOut,
            })
            &&& !w.core.invincible ==> t.0.core.ascending_remaining == Some(nanos(2800) as u64)
        }),
{
}

/// A stroke that is not taken changes nothing. A bomb that is faced is taken
/// apart with one stroke; the others stay.
pub proof fn law_bombs_are_taken_apart(w: World, i: int)
    ensures
        no_stroke(w) ==> acted(w, InputAction::Drill) == (w, Seq::<GameEvent>::empty()),
        !no_stroke(w) && on_grid(w.grid, faced(w.player)) && first_bomb_at(w.bombs, faced(w.player), i) ==> {
            let t = acted(w, InputAction::Drill);
            &&& t.1 == seq![GameEvent::BlockDestroyed { blocks: 1 }]
            &&& t.0.bombs == w.bombs.remove(i)
            &&& struck(
                w,
                World { bombs: w.bombs, ..t.0 },
                w.grid,
                w.player,
                w.core.attack_power_pending,
            )
        },
{
    if !no_stroke(w) && on_grid(w.grid, faced(w.player)) && first_bomb_at(w.bombs, faced(w.player), i) {
        lemma_first_bomb_is_chosen(w.bombs, faced(w.player), i);
    }
}

/// Facing up or down turns the player and forgets what they bumped into, if the
/// game is on and they react; it does nothing else.
pub proof fn law_turning(w: World)
    ensures
        ({
            let reacts = w.status == GameStatus::Playing && w.core.ascending_remaining is None && w.core.dodge_stage
                == DodgeStage::Idle;
            let up = acted(w, InputAction::FaceUp);
            let down = acted(w, InputAction::FaceDown);
            &&& up.1.len() == 0 && down.1.len() == 0
            &&& !reacts ==> up.0 == w && down.0 == w
            &&& reacts ==> up.0 == (World {
                player: Player { facing: Direction::Up, bumped_direction: None, ..w.player },
                ..w
            })
            &&& reacts ==> down.0 == (World {
                player: Player { facing: Direction::Down, bumped_direction: None, ..w.player },
                ..w
            })
        }),
{
}

/// What costs a life makes the player rise to heaven; the life itself goes only
/// once they are there. It is told as the last one if it is.
pub proof fn law_misses(t: Tale, cause: MissCause)
    requires
        !t.0.core.invincible,
    ensures
        ({
            let m = missed(t, cause);
            &&& m.0 == t.0.with_core(
                Core {
                    ascending_remaining: Some(nanos(2800) as u64),
                    crush_flash_remaining: nanos(800) as u64,
                    ..t.0.core
                },
            )
            &&& t.0.player.lives > 1 ==> m.1 == t.1.push(GameEvent::LifeLost { cause })
            &&& t.0.player.lives <= 1 ==> m.1 == t.1.push(GameEvent::GameOverMiss { cause })
        }),
{
}

/// What would have cost an invincible player a life is told and counted. Air
/// that ran out is full again, and a block that fell on the player is gone and
/// seen to flash.
pub proof fn law_averted_misses(t: Tale, cause: MissCause)
    requires
        t.0.core.invincible,
    ensures
        ({
            let w = t.0;
            let m = missed(t, cause);
            let here = (w.player.row as int, w.player.col as int);
            &&& m.1 == t.1.push(GameEvent::MissAverted { cause })
            &&& w.core.misses_averted < u32::MAX ==> m.0.core.misses_averted == w.core.misses_averted + 1
            &&& m.0.core.ascending_remaining == w.core.ascending_remaining
            &&& m.0.status == w.status && m.0.bombs == w.bombs
            &&& cause == MissCause::OxygenOut ==> m.0.player == (Player { oxygen: 100_000_000_000, ..w.player })
                && m.0.grid == w.grid
            &&& cause != MissCause::OxygenOut ==> m.0.player == w.player
            &&& cause == MissCause::CrushedByFallingBlock && on_grid(w.grid, here) ==> at(m.0.grid, here) is Empty
                && forall|q: Spot| on_grid(w.grid, q) && q != here ==> #[trigger] at(m.0.grid, q) == at(w.grid, q)
            &&& cause == MissCause::DrilledIntoFallingBlock || cause == MissCause::BombBlast ==> m.0.grid == w.grid
            &&& cause == MissCause::CrushedByFallingBlock && !(w.grid[here.0][here.1] is Empty) ==> m.0.vanished.len()
                == w.vanished.len() + 1 && m.0.vanished.last().pos == (w.player.row, w.player.col)
                && m.0.vanished.last().kind == w.grid[here.0][here.1]
            &&& cause != MissCause::CrushedByFallingBlock || w.grid[here.0][here.1] is Empty ==> m.0.vanished
                == w.vanished
        }),
{
}

/// Rising to heaven takes its time; nothing else happens on the way.
pub proof fn law_rising(t: Tale, delta: u64)
    ensures
        t.0.core.ascending_remaining is None ==> risen(t, delta) == t,
        t.0.core.ascending_remaining matches Some(left) && left > delta ==> risen(t, delta) == (
            t.0.with_core(
                Core {
                    ascending_remaining: Some((t.0.core.ascending_remaining->0 - delta) as u64),
                    ..t.0.core
                },
            ),
            t.1,
        ),
{
}

/// Arrived in heaven, the player has a life less. If one is left they are back
/// in the same place, with full air and safe for ten ticks; otherwise the game is
/// over, and the choice is to go back to the title. The bombs are gone, and each
/// is told; the player's cell is free.
pub proof fn law_coming_back(t: Tale, delta: u64)
    requires
        t.0.status == GameStatus::Playing,
        rectangular(t.0.grid, t.0.width as nat),
        t.0.player.row < t.0.grid.len(),
        t.0.player.col < t.0.width,
        t.0.core.ascending_remaining matches Some(left) && left <= delta,
    ensures
        ({
            let w = t.0;
            let r = risen(t, delta);
            let here = (w.player.row as int, w.player.col as int);
            let last = w.player.lives <= 1;
            &&& r.0.core.ascending_remaining is None
            &&& r.0.player.row == w.player.row && r.0.player.col == w.player.col
            &&& r.0.player.score == w.player.score
            &&& r.0.bombs.len() == 0
            &&& at(r.0.grid, here) is Empty
            &&& w.player.lives > 0 ==> r.0.player.lives == w.player.lives - 1
            &&& !last ==> {
                &&& r.0.status == GameStatus::Playing
                &&& r.0.player.oxygen == 100_000_000_000
                &&& r.0.core.invulnerability_ticks_remaining == 10
                &&& r.1.len() == t.1.len() + w.bombs.len() + 1
                &&& r.1.last() == GameEvent::Revived
            }
            &&& last ==> {
                &&& r.0.status == GameStatus::GameOver
                &&& r.0.player.oxygen == w.player.oxygen
                &&& r.0.player.lives == 0
                &&& r.0.core.game_over_selection == GameOverChoice::BackToTitle
                &&& r.1.len() == t.1.len() + w.bombs.len()
            }
            &&& forall|i: int|
                t.1.len() <= i < t.1.len() + w.bombs.len() ==> #[trigger] r.1[i] == GameEvent::BombExploded
            &&& forall|i: int| 0 <= i < t.1.len() ==> #[trigger] r.1[i] == t.1[i]
        }),
{
    let w = t.0;
    assert(w.grid[w.player.row as int].len() == w.width);
    let a = World {
        grid: crate::board::with_cell(w.grid, w.player.row as int, w.player.col as int, Cell::Empty),
        core: Core { ascending_remaining: None, ..w.core },
        ..w
    };
    let here = (w.player.row as int, w.player.col as int);
    assert(rectangular(a.grid, w.width as nat)) by {
        assert forall|r: int| 0 <= r < a.grid.len() implies (#[trigger] a.grid[r]).len() == w.width by {
            assert(w.grid[r].len() == w.width);
        }
    }
    law_what_is_in_view_stays(a.grid, w.width as nat, w.player.row, here);
    let b = a.above_cleared();
    assert(at(b.grid, here) is Empty);
    assert(pushed_up(b.grid, here.0, here.1) == b.grid);
}

/// The choice at the end of a game, and what comes of it: going on from where
/// one was, with three lives, full air, ten safe ticks and up to three rewinds.
pub proof fn law_reviving(w: World)
    ensures
        w.status != GameStatus::GameOver ==> w.revived() == w && w.other_choice() == w,
        w.status == GameStatus::GameOver ==> {
            let r = w.revived();
            &&& r.status == GameStatus::Playing
            &&& r.player == (Player { lives: 3, oxygen: 100_000_000_000, ..w.player })
            &&& r.core.invulnerability_ticks_remaining == 10
            &&& r.core.rewind_stock == (if w.core.rewind_stock_max < 3 { w.core.rewind_stock_max } else { 3 })
            &&& r.grid == w.grid && r.bombs == w.bombs && r.gravity == w.gravity
            &&& w.other_choice().core.game_over_selection != w.core.game_over_selection
            &&& w.other_choice() == w.with_core(
                Core { game_over_selection: w.other_choice().core.game_over_selection, ..w.core },
            )
        },
{
}

/// Pausing stops a game that is on, and lets a paused one go on. Others stay.
pub proof fn law_pausing(w: World)
    ensures
        w.paused_or_not() == (World { status: w.paused_or_not().status, ..w }),
        w.status == GameStatus::Playing ==> w.paused_or_not().status == GameStatus::Paused,
        w.status == GameStatus::Paused ==> w.paused_or_not().status == GameStatus::Playing,
        w.status == GameStatus::GameOver || w.status == GameStatus::Cleared ==> w.paused_or_not() == w,
{
}

/// Going back is possible with a rewind in stock, while the game is on or once
/// it is over; it uses one up. Moments are kept while the player lives and plays.
pub proof fn law_rewinds(w: World, past: World)
    ensures
        w.may_rewind() <==> w.core.rewind_stock >= 1 && (w.status == GameStatus::Playing || w.status
            == GameStatus::GameOver),
        w.worth_keeping() <==> w.status == GameStatus::Playing && w.core.ascending_remaining is None,
        w.core.rewind_stock > 0 ==> w.rewound(past).core.rewind_stock == w.core.rewind_stock - 1,
        w.core.rewind_stock == 0 ==> w.rewound(past).core.rewind_stock == 0,
        w.rewound(past).core.rewind_stock_max == w.core.rewind_stock_max,
        w.rewound(past).core.frame_counter == w.core.frame_counter,
        w.rewound(past).core.invincible == w.core.invincible,
        w.rewound(past).core.misses_averted == w.core.misses_averted,
        w.rewound(past).core.rng == past.core.rng,
        w.rewound(past).core.item_top_up_frontier_row == past.core.item_top_up_frontier_row,
        w.rewound(past).core.fall_tick_accum == past.core.fall_tick_accum,
        w.rewound(past).core.last_checkpoint_reported == past.core.last_checkpoint_reported,
        w.rewound(past).grid == past.grid,
        w.rewound(past).player == past.player,
        w.rewound(past).status == past.status,
        w.rewound(past).gravity == past.gravity,
        w.rewound(past).bombs == past.bombs,
{
}

/// A level begins every thirty metres. A new one is told; every tenth brings a
/// life, up to five.
pub proof fn law_levels(t: Tale)
    requires
        t.0.player.row < usize::MAX,
    ensures
        ({
            let level = t.0.player.row as int / 30 + 1;
            let a = levelled(t);
            let extra = level % 10 == 0;
            &&& level <= t.0.core.last_level_reported ==> a == t
            &&& level > t.0.core.last_level_reported ==> {
                &&& a.0.core == (Core { last_level_reported: level as usize, ..t.0.core })
                &&& a.1 == (if extra {
                    t.1.push(GameEvent::LevelUp { level: level as usize }).push(
                        GameEvent::ExtraLifeAtLevel { level: level as usize },
                    )
                } else {
                    t.1.push(GameEvent::LevelUp { level: level as usize })
                })
                &&& a.0.player == (Player { lives: a.0.player.lives, ..t.0.player })
                &&& !extra ==> a.0.player.lives == t.0.player.lives
                &&& extra && t.0.player.lives < 5 ==> a.0.player.lives == t.0.player.lives + 1
                &&& extra && t.0.player.lives >= 5 ==> a.0.player.lives == 5
                &&& a.0.grid == t.0.grid && a.0.status == t.0.status
            }
        }),
{
}

/// A checkpoint lies every hundred metres and is reached once its five rows of
/// ground are dug through. A new one before the goal is told, is on show for two
/// seconds and brings a rewind; if more than one is passed at once, or the goal
/// is there, it is only kept in mind.
pub proof fn law_checkpoints(t: Tale)
    requires
        t.0.player.row < usize::MAX,
    ensures
        ({
            let n = if t.0.player.row >= 5 { (t.0.player.row - 5) / 100 } else { 0 };
            let last = t.0.core.last_checkpoint_reported;
            let a = checked(t);
            let shown = n == last + 1 && t.0.status == GameStatus::Playing && n * 100 < t.0.core.depth_goal_m;
            &&& a.0.player == t.0.player && a.0.status == t.0.status && a.0.bombs == t.0.bombs
            &&& n <= last ==> a == t
            &&& n > last ==> a.0.core.last_checkpoint_reported == n
            &&& n > last && !shown ==> a.0.grid == t.0.grid && a.1 == t.1 && a.0.core.rewind_stock
                == t.0.core.rewind_stock && a.0.core.checkpoint_flash_remaining == t.0.core.checkpoint_flash_remaining
            &&& shown ==> {
                &&& a.1 == t.1.push(GameEvent::Checkpoint100m { at_m: (n * 100) as usize })
                &&& a.0.core.checkpoint_flash_remaining == nanos(2000)
                &&& a.0.core.checkpoint_flash_depth_m == n * 100
                &&& t.0.core.rewind_stock < t.0.core.rewind_stock_max ==> a.0.core.rewind_stock
                    == t.0.core.rewind_stock + 1
                &&& t.0.core.rewind_stock >= t.0.core.rewind_stock_max ==> a.0.core.rewind_stock
                    == t.0.core.rewind_stock_max
            }
        }),
{
}

/// At a checkpoint the five rows below its ground are free, and so is the way up.
pub proof fn law_checkpoints_open_the_way(t: Tale, p: Spot)
    requires
        t.0.status == GameStatus::Playing,
        rectangular(t.0.grid, t.0.width as nat),
        t.0.player.row < t.0.grid.len() <= usize::MAX,
        on_grid(t.0.grid, p),
        t.0.player.row >= 105,
        (t.0.player.row - 5) / 100 == t.0.core.last_checkpoint_reported + 1,
        (t.0.player.row - 5) / 100 * 100 < t.0.core.depth_goal_m,
    ensures
        ({
            let m = (t.0.player.row - 5) / 100 * 100;
            let a = checked(t);
            &&& m + 5 <= p.0 < m + 10 ==> at(a.0.grid, p) is Empty
            &&& m != 500 && p.0 < t.0.player.row && !(m + 5 <= p.0 < m + 10) ==> open_cell(at(a.0.grid, p))
            &&& m != 500 && p.0 >= t.0.player.row && !(m + 5 <= p.0 < m + 10) ==> at(a.0.grid, p) == at(t.0.grid, p)
            &&& m != 500 ==> a.0.core.rng == t.0.core.rng
        }),
{
    let n = (t.0.player.row - 5) / 100;
    let w = t.0.with_core(Core { last_checkpoint_reported: n as usize, ..t.0.core });
    let up = w.above_cleared();
    if p.0 < t.0.player.row {
        law_nothing_is_left_above(t.0.grid, t.0.width as nat, t.0.player.row, p);
    } else {
        law_what_is_in_view_stays(t.0.grid, t.0.width as nat, t.0.player.row, p);
    }
    let k = (n * 100) as usize;
    crate::terrain::lemma_redrawn(
        up.grid,
        up.core.rng,
        up.gravity,
        up.width,
        n * 100,
        if n * 100 + 5 <= up.grid.len() { n * 100 + 5 } else { up.grid.len() as int },
        crate::journey::bonus_rates(),
    );
}

/// The course is won where it ends, and that is told once.
pub proof fn law_the_goal(t: Tale)
    ensures
        ({
            let a = goal_checked(t);
            let won = t.0.status == GameStatus::Playing && t.0.player.row + 1 >= t.0.core.depth_goal_m;
            &&& won ==> a == (World { status: GameStatus::Cleared, ..t.0 }, t.1.push(GameEvent::Cleared))
            &&& !won ==> a == t
            &&& goal_checked(a) == a
        }),
{
}

/// Whoever has changed rows has reached, in this order, the level, the
/// checkpoint and the goal, and the items ahead are laid out.
pub proof fn law_the_way_down(t: Tale)
    requires
        t.0.grid.len() <= usize::MAX,
    ensures
        descended(t) == (goal_checked(checked(levelled(t))).0.stocked_ahead(), goal_checked(checked(levelled(t))).1),
        descended(t).0.player == levelled(t).0.player,
        descended(t).0.core.item_top_up_frontier_row >= t.0.core.item_top_up_frontier_row,
        t.0.player.row + 100 <= t.0.grid.len() ==> descended(t).0.core.item_top_up_frontier_row
            >= t.0.player.row + 100,
{
    let c = goal_checked(checked(levelled(t)));
    lemma_checked_len(levelled(t));
    assert(c.0.core.item_top_up_frontier_row == t.0.core.item_top_up_frontier_row);
    assert(c.0.grid.len() == t.0.grid.len());
}

proof fn lemma_checked_len(t: Tale)
    ensures
        checked(t).0.grid.len() == t.0.grid.len(),
        checked(t).0.core.item_top_up_frontier_row == t.0.core.item_top_up_frontier_row,
        checked(t).0.player == t.0.player,
{
    let n = crate::game::checkpoint_at(t.0.player.row + 1);
    let w = t.0.with_core(Core { last_checkpoint_reported: n as usize, ..t.0.core });
    let up = w.above_cleared();
    assert(up.grid.len() == t.0.grid.len());
    assert(up.gap_opened(n * 100).grid.len() == t.0.grid.len()) by {
        lemma_redrawn_len(
            up.grid,
            up.core.rng,
            up.gravity,
            up.width,
            n * 100,
            if n * 100 + 5 <= up.grid.len() { n * 100 + 5 } else { up.grid.len() as int },
        );
    }
}

proof fn lemma_redrawn_len(g: Grid, dice: Dice, gravity: crate::gravity::Loose, width: usize, from: int, to: int)
    ensures
        crate::terrain::redrawn(g, dice, gravity, width, from, to, crate::journey::bonus_rates()).0.len() == g.len(),
    decreases to - from,
{
    if to > from {
        lemma_redrawn_len(g, dice, gravity, width, from, to - 1);
    }
}

/// Blocks that are gone count for the attack only if there is an opponent.
pub proof fn law_attacks_are_saved_up(w: World, blocks: int)
    requires
        0 <= blocks,
    ensures
        w.armed(blocks) == w.with_core(Core { attack_power_pending: raised(w, blocks), ..w.core }),
{
}

/// A step against a bomb: what becomes of the bomb, and then the step that the
/// field allows, or the climb with what was taken on it.
pub proof fn law_steps_against_bombs(w: World, dir: Direction)
    requires
        dir == Direction::Left || dir == Direction::Right,
        !no_step(w),
        !in_the_air(w),
        bomb_rests_at(w.bombs, beside(w.player, dir)),
        0 <= beside(w.player, dir).1 < w.width,
    ensures
        ({
            let paid = w.with_core(
                Core {
                    move_cooldown_accum: (w.core.move_cooldown_accum - nanos(w.core.move_cooldown_ms as int)) as u64,
                    ..w.core
                },
            );
            let s = shoved(paid, dir);
            let step = stepped(w.grid, w.width as int, w.player, dir);
            let t = acted(w, step_input(dir));
            &&& s.climb matches Some(taken) ==> t == pickups_used((s.world, Seq::empty()), taken.0, taken.1)
            &&& s.climb is None ==> s.world.grid == w.grid && s.world.player == w.player
            &&& s.climb is None && !(step.outcome is MovedLevelAndCollectedItem || step.outcome is ClimbedStep) ==> {
                &&& t.0.grid == step.grid
                &&& t.0.player == step.player
                &&& t.0.bombs == s.world.bombs
                &&& t.1 == (if step.outcome == LateralOutcome::MovedLevelAndCollectedOxygen {
                    seq![GameEvent::OxygenCollected]
                } else {
                    Seq::empty()
                })
            }
        }),
{
    let paid = w.step_paid();
    let s = shoved(paid, dir);
    if s.climb is None {
        let step = stepped(w.grid, w.width as int, w.player, dir);
        let before = (World { grid: step.grid, player: step.player, ..s.world }).moved_from(
            w.here(),
            nanos(100) as u64,
        );
        assert(acted(w, step_input(dir)) == step_told((before, Seq::empty()), step.outcome));
    }
}

} // verus!
