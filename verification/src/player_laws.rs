//! What the player does to the field and to themselves, told cell by cell and
//! number by number: drilling, stepping, climbing, falling and taking things.
use vstd::prelude::*;

use crate::board::{rectangular, Cell, Grid};
use crate::flood::{at, on_grid, Spot};
use crate::gravity::Loose;
use crate::gravity_laws::{complete, filled, law_groups, of_a_kind, stuck};
use crate::groups::{group_at, Pickup};
use crate::physics::{
    crushes_driller, drilled, drilled_facing, faced, free_fallen, may_fall, stepped, DrillOutcome, FreeFallOutcome,
    LateralOutcome,
};
use crate::player::{Direction, Player};

verus! {

/// A full air gauge.
pub const FULL: u64 = 100_000_000_000;

/// The field is as it was but for the listed cell, which holds `cell`.
pub open spec fn only_changes(g: Grid, h: Grid, p: Spot, cell: Cell) -> bool {
    &&& h.len() == g.len()
    &&& forall|r: int| 0 <= r < g.len() ==> (#[trigger] h[r]).len() == g[r].len()
    &&& at(h, p) == cell
    &&& forall|q: Spot| on_grid(g, q) && q != p ==> #[trigger] at(h, q) == at(g, q)
}

/// The player is who they were, but for place, direction and bump, and has
/// taken so many capsules.
pub open spec fn took_capsules(before: Player, after: Player, n: int) -> bool {
    &&& after.lives == before.lives
    &&& after.diamonds_collected == before.diamonds_collected
    &&& after.diamond_score == before.diamond_score
    &&& after.time_bonus_total == before.time_bonus_total
    &&& after.elapsed_nanos == before.elapsed_nanos
    &&& n == 0 ==> after.oxygen == before.oxygen && after.score == before.score
        && after.oxygen_capsules_collected == before.oxygen_capsules_collected
    &&& before.oxygen_capsules_collected + n <= u32::MAX ==> after.oxygen_capsules_collected
        == before.oxygen_capsules_collected + n
    &&& n > 0 && before.oxygen + n * 50_000_000_000 >= FULL ==> after.oxygen == FULL
    &&& before.oxygen + n * 50_000_000_000 <= FULL ==> after.oxygen == before.oxygen + n * 50_000_000_000
    &&& n == 1 && before.oxygen_capsules_collected < u32::MAX && before.score + 100 * (
    before.oxygen_capsules_collected + 1) <= u64::MAX ==> after.score == before.score + 100 * (
    before.oxygen_capsules_collected + 1)
    &&& n == 2 && before.oxygen_capsules_collected + 1 < u32::MAX && before.score + 100 * (
    before.oxygen_capsules_collected + 1) + 100 * (before.oxygen_capsules_collected + 2) <= u64::MAX
        ==> after.score == before.score + 100 * (before.oxygen_capsules_collected + 1) + 100 * (
    before.oxygen_capsules_collected + 2)
}

/// The player stands and faces as before.
pub open spec fn same_stance(a: Player, b: Player) -> bool {
    a.row == b.row && a.col == b.col && a.facing == b.facing && a.bumped_direction == b.bumped_direction
}

/// The way from a cell in a direction.
pub proof fn law_directions(player: Player)
    ensures
        player.facing == Direction::Up ==> faced(player) == (player.row - 1, player.col as int),
        player.facing == Direction::Down ==> faced(player) == (player.row + 1, player.col as int),
        player.facing == Direction::Left ==> faced(player) == (player.row as int, player.col - 1),
        player.facing == Direction::Right ==> faced(player) == (player.row as int, player.col + 1),
{
}

/// A drilled diamond is off the field and in the player's hands: one diamond
/// and 500 points more, and nothing else.
pub proof fn law_diamonds_are_taken(g: Grid, player: Player, target: Spot)
    requires
        on_grid(g, target),
    ensures
        ({
            let d = drilled(g, player, target);
            let p = d.player;
            &&& d.outcome == DrillOutcome::CollectedDiamond <==> at(g, target) is Diamond
            &&& at(g, target) is Diamond ==> {
                &&& only_changes(g, d.grid, target, Cell::Empty)
                &&& player.diamonds_collected < u32::MAX ==> p.diamonds_collected == player.diamonds_collected + 1
                &&& player.diamond_score + 500 <= u64::MAX ==> p.diamond_score == player.diamond_score + 500
                &&& player.score + 500 <= u64::MAX ==> p.score == player.score + 500
                &&& p.diamonds_collected >= player.diamonds_collected
                &&& p.diamond_score >= player.diamond_score && p.score >= player.score
                &&& same_stance(p, player) && p.oxygen == player.oxygen && p.lives == player.lives
                &&& p.oxygen_capsules_collected == player.oxygen_capsules_collected
                &&& p.elapsed_nanos == player.elapsed_nanos && p.time_bonus_total == player.time_bonus_total
            }
        }),
{
}

/// A drilled star breaks, for ten points.
pub proof fn law_stars_break(g: Grid, player: Player, target: Spot)
    requires
        on_grid(g, target),
    ensures
        ({
            let d = drilled(g, player, target);
            &&& d.outcome == DrillOutcome::StarDestroyed <==> at(g, target) is Star
            &&& at(g, target) is Star ==> {
                &&& only_changes(g, d.grid, target, Cell::Empty)
                &&& d.player == (Player { score: d.player.score, ..player })
                &&& player.score + 10 <= u64::MAX ==> d.player.score == player.score + 10
                &&& d.player.score >= player.score
            }
        }),
{
}

/// A rock stands four strokes; the fifth breaks it, and it alone, for twenty
/// points of air.
pub proof fn law_rocks_break(g: Grid, player: Player, target: Spot)
    requires
        on_grid(g, target),
        at(g, target) is Rock,
    ensures
        ({
            let d = drilled(g, player, target);
            let hits = at(g, target)->Rock_hits;
            &&& hits < 4 ==> {
                &&& d.outcome == DrillOutcome::RockHitIntact
                &&& only_changes(g, d.grid, target, Cell::Rock { hits: (hits + 1) as u8 })
                &&& d.player == player
            }
            &&& hits >= 4 ==> {
                &&& d.outcome == (DrillOutcome::RockDestroyed { blocks: 1 })
                &&& only_changes(g, d.grid, target, Cell::Empty)
                &&& d.player == (Player { oxygen: d.player.oxygen, ..player })
                &&& player.oxygen >= 20_000_000_000 ==> d.player.oxygen == player.oxygen - 20_000_000_000
                &&& player.oxygen <= 20_000_000_000 ==> d.player.oxygen == 0
            }
        }),
{
}

/// Capsules, items and empty cells are not drilled.
pub proof fn law_what_is_not_drilled(g: Grid, player: Player, target: Spot)
    requires
        on_grid(g, target),
        !(at(g, target) is Color || at(g, target) is Rock || at(g, target) is Diamond || at(g, target) is Star),
    ensures
        drilled(g, player, target).grid == g,
        drilled(g, player, target).player == player,
        at(g, target) is Empty ==> drilled(g, player, target).outcome == DrillOutcome::NoEffect,
        at(g, target) is Oxygen ==> drilled(g, player, target).outcome == DrillOutcome::OxygenUntouchedByDrill,
        at(g, target) is Item ==> drilled(g, player, target).outcome == DrillOutcome::ItemUntouchedByDrill,
{
}

/// A drilled colour block goes with everything that sticks to it, and nothing
/// else does: of two blocks that stick together both go or neither, and a set of
/// blocks to which nothing sticks and which is not drilled at stays.
pub proof fn law_colors_go_together(g: Grid, player: Player, target: Spot, p: Spot, q: Spot, s: Set<Spot>)
    requires
        on_grid(g, target),
        at(g, target) is Color,
        on_grid(g, p),
    ensures
        ({
            let d = drilled(g, player, target);
            &&& at(d.grid, target) is Empty
            &&& at(d.grid, p) == at(g, p) || at(d.grid, p) is Empty
            &&& stuck(g, p, q) ==> (at(d.grid, p) is Empty <==> at(d.grid, q) is Empty)
            &&& s.contains(target) && complete(g, s) && !s.contains(p) ==> at(d.grid, p) == at(g, p)
            &&& !of_a_kind(at(g, target), at(g, p)) ==> at(d.grid, p) == at(g, p)
        }),
{
    law_groups(g, target, s);
    let group = group_at(g, target);
    let like = Set::new(|r: Spot| on_grid(g, r) && of_a_kind(at(g, target), at(g, r)));
    assert(complete(g, like));
    law_groups(g, target, like);
    if stuck(g, p, q) {
        assert(stuck(g, q, p));
        assert(group.contains(p) <==> group.contains(q));
    }
}

/// Each block that a stroke takes brings ten points, and is told.
pub proof fn law_colors_score(g: Grid, player: Player, target: Spot)
    requires
        on_grid(g, target),
        at(g, target) is Color,
        group_at(g, target).len() <= usize::MAX,
    ensures
        ({
            let d = drilled(g, player, target);
            let gone = Set::new(|p: Spot| on_grid(g, p) && filled(g, p) && at(d.grid, p) is Empty);
            &&& d.outcome == (DrillOutcome::ColorDestroyed { blocks: gone.len() as usize })
            &&& d.player == (Player { score: d.player.score, ..player })
            &&& player.score + 10 * gone.len() <= u64::MAX ==> d.player.score == player.score + 10 * gone.len()
        }),
{
    let d = drilled(g, player, target);
    let gone = Set::new(|p: Spot| on_grid(g, p) && filled(g, p) && at(d.grid, p) is Empty);
    let like = Set::new(|r: Spot| on_grid(g, r) && of_a_kind(at(g, target), at(g, r)));
    assert(complete(g, like));
    law_groups(g, target, like);
    assert(gone =~= group_at(g, target));
}

/// A stroke leads to the cell that is faced, if that is on the field. Whoever
/// drills up at what is about to come down is crushed, and the field stays.
pub proof fn law_strokes(g: Grid, player: Player, gravity: Loose, solid: Set<Spot>)
    ensures
        ({
            let d = drilled_facing(g, player, gravity, solid);
            let target = faced(player);
            let here = (player.row as int, player.col as int);
            &&& !on_grid(g, target) ==> d.grid == g && d.player == player && d.outcome == DrillOutcome::OutOfBounds
            &&& on_grid(g, target) && player.facing != Direction::Up ==> d == drilled(g, player, target)
            &&& on_grid(g, target) && player.facing == Direction::Up && !crushes_driller(
                g,
                gravity,
                target,
                here,
                solid,
            ) ==> d == drilled(g, player, target)
            &&& on_grid(g, target) && player.facing == Direction::Up && crushes_driller(
                g,
                gravity,
                target,
                here,
                solid,
            ) ==> d.grid == g && d.player == player && d.outcome == DrillOutcome::CrushedByUnstableOverhead
        }),
{
}

/// Something lies under the block that bears it.
pub open spec fn borne(g: Grid, p: Spot, player: Spot, solid: Set<Spot>) -> bool {
    let u = (p.0 + 1, p.1);
    p.0 == g.len() - 1 || solid.contains(u) || (u != player && filled(g, u))
}

/// The block shakes.
pub open spec fn trembles(gravity: Loose, p: Spot) -> bool {
    gravity.waits.dom().contains(p) && gravity.waits[p] <= gravity.shake_ticks
}

/// A diamond or a star is borne alone. If it is not, it may come down; it
/// crushes whoever drills at it, unless it still shakes with nothing on top.
pub proof fn law_single_hazards(g: Grid, gravity: Loose, target: Spot, player: Spot, solid: Set<Spot>)
    requires
        on_grid(g, target),
        at(g, target) is Diamond || at(g, target) is Star,
    ensures
        may_fall(g, gravity, target, player, solid) <==> !borne(g, target, player, solid) || trembles(
            gravity,
            target,
        ),
        crushes_driller(g, gravity, target, player, solid) <==> !borne(g, target, player, solid) && (!trembles(
            gravity,
            target,
        ) || (target.0 > 0 && !(at(g, (target.0 - 1, target.1)) is Empty || at(g, (target.0 - 1, target.1)) is Oxygen
            || at(g, (target.0 - 1, target.1)) is Item))),
{
}

/// Capsules, items and empty cells crush nobody.
pub proof fn law_harmless_cells(g: Grid, gravity: Loose, target: Spot, player: Spot, solid: Set<Spot>)
    requires
        at(g, target) is Empty || at(g, target) is Oxygen || at(g, target) is Item,
    ensures
        !may_fall(g, gravity, target, player, solid),
        !crushes_driller(g, gravity, target, player, solid),
{
}

/// A block of the group lies on the ground, on something solid, or on a block
/// outside the group and outside the player's cell.
pub open spec fn group_borne(g: Grid, s: Set<Spot>, player: Spot, solid: Set<Spot>) -> bool {
    exists|p: Spot| #[trigger]
        s.contains(p) && (p.0 == g.len() - 1 || solid.contains((p.0 + 1, p.1)) || ((p.0 + 1, p.1) != player
            && filled(g, (p.0 + 1, p.1)) && !s.contains((p.0 + 1, p.1))))
}

/// Colour blocks and rocks are borne as a group, and shake as one.
pub proof fn law_group_hazards(g: Grid, gravity: Loose, target: Spot, player: Spot, solid: Set<Spot>)
    requires
        on_grid(g, target),
        at(g, target) is Color || at(g, target) is Rock,
    ensures
        ({
            let s = group_at(g, target);
            let shakes = exists|p: Spot| #[trigger] s.contains(p) && trembles(gravity, p);
            let over = (target.0 - 1, target.1);
            let pressed = target.0 > 0 && !(at(g, over) is Empty || at(g, over) is Oxygen || at(g, over) is Item);
            &&& may_fall(g, gravity, target, player, solid) <==> !group_borne(g, s, player, solid) || shakes
            &&& crushes_driller(g, gravity, target, player, solid) <==> !group_borne(g, s, player, solid) && (
            !shakes || pressed)
        }),
{
    let s = group_at(g, target);
    if group_borne(g, s, player, solid) {
        let p = choose|p: Spot| #[trigger]
            s.contains(p) && (p.0 == g.len() - 1 || solid.contains((p.0 + 1, p.1)) || ((p.0 + 1, p.1) != player
                && filled(g, (p.0 + 1, p.1)) && !s.contains((p.0 + 1, p.1))));
        assert(crate::groups::held_up(g, p, player, solid));
        assert(crate::groups::group_held_up(g, s, player, solid));
    }
    if crate::groups::group_held_up(g, s, player, solid) {
        let p = choose|p: Spot| #[trigger]
            s.contains(p) && crate::groups::held_up(g, p, player, solid) && (p.0 + 1 == g.len() || solid.contains(
                crate::groups::below(p),
            ) || !s.contains(crate::groups::below(p)));
        assert(group_borne(g, s, player, solid));
    }
    if exists|p: Spot| #[trigger] s.contains(p) && trembles(gravity, p) {
        let p = choose|p: Spot| #[trigger] s.contains(p) && trembles(gravity, p);
        assert(crate::gravity::shaking(gravity, p));
        assert(crate::physics::group_shakes(gravity, s));
    }
    if crate::physics::group_shakes(gravity, s) {
        let p = choose|p: Spot| #[trigger] s.contains(p) && crate::gravity::shaking(gravity, p);
        assert(trembles(gravity, p));
    }
}

/// The cell beside the player, to the left or to the right.
pub open spec fn beside(player: Player, dir: Direction) -> Spot {
    (player.row as int, if dir == Direction::Left { player.col - 1 } else { player.col + 1 })
}

/// A cell that nothing has to be broken for.
pub open spec fn open_cell(cell: Cell) -> bool {
    cell is Empty || cell is Oxygen || cell is Item
}

/// Nobody leaves the field by the side; what is tried changes nothing.
pub proof fn law_the_field_ends(g: Grid, width: nat, player: Player, dir: Direction)
    requires
        dir == Direction::Left || dir == Direction::Right,
        !(0 <= beside(player, dir).1 < width),
    ensures
        stepped(g, width as int, player, dir).grid == g,
        stepped(g, width as int, player, dir).player == player,
        stepped(g, width as int, player, dir).outcome == LateralOutcome::OutOfBounds,
{
}

/// An open cell is stepped into; a capsule or an item in it is taken off the
/// field, and a capsule is breathed in at once.
pub proof fn law_open_ways(g: Grid, width: nat, player: Player, dir: Direction)
    requires
        rectangular(g, width),
        player.row < g.len(),
        player.col < width <= usize::MAX,
        dir == Direction::Left || dir == Direction::Right,
        0 <= beside(player, dir).1 < width,
        open_cell(at(g, beside(player, dir))),
    ensures
        ({
            let s = stepped(g, width as int, player, dir);
            let cell = at(g, beside(player, dir));
            &&& s.player.row == player.row
            &&& s.player.col == beside(player, dir).1
            &&& s.player.facing == dir
            &&& s.player.bumped_direction is None
            &&& took_capsules(player, s.player, if cell is Oxygen { 1 } else { 0 })
            &&& only_changes(g, s.grid, beside(player, dir), Cell::Empty)
            &&& s.outcome == (match cell {
                Cell::Oxygen => LateralOutcome::MovedLevelAndCollectedOxygen,
                Cell::Item(effect) => LateralOutcome::MovedLevelAndCollectedItem(effect),
                _ => LateralOutcome::MovedLevel,
            })
        }),
{
    assert(g[player.row as int].len() == width);
}

/// A block in the way is bumped into. Only who has bumped into it before, on the
/// same side, climbs it, and only if the cells overhead and on top of it are
/// open; whatever lies in them is taken.
pub proof fn law_blocked_ways(g: Grid, width: nat, player: Player, dir: Direction)
    requires
        rectangular(g, width),
        player.row < g.len(),
        player.col < width <= usize::MAX,
        dir == Direction::Left || dir == Direction::Right,
        0 <= beside(player, dir).1 < width,
        !open_cell(at(g, beside(player, dir))),
    ensures
        ({
            let s = stepped(g, width as int, player, dir);
            let over = (player.row - 1, player.col as int);
            let top = (player.row - 1, beside(player, dir).1);
            let climbs = player.bumped_direction == Some(dir) && player.row > 0 && open_cell(at(g, over))
                && open_cell(at(g, top));
            &&& !climbs ==> {
                &&& s.grid == g
                &&& s.player == (Player { facing: dir, bumped_direction: Some(dir), ..player })
                &&& s.outcome == LateralOutcome::Blocked
            }
            &&& climbs ==> {
                &&& s.player.row == player.row - 1
                &&& s.player.col == beside(player, dir).1
                &&& s.player.facing == dir
                &&& s.player.bumped_direction is None
                &&& took_capsules(
                    player,
                    s.player,
                    (if at(g, over) is Oxygen { 1int } else { 0 }) + (if at(g, top) is Oxygen { 1int } else { 0 }),
                )
                &&& at(s.grid, over) is Empty
                &&& at(s.grid, top) is Empty
                &&& forall|q: Spot| on_grid(g, q) && q != over && q != top ==> #[trigger] at(s.grid, q) == at(g, q)
                &&& s.outcome matches LateralOutcome::ClimbedStep { overhead, landing } && overhead == held(at(g, over))
                    && landing == held(at(g, top))
            }
        }),
{
    assert(g[player.row as int].len() == width);
    if player.row > 0 {
        assert(g[player.row - 1].len() == width);
    }
}

/// What a hand finds in a cell.
pub open spec fn held(cell: Cell) -> Option<Pickup> {
    match cell {
        Cell::Oxygen => Some(Pickup::Oxygen),
        Cell::Item(effect) => Some(Pickup::Item(effect)),
        _ => None,
    }
}

/// An open cell below is fallen into, one row at a time, and what lies in it is
/// taken. Anything else, and the end of the field, holds the player up.
pub proof fn law_falls(g: Grid, width: nat, player: Player)
    requires
        rectangular(g, width),
        player.col < width,
        g.len() <= usize::MAX,
    ensures
        ({
            let f = free_fallen(g, player);
            let under = (player.row + 1, player.col as int);
            let falls = player.row + 1 < g.len() && open_cell(at(g, under));
            &&& !falls ==> f.grid == g && f.player == player && f.outcome == FreeFallOutcome::DidNotFall
            &&& falls ==> {
                &&& f.player.row == player.row + 1
                &&& f.player.col == player.col
                &&& f.player.facing == player.facing
                &&& f.player.bumped_direction == player.bumped_direction
                &&& took_capsules(player, f.player, if at(g, under) is Oxygen { 1 } else { 0 })
                &&& only_changes(g, f.grid, under, Cell::Empty)
                &&& f.outcome == (match at(g, under) {
                    Cell::Oxygen => FreeFallOutcome::FellAndCollectedOxygen,
                    Cell::Item(effect) => FreeFallOutcome::FellAndCollectedItem(effect),
                    _ => FreeFallOutcome::Fell,
                })
            }
        }),
{
    if player.row + 1 < g.len() {
        assert(g[player.row + 1].len() == width);
    }
}

} // verus!
