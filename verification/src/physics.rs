//! The rules of moving and drilling: what a step to the side, a stroke of the
//! drill, a tick of gravity and a tick of free fall do to the field and the
//! player.
use vstd::prelude::*;

use crate::board::{with_cell, BlockMove, Board, Cell, Grid, ItemEffect, Pos};
use crate::constants::{OXYGEN_DECAY_PER_SEC, OXYGEN_ROCK_PENALTY, SCORE_PER_DRILLED_BLOCK, SCORE_PER_VANISHED_BLOCK};
use crate::fall::{
    apply_gravity_tick, blocks_moved, cells_vanished, colors_among, field_after, is_pickup, loose_after,
    onto_player, pull_of, rocks_among, GravityOutcome, Pull,
};
use crate::flood::{at, on_grid, spot, spots, Spot};
use crate::gravity::{shaking, GravityState, Loose};
use crate::groups::{
    above, cleared, connected_rock_group, connected_same_color, drill_color_block, group_at, group_held_up,
    held_up, hit_rock, is_group_supported, is_supported, rock_after_hit, Pickup, RockHitResult,
};
use crate::player::{Direction, Player};

verus! {

/// What one stroke of the drill did.
#[derive(Debug, Clone, Copy, PartialEq, Eq, Structural)]
pub enum DrillOutcome {
    /// The stroke went off the field.
    OutOfBounds,
    /// There was nothing to drill.
    NoEffect,
    /// A rock was hit and still stands.
    RockHitIntact,
    /// A rock broke, at the cost of air.
    RockDestroyed { blocks: usize },
    /// A group of like colour vanished.
    ColorDestroyed { blocks: usize },
    /// Air capsules cannot be drilled; they are taken by touching them.
    OxygenUntouchedByDrill,
    /// A diamond was taken.
    CollectedDiamond,
    /// The block overhead is falling: it crushes whoever drills at it.
    CrushedByUnstableOverhead,
    /// A star block broke.
    StarDestroyed,
    /// Items cannot be drilled; they are taken by touching them.
    ItemUntouchedByDrill,
}

/// What a step to the side did.
#[derive(Debug, Clone, Copy, PartialEq, Eq, Structural)]
pub enum LateralOutcome {
    /// The step would leave the field; nothing changed.
    OutOfBounds,
    MovedLevel,
    MovedLevelAndCollectedOxygen,
    MovedLevelAndCollectedItem(ItemEffect),
    /// The player climbed onto the block they had bumped into, taking what was
    /// overhead and where they landed.
    ClimbedStep { overhead: Option<Pickup>, landing: Option<Pickup> },
    /// The way is blocked; the player faces it and stays.
    Blocked,
}

/// What a tick of gravity did, as the game sees it.
#[derive(Debug)]
pub struct GravityTickResult {
    pub moved_cells: Vec<BlockMove>,
    pub auto_vanished_blocks: usize,
    pub auto_vanished_rock_blocks: usize,
    /// A block fell onto a player who can be hurt.
    pub life_lost_to_crush: bool,
    pub oxygen_collected: usize,
    pub items_collected: Vec<ItemEffect>,
    pub vanished_cells: Vec<(Pos, Cell)>,
}

/// What a tick of free fall did.
#[derive(Debug, Clone, Copy, PartialEq, Eq, Structural)]
pub enum FreeFallOutcome {
    DidNotFall,
    Fell,
    FellAndCollectedOxygen,
    FellAndCollectedItem(ItemEffect),
}

/// The field and the player after an action, with its outcome.
pub struct Drilled {
    pub grid: Grid,
    pub player: Player,
    pub outcome: DrillOutcome,
}

/// What drilling at `target` does.
pub open spec fn drilled(g: Grid, player: Player, target: Spot) -> Drilled {
    let emptied = with_cell(g, target.0, target.1, Cell::Empty);
    match at(g, target) {
        Cell::Empty => Drilled { grid: g, player, outcome: DrillOutcome::NoEffect },
        Cell::Color(_) => {
            let group = group_at(g, target);
            Drilled {
                grid: cleared(g, group),
                player: player.scored(group.len() * SCORE_PER_DRILLED_BLOCK),
                outcome: DrillOutcome::ColorDestroyed { blocks: group.len() as usize },
            }
        },
        Cell::Rock { hits } => {
            let after = rock_after_hit(hits);
            Drilled {
                grid: with_cell(g, target.0, target.1, after),
                player: if after == Cell::Empty {
                    player.drained(OXYGEN_ROCK_PENALTY as int)
                } else {
                    player
                },
                outcome: if after == Cell::Empty {
                    DrillOutcome::RockDestroyed { blocks: 1 }
                } else {
                    DrillOutcome::RockHitIntact
                },
            }
        },
        Cell::Oxygen => Drilled { grid: g, player, outcome: DrillOutcome::OxygenUntouchedByDrill },
        Cell::Diamond => Drilled {
            grid: emptied,
            player: player.diamond_taken(),
            outcome: DrillOutcome::CollectedDiamond,
        },
        Cell::Star { .. } => Drilled {
            grid: emptied,
            player: player.scored(SCORE_PER_DRILLED_BLOCK as int),
            outcome: DrillOutcome::StarDestroyed,
        },
        Cell::Item(_) => Drilled { grid: g, player, outcome: DrillOutcome::ItemUntouchedByDrill },
    }
}

/// Drills at a cell. The player does not move.
fn drill_cell(board: &mut Board, player: &mut Player, target: Pos) -> (outcome: DrillOutcome)
    requires
        old(board).wf(),
        on_grid(old(board)@, spot(target)),
    ensures
        final(board).wf(),
        final(board).width == old(board).width,
        (Drilled { grid: final(board)@, player: *final(player), outcome }) == drilled(
            old(board)@,
            *old(player),
            spot(target),
        ),
{
    match board.cell(target.0, target.1) {
        Cell::Empty => DrillOutcome::NoEffect,
        Cell::Color(_) => {
            let blocks: usize = drill_color_block(board, target);
            player.award_drill_score(blocks);
            DrillOutcome::ColorDestroyed { blocks }
        },
        Cell::Rock { .. } => {
            let result = hit_rock(board, target);
            match result {
                Some(RockHitResult::Destroyed { blocks }) => {
                    player.apply_rock_break_penalty();
                    DrillOutcome::RockDestroyed { blocks }
                },
                _ => DrillOutcome::RockHitIntact,
            }
        },
        Cell::Oxygen => DrillOutcome::OxygenUntouchedByDrill,
        Cell::Diamond => {
            board.set(target.0, target.1, Cell::Empty);
            player.collect_diamond();
            DrillOutcome::CollectedDiamond
        },
        Cell::Star { .. } => {
            board.set(target.0, target.1, Cell::Empty);
            player.award_drill_score(1);
            DrillOutcome::StarDestroyed
        },
        Cell::Item(_) => DrillOutcome::ItemUntouchedByDrill,
    }
}

/// A cell that can be passed through while climbing.
pub open spec fn passable(cell: Cell) -> bool {
    cell is Empty || cell is Oxygen || cell is Item
}

/// Whether a cell can be passed through while climbing: capsules and items
/// can, being taken on the way; blocks cannot.
pub fn is_climb_passable(cell: Cell) -> (r: bool)
    ensures
        r == passable(cell),
{
    matches!(cell, Cell::Empty | Cell::Oxygen | Cell::Item(_))
}

/// What is picked up in a cell.
pub open spec fn pickup_in(cell: Cell) -> Option<Pickup> {
    match cell {
        Cell::Oxygen => Some(Pickup::Oxygen),
        Cell::Item(effect) => Some(Pickup::Item(effect)),
        _ => None,
    }
}

/// The field once what can be picked up at `p` is gone.
pub open spec fn picked_grid(g: Grid, p: Spot) -> Grid {
    if pickup_in(at(g, p)) is Some {
        with_cell(g, p.0, p.1, Cell::Empty)
    } else {
        g
    }
}

/// The player with what they picked up.
pub open spec fn picked_player(player: Player, pickup: Option<Pickup>) -> Player {
    if pickup == Some(Pickup::Oxygen) {
        player.capsule_taken()
    } else {
        player
    }
}

/// Takes what can be picked up in a cell. A capsule takes effect at once; what
/// an item does is up to the caller. Blocks stay.
pub fn take_climb_pickup(board: &mut Board, player: &mut Player, target: Pos) -> (pickup: Option<Pickup>)
    requires
        old(board).wf(),
        on_grid(old(board)@, spot(target)),
    ensures
        final(board).wf(),
        final(board).width == old(board).width,
        pickup == pickup_in(at(old(board)@, spot(target))),
        final(board)@ == picked_grid(old(board)@, spot(target)),
        *final(player) == picked_player(*old(player), pickup),
{
    match board.cell(target.0, target.1) {
        Cell::Oxygen => {
            board.set(target.0, target.1, Cell::Empty);
            player.collect_oxygen_capsule();
            Some(Pickup::Oxygen)
        },
        Cell::Item(effect) => {
            board.set(target.0, target.1, Cell::Empty);
            Some(Pickup::Item(effect))
        },
        _ => None,
    }
}

/// The field and the player after a step to the side, with its outcome.
pub struct Stepped {
    pub grid: Grid,
    pub player: Player,
    pub outcome: LateralOutcome,
}

/// What a step in direction `dir` does on a field of `width` columns.
///
/// The way is free if the next cell is empty, a capsule or an item. If it is
/// blocked, the player bumps into the block; bumping again on the same side
/// makes them climb it, unless a block overhead or above the obstacle is in
/// the way.
pub open spec fn stepped(g: Grid, width: int, player: Player, dir: Direction) -> Stepped {
    let nc = player.col + dir.step().1;
    let next = (player.row as int, nc);
    let turned = Player { facing: dir, ..player };
    let moved = Player { col: nc as usize, bumped_direction: None, ..turned };
    let overhead = (player.row - 1, player.col as int);
    let landing = (player.row - 1, nc);
    if nc < 0 || nc >= width {
        Stepped { grid: g, player, outcome: LateralOutcome::OutOfBounds }
    } else if at(g, next) is Empty {
        Stepped { grid: g, player: moved, outcome: LateralOutcome::MovedLevel }
    } else if at(g, next) is Oxygen {
        Stepped {
            grid: with_cell(g, next.0, next.1, Cell::Empty),
            player: moved.capsule_taken(),
            outcome: LateralOutcome::MovedLevelAndCollectedOxygen,
        }
    } else if at(g, next) is Item {
        Stepped {
            grid: with_cell(g, next.0, next.1, Cell::Empty),
            player: moved,
            outcome: LateralOutcome::MovedLevelAndCollectedItem(at(g, next)->Item_0),
        }
    } else if player.bumped_direction == Some(dir) && player.row > 0 && passable(at(g, overhead))
        && passable(at(g, landing)) {
        climbed(g, turned, nc)
    } else {
        Stepped {
            grid: g,
            player: Player { bumped_direction: Some(dir), ..turned },
            outcome: LateralOutcome::Blocked,
        }
    }
}

/// A climb onto the next column: first what is overhead is taken, then what is
/// above the obstacle.
pub open spec fn climbed(g: Grid, player: Player, nc: int) -> Stepped {
    let overhead = (player.row - 1, player.col as int);
    let landing = (player.row - 1, nc);
    let first = pickup_in(at(g, overhead));
    let second = pickup_in(at(g, landing));
    Stepped {
        grid: picked_grid(picked_grid(g, overhead), landing),
        player: Player {
            row: (player.row - 1) as usize,
            col: nc as usize,
            bumped_direction: None,
            ..picked_player(picked_player(player, first), second)
        },
        outcome: LateralOutcome::ClimbedStep { overhead: first, landing: second },
    }
}

/// Climbs onto the neighbouring column, taking what is overhead and what is
/// where the player lands.
pub fn climb_onto(board: &mut Board, player: &mut Player, nc: usize) -> (pickups: (Option<Pickup>, Option<Pickup>))
    requires
        old(board).wf(),
        0 < old(player).row < old(board)@.len(),
        old(player).col < old(board).width,
        nc < old(board).width,
        nc != old(player).col,
    ensures
        final(board).wf(),
        final(board).width == old(board).width,
        (Stepped {
            grid: final(board)@,
            player: *final(player),
            outcome: LateralOutcome::ClimbedStep { overhead: pickups.0, landing: pickups.1 },
        }) == climbed(old(board)@, *old(player), nc as int),
{
    let ghost g = board@;
    let up: usize = player.row - 1;
    assert(g[up as int].len() == board.width);
    let first = take_climb_pickup(board, player, (up, player.col));
    assert(board@[up as int].len() == board.width);
    assert(at(board@, (up as int, nc as int)) == at(g, (up as int, nc as int)));
    let second = take_climb_pickup(board, player, (up, nc));
    player.row = up;
    player.col = nc;
    player.bumped_direction = None;
    (first, second)
}

/// Takes a step to the left or to the right. Nothing is drilled.
pub fn move_lateral(board: &mut Board, player: &mut Player, dir: Direction) -> (outcome: LateralOutcome)
    requires
        old(board).wf(),
        dir == Direction::Left || dir == Direction::Right,
        (old(player).row < old(board)@.len() && old(player).col < old(board).width) || (old(player).col
            < isize::MAX && !(0 <= old(player).col + dir.step().1 < old(board).width)),
    ensures
        final(board).wf(),
        final(board).width == old(board).width,
        (Stepped { grid: final(board)@, player: *final(player), outcome }) == stepped(
            old(board)@,
            old(board).width as int,
            *old(player),
            dir,
        ),
{
    let ghost g = board@;
    let left: bool = dir == Direction::Left;
    if left && player.col == 0 {
        return LateralOutcome::OutOfBounds;
    }
    let nc: usize = if left { player.col - 1 } else { player.col + 1 };
    if nc >= board.width() {
        return LateralOutcome::OutOfBounds;
    }
    assert(g[player.row as int].len() == board.width);
    let was_bumped: bool = player.bumped_direction == Some(dir);
    player.facing = dir;
    match board.cell(player.row, nc) {
        Cell::Empty => {
            player.col = nc;
            player.bumped_direction = None;
            return LateralOutcome::MovedLevel;
        },
        Cell::Oxygen => {
            board.set(player.row, nc, Cell::Empty);
            player.collect_oxygen_capsule();
            player.col = nc;
            player.bumped_direction = None;
            return LateralOutcome::MovedLevelAndCollectedOxygen;
        },
        Cell::Item(effect) => {
            board.set(player.row, nc, Cell::Empty);
            player.col = nc;
            player.bumped_direction = None;
            return LateralOutcome::MovedLevelAndCollectedItem(effect);
        },
        _ => {},
    }
    if was_bumped && player.row > 0 {
        let up: usize = player.row - 1;
        assert(g[up as int].len() == board.width);
        if is_climb_passable(board.cell(up, player.col)) && is_climb_passable(board.cell(up, nc)) {
            let (overhead, landing) = climb_onto(board, player, nc);
            return LateralOutcome::ClimbedStep { overhead, landing };
        }
    }
    player.bumped_direction = Some(dir);
    LateralOutcome::Blocked
}

/// How a block stands: whether it has lost its support, and whether it still
/// shakes.
#[derive(Debug, Clone, Copy, PartialEq, Eq, Structural)]
pub struct FallHazardStatus {
    pub unsupported: bool,
    pub shaking: bool,
}

/// One block of the group shakes.
pub open spec fn group_shakes(gravity: Loose, group: Set<Spot>) -> bool {
    exists|p: Spot| #[trigger] group.contains(p) && shaking(gravity, p)
}

/// How the block at `target` stands. Colour blocks and rocks stand and shake
/// with their group, diamonds and stars alone. What cannot hurt has no status.
pub open spec fn hazard(
    g: Grid,
    gravity: Loose,
    target: Spot,
    player: Spot,
    solid: Set<Spot>,
) -> Option<FallHazardStatus> {
    match at(g, target) {
        Cell::Empty | Cell::Oxygen | Cell::Item(_) => None,
        Cell::Color(_) | Cell::Rock { .. } => Some(
            FallHazardStatus {
                unsupported: !group_held_up(g, group_at(g, target), player, solid),
                shaking: group_shakes(gravity, group_at(g, target)),
            },
        ),
        Cell::Diamond | Cell::Star { .. } => Some(
            FallHazardStatus {
                unsupported: !held_up(g, target, player, solid),
                shaking: shaking(gravity, target),
            },
        ),
    }
}

/// Whether one of the listed blocks shakes.
fn any_shaking(gravity: &GravityState, group: &Vec<Pos>) -> (r: bool)
    requires
        gravity.wf(),
    ensures
        r == group_shakes(gravity@, spots(group@)),
{
    let mut i: usize = 0;
    while i < group.len()
        invariant
            gravity.wf(),
            i <= group@.len(),
            forall|k: int| 0 <= k < i ==> !shaking(gravity@, spot(#[trigger] group@[k])),
        decreases group@.len() - i,
    {
        if gravity.is_shaking(group[i]) {
            assert(spots(group@).contains(spot(group@[i as int])));
            return true;
        }
        i = i + 1;
    }
    assert forall|p: Spot| #[trigger] spots(group@).contains(p) implies !shaking(gravity@, p) by {
        let k = choose|k: int| 0 <= k < group@.len() && #[trigger] spot(group@[k]) == p;
        assert(!shaking(gravity@, spot(group@[k])));
    }
    false
}

/// How the block at `target` stands.
fn fall_hazard_status(
    board: &Board,
    gravity: &GravityState,
    target: Pos,
    player_pos: Pos,
    solid: &[Pos],
) -> (status: Option<FallHazardStatus>)
    requires
        board.wf(),
        gravity.wf(),
        on_grid(board@, spot(target)),
    ensures
        status == hazard(board@, gravity@, spot(target), spot(player_pos), spots(solid@)),
{
    match board.cell(target.0, target.1) {
        Cell::Empty | Cell::Oxygen | Cell::Item(_) => None,
        Cell::Color(color) => {
            let group: Vec<Pos> = connected_same_color(board, target, color);
            let unsupported: bool = !is_group_supported(board, &group, player_pos, solid);
            Some(FallHazardStatus { unsupported, shaking: any_shaking(gravity, &group) })
        },
        Cell::Rock { .. } => {
            let group: Vec<Pos> = connected_rock_group(board, target);
            let unsupported: bool = !is_group_supported(board, &group, player_pos, solid);
            Some(FallHazardStatus { unsupported, shaking: any_shaking(gravity, &group) })
        },
        Cell::Diamond | Cell::Star { .. } => {
            let unsupported: bool = !is_supported(board, target, player_pos, solid);
            Some(FallHazardStatus { unsupported, shaking: gravity.is_shaking(target) })
        },
    }
}

/// A block that can crush someone lies directly above.
pub open spec fn hazard_above(g: Grid, p: Spot) -> bool {
    p.0 > 0 && !passable(at(g, above(p)))
}

/// Whether a block that can crush someone lies directly above.
fn has_hazard_directly_above(board: &Board, pos: Pos) -> (r: bool)
    requires
        board.wf(),
        on_grid(board@, spot(pos)),
    ensures
        r == hazard_above(board@, spot(pos)),
{
    if pos.0 == 0 {
        return false;
    }
    assert(board@[pos.0 - 1].len() == board.width);
    matches!(
        board.cell(pos.0 - 1, pos.1),
        Cell::Color(_) | Cell::Rock { .. } | Cell::Diamond | Cell::Star { .. }
    )
}

/// Drilling upward at `target` gets one crushed: the block has no support and
/// does not shake any more, or another block bears down on it.
pub open spec fn crushes_driller(
    g: Grid,
    gravity: Loose,
    target: Spot,
    player: Spot,
    solid: Set<Spot>,
) -> bool {
    match hazard(g, gravity, target, player, solid) {
        Some(status) => status.unsupported && (!status.shaking || hazard_above(g, target)),
        None => false,
    }
}

/// Whether drilling upward at `target` gets one crushed.
fn is_overhead_unstable(
    board: &Board,
    gravity: &GravityState,
    target: Pos,
    player_pos: Pos,
    solid: &[Pos],
) -> (r: bool)
    requires
        board.wf(),
        gravity.wf(),
        on_grid(board@, spot(target)),
    ensures
        r == crushes_driller(board@, gravity@, spot(target), spot(player_pos), spots(solid@)),
{
    match fall_hazard_status(board, gravity, target, player_pos, solid) {
        Some(status) => {
            status.unsupported && (!status.shaking || has_hazard_directly_above(board, target))
        },
        None => false,
    }
}

/// The block at `target` may come down: it has no support, or it shakes.
pub open spec fn may_fall(
    g: Grid,
    gravity: Loose,
    target: Spot,
    player: Spot,
    solid: Set<Spot>,
) -> bool {
    match hazard(g, gravity, target, player, solid) {
        Some(status) => status.unsupported || status.shaking,
        None => false,
    }
}

/// Whether the block at `target` may come down.
pub fn is_falling_hazard(
    board: &Board,
    gravity: &GravityState,
    target: Pos,
    player_pos: Pos,
    solid: &[Pos],
) -> (r: bool)
    requires
        board.wf(),
        gravity.wf(),
        on_grid(board@, spot(target)),
    ensures
        r == may_fall(board@, gravity@, spot(target), spot(player_pos), spots(solid@)),
{
    match fall_hazard_status(board, gravity, target, player_pos, solid) {
        Some(status) => status.unsupported || status.shaking,
        None => false,
    }
}

/// The spot that the player faces.
pub open spec fn faced(player: Player) -> Spot {
    (player.row + player.facing.step().0, player.col + player.facing.step().1)
}

/// What a stroke of the drill does. The player stays where they are.
pub open spec fn drilled_facing(g: Grid, player: Player, gravity: Loose, solid: Set<Spot>) -> Drilled {
    let target = faced(player);
    let here = (player.row as int, player.col as int);
    if !on_grid(g, target) {
        Drilled { grid: g, player, outcome: DrillOutcome::OutOfBounds }
    } else if player.facing == Direction::Up && crushes_driller(g, gravity, target, here, solid) {
        Drilled { grid: g, player, outcome: DrillOutcome::CrushedByUnstableOverhead }
    } else {
        drilled(g, player, target)
    }
}

/// The cell that the player faces, if it is on the field.
pub fn faced_cell(board: &Board, player: &Player) -> (target: Option<Pos>)
    requires
        board.wf(),
        player.row < board@.len(),
        player.col < board.width,
    ensures
        target is Some <==> on_grid(board@, faced(*player)),
        target matches Some(p) ==> spot(p) == faced(*player),
{
    let n: usize = board.depth_rows();
    let w: usize = board.width();
    assert(board@[player.row as int].len() == w);
    match player.facing {
        Direction::Up => {
            if player.row == 0 {
                None
            } else {
                assert(board@[player.row - 1].len() == w);
                Some((player.row - 1, player.col))
            }
        },
        Direction::Down => {
            if player.row >= n - 1 {
                None
            } else {
                assert(board@[player.row + 1].len() == w);
                Some((player.row + 1, player.col))
            }
        },
        Direction::Left => {
            if player.col == 0 {
                None
            } else {
                Some((player.row, player.col - 1))
            }
        },
        Direction::Right => {
            if player.col >= w - 1 {
                None
            } else {
                Some((player.row, player.col + 1))
            }
        },
    }
}

/// Drills at the cell that the player faces, without moving. Whoever drills
/// upward at a falling block is crushed instead.
pub fn drill_facing(
    board: &mut Board,
    player: &mut Player,
    gravity: &GravityState,
    solid: &[Pos],
) -> (outcome: DrillOutcome)
    requires
        old(board).wf(),
        gravity.wf(),
        old(player).row < old(board)@.len(),
        old(player).col < old(board).width,
    ensures
        final(board).wf(),
        final(board).width == old(board).width,
        (Drilled { grid: final(board)@, player: *final(player), outcome }) == drilled_facing(
            old(board)@,
            *old(player),
            gravity@,
            spots(solid@),
        ),
{
    match faced_cell(board, player) {
        None => DrillOutcome::OutOfBounds,
        Some(target) => {
            if player.facing == Direction::Up && is_overhead_unstable(
                board,
                gravity,
                target,
                player.position(),
                solid,
            ) {
                return DrillOutcome::CrushedByUnstableOverhead;
            }
            drill_cell(board, player, target)
        },
    }
}

/// Lets the gauge fall for so many nanoseconds.
pub fn apply_oxygen_decay(player: &mut Player, elapsed_nanos: u64)
    ensures
        *final(player) == old(player).drained(OXYGEN_DECAY_PER_SEC * elapsed_nanos),
{
    player.decay_oxygen(OXYGEN_DECAY_PER_SEC, elapsed_nanos);
}

/// The player after a tick of gravity: colour blocks that vanished score, and
/// a capsule that fell onto them is taken.
pub open spec fn player_pulled(g: Grid, pull: Pull, player: Player) -> Player {
    let scored = player.scored(colors_among(cells_vanished(g, pull)) * SCORE_PER_VANISHED_BLOCK);
    if onto_player(g, pull) == Some(Cell::Oxygen) {
        scored.capsule_taken()
    } else {
        scored
    }
}

/// The result says what the tick did to a player who can or cannot be hurt.
pub open spec fn result_tells(r: GravityTickResult, g: Grid, pull: Pull, invulnerable: bool) -> bool {
    &&& r.moved_cells@ == blocks_moved(g, pull)
    &&& r.vanished_cells@ == cells_vanished(g, pull)
    &&& r.auto_vanished_blocks == colors_among(cells_vanished(g, pull))
    &&& r.auto_vanished_rock_blocks == rocks_among(cells_vanished(g, pull))
    &&& r.life_lost_to_crush == crushes_player(g, pull, invulnerable)
    &&& r.oxygen_collected == (if onto_player(g, pull) == Some(Cell::Oxygen) { 1int } else { 0 })
    &&& r.items_collected@ == items_taken(g, pull)
}

/// A block falls onto a player who can be hurt.
pub open spec fn crushes_player(g: Grid, pull: Pull, invulnerable: bool) -> bool {
    !invulnerable && (onto_player(g, pull) matches Some(cell) && !is_pickup(cell))
}

/// The items that fall onto the player.
pub open spec fn items_taken(g: Grid, pull: Pull) -> Seq<ItemEffect> {
    match onto_player(g, pull) {
        Some(Cell::Item(effect)) => seq![effect],
        _ => Seq::empty(),
    }
}

/// Runs one tick of gravity and settles what it means for the player.
pub fn process_gravity_tick(
    board: &mut Board,
    player: &mut Player,
    solid: &[Pos],
    gravity: &mut GravityState,
    invulnerable: bool,
    shake_ticks: u8,
) -> (result: GravityTickResult)
    requires
        old(board).wf(),
        old(gravity).wf(),
    ensures
        final(board).wf(),
        final(board).width == old(board).width,
        final(gravity).wf(),
        ({
            let g = old(board)@;
            let here = (old(player).row, old(player).col);
            let pull = pull_of(here, solid@, old(gravity)@, shake_ticks);
            &&& result_tells(result, g, pull, invulnerable)
            &&& final(board)@ == field_after(g, pull)
            &&& final(gravity)@ == loose_after(g, pull)
            &&& *final(player) == player_pulled(g, pull, *old(player))
        }),
{
    let outcome: GravityOutcome = apply_gravity_tick(
        board,
        player.position(),
        solid,
        gravity,
        shake_ticks,
    );
    if outcome.auto_vanished_blocks > 0 {
        player.award_auto_vanish_score(outcome.auto_vanished_blocks);
    } else {
        assert(player.scored(0) == *player);
    }
    if outcome.oxygen_collected > 0 {
        player.collect_oxygen_capsule();
    }
    GravityTickResult {
        moved_cells: outcome.moved_cells,
        auto_vanished_blocks: outcome.auto_vanished_blocks,
        auto_vanished_rock_blocks: outcome.auto_vanished_rock_blocks,
        life_lost_to_crush: outcome.crushed && !invulnerable,
        oxygen_collected: outcome.oxygen_collected,
        items_collected: outcome.items_collected,
        vanished_cells: outcome.vanished_cells,
    }
}

/// The field and the player after a tick of free fall, with its outcome.
pub struct Fell {
    pub grid: Grid,
    pub player: Player,
    pub outcome: FreeFallOutcome,
}

/// What a tick of free fall does: the player sinks into a cell that is empty
/// or holds a capsule or an item, which they take.
pub open spec fn free_fallen(g: Grid, player: Player) -> Fell {
    let under = (player.row + 1, player.col as int);
    let sunk = Player { row: (player.row + 1) as usize, ..player };
    if player.row + 1 >= g.len() {
        Fell { grid: g, player, outcome: FreeFallOutcome::DidNotFall }
    } else {
        match at(g, under) {
            Cell::Empty => Fell { grid: g, player: sunk, outcome: FreeFallOutcome::Fell },
            Cell::Oxygen => Fell {
                grid: with_cell(g, under.0, under.1, Cell::Empty),
                player: sunk.capsule_taken(),
                outcome: FreeFallOutcome::FellAndCollectedOxygen,
            },
            Cell::Item(effect) => Fell {
                grid: with_cell(g, under.0, under.1, Cell::Empty),
                player: sunk,
                outcome: FreeFallOutcome::FellAndCollectedItem(effect),
            },
            _ => Fell { grid: g, player, outcome: FreeFallOutcome::DidNotFall },
        }
    }
}

/// Lets the player fall one row if nothing holds them up.
pub fn apply_player_free_fall(board: &mut Board, player: &mut Player) -> (outcome: FreeFallOutcome)
    requires
        old(board).wf(),
        old(player).col < old(board).width,
    ensures
        final(board).wf(),
        final(board).width == old(board).width,
        (Fell { grid: final(board)@, player: *final(player), outcome }) == free_fallen(
            old(board)@,
            *old(player),
        ),
{
    let n: usize = board.depth_rows();
    if n == 0 || player.row >= n - 1 {
        return FreeFallOutcome::DidNotFall;
    }
    let under: usize = player.row + 1;
    assert(board@[under as int].len() == board.width);
    match board.cell(under, player.col) {
        Cell::Empty => {
            player.row = under;
            FreeFallOutcome::Fell
        },
        Cell::Oxygen => {
            board.set(under, player.col, Cell::Empty);
            player.row = under;
            player.collect_oxygen_capsule();
            FreeFallOutcome::FellAndCollectedOxygen
        },
        Cell::Item(effect) => {
            board.set(under, player.col, Cell::Empty);
            player.row = under;
            FreeFallOutcome::FellAndCollectedItem(effect)
        },
        _ => FreeFallOutcome::DidNotFall,
    }
}

} // verus!
