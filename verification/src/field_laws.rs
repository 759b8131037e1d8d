//! What holds of every field, whatever happens on it.
use vstd::prelude::*;

use crate::board::{rectangular, Cell, Grid, ItemEffect};
use crate::constants::{least, ITEM_WINDOW_AHEAD_ROWS};
use crate::dice::Dice;
use crate::effects::{cleared_above, column_pile, free_above, pushed_up, screen_top, stacked, stacked_cell};
use crate::fall::{blocks_moved, falling, field_fallen, is_pickup, lemma_room_to_fall, occupied, Pull};
use crate::flood::{at, on_grid, spot, Spot};
use crate::game::World;
use crate::gravity::Loose;
use crate::groups::{above, below, cleared};
use crate::listing::{addressable, lemma_listing, listing};
use crate::physics::{drilled_facing, faced, may_fall, stepped, DrillOutcome};
use crate::player::{Direction, Player};
use crate::sweep::{in_gap, swept, Sweep};
use crate::terrain::{stocked, stocked_once, stocked_row};

verus! {

/// A step breaks no block: all it takes off the field are capsules and items.
pub proof fn law_steps_break_nothing(g: Grid, width: nat, player: Player, dir: Direction, p: Spot)
    requires
        rectangular(g, width),
        player.row < g.len(),
        player.col < width,
        on_grid(g, p),
    ensures
        at(stepped(g, width as int, player, dir).grid, p) == at(g, p) || (is_pickup(at(g, p)) && at(
            stepped(g, width as int, player, dir).grid,
            p,
        ) is Empty),
{
    assert(g[player.row as int].len() == width);
    if player.row > 0 {
        assert(g[player.row - 1].len() == width);
    }
}

/// A block that crushes whoever drills at it is overhead, and one that may
/// fall.
pub proof fn law_only_falling_blocks_crush(g: Grid, player: Player, gravity: Loose, solid: Set<Spot>)
    requires
        drilled_facing(g, player, gravity, solid).outcome == DrillOutcome::CrushedByUnstableOverhead,
    ensures
        player.facing == Direction::Up,
        may_fall(g, gravity, faced(player), spot((player.row, player.col)), solid),
        drilled_facing(g, player, gravity, solid).grid == g,
{
}

/// A tick of gravity moves a block one row straight down, and never off the
/// field or into something solid.
pub proof fn law_blocks_fall_one_row(g: Grid, pull: Pull, i: int)
    requires
        addressable(g),
        0 <= i < blocks_moved(g, pull).len(),
    ensures
        ({
            let (to, from) = blocks_moved(g, pull)[i];
            &&& to.0 == from.0 + 1 < g.len()
            &&& to.1 == from.1
            &&& occupied(g, spot(from))
            &&& !pull.solid.contains(spot(to))
        }),
{
    lemma_listing(g, falling(g, pull));
    let p = listing(g, falling(g, pull))[i];
    assert(falling(g, pull).contains(spot(p)));
    lemma_room_to_fall(g, pull, spot(p));
}

/// Where a block is once the blocks have fallen, and before any vanish.
pub open spec fn lands(g: Grid, pull: Pull, p: Spot) -> Spot {
    if falling(g, pull).contains(p) {
        below(p)
    } else {
        p
    }
}

/// Nothing is lost in a fall: a block is where it was or one row deeper, unless
/// it is a capsule or an item that has come down on the player.
pub proof fn law_nothing_is_lost_in_a_fall(g: Grid, width: nat, pull: Pull, p: Spot)
    requires
        rectangular(g, width),
        occupied(g, p),
    ensures
        on_grid(g, lands(g, pull, p)),
        at(field_fallen(g, pull), lands(g, pull, p)) == at(g, p) || (falling(g, pull).contains(p) && below(
            p,
        ) == pull.player && is_pickup(at(g, p))),
{
    assert(g[p.0].len() == width);
    assert(above(below(p)) == p);
    if falling(g, pull).contains(p) {
        lemma_room_to_fall(g, pull, p);
        assert(g[p.0 + 1].len() == width);
    } else if falling(g, pull).contains(above(p)) {
        lemma_room_to_fall(g, pull, above(p));
        assert(below(above(p)) == p);
    }
}

/// Nothing comes from nowhere in a fall: what a cell holds afterwards was there
/// or one row higher.
pub proof fn law_nothing_comes_from_nowhere(g: Grid, width: nat, pull: Pull, q: Spot)
    requires
        rectangular(g, width),
        on_grid(g, q),
        !(at(field_fallen(g, pull), q) is Empty),
    ensures
        ({
            let p = if falling(g, pull).contains(above(q)) {
                above(q)
            } else {
                q
            };
            occupied(g, p) && lands(g, pull, p) == q && at(field_fallen(g, pull), q) == at(g, p)
        }),
{
    assert(below(above(q)) == q);
}

/// No two blocks fall into the same cell.
pub proof fn law_no_two_blocks_in_one_cell(g: Grid, pull: Pull, p: Spot, q: Spot)
    requires
        occupied(g, p),
        occupied(g, q),
        lands(g, pull, p) == lands(g, pull, q),
    ensures
        p == q,
{
    if falling(g, pull).contains(p) && !falling(g, pull).contains(q) {
        lemma_room_to_fall(g, pull, p);
    }
    if falling(g, pull).contains(q) && !falling(g, pull).contains(p) {
        lemma_room_to_fall(g, pull, q);
    }
}

/// What has come down into the gap of a checkpoint is gone after a sweep.
pub proof fn law_gaps_are_kept_free(w: World, delay: u64, p: Spot)
    requires
        on_grid(w.grid, p),
        in_gap(p.0, w.core.last_checkpoint_reported as int),
    ensures
        at(w.gaps_swept(delay).grid, p) is Empty,
{
}

/// A block that has come to lie on a cell is off it once it is pushed up, and
/// is lost only if the column is full above.
pub proof fn law_pushed_blocks_make_room(g: Grid, width: nat, r: int, c: int)
    requires
        rectangular(g, width),
        0 <= r < g.len(),
        0 <= c < width,
    ensures
        pushed_up(g, r, c)[r][c] is Empty,
        !(g[r][c] is Empty) && free_above(g, c, r) is Some ==> exists|t: int|
            0 <= t < r && g[t][c] is Empty && #[trigger] pushed_up(g, r, c)[t][c] == g[r][c],
{
    assert(g[r].len() == width);
    lemma_free_above(g, c, r);
    if let Some(t) = free_above(g, c, r) {
        assert(g[t].len() == width);
        assert(!(g[r][c] is Empty) ==> pushed_up(g, r, c)[t][c] == g[r][c]);
    }
}

/// A block that is pushed up goes no further than it has to, and nothing else
/// moves.
pub proof fn law_pushed_blocks_go_no_further(g: Grid, width: nat, r: int, c: int, x: int, y: int)
    requires
        rectangular(g, width),
        0 <= r < g.len(),
        0 <= c < width,
        0 <= x < g.len(),
        0 <= y < width,
    ensures
        ({
            let h = pushed_up(g, r, c);
            &&& y != c || x > r ==> h[x][y] == g[x][y]
            &&& !(g[x][y] is Empty) && (x, y) != (r, c) ==> h[x][y] == g[x][y]
            &&& y == c && x < r && g[x][c] is Empty && !(g[r][c] is Empty) && (forall|i: int|
                x < i < r ==> !((#[trigger] g[i])[c] is Empty)) ==> h[x][c] == g[r][c]
        }),
{
    assert(forall|i: int| 0 <= i < g.len() ==> (#[trigger] g[i]).len() == width);
    lemma_free_above(g, c, r);
    lemma_nothing_free_below(g, c, r, x);
}

/// There is no free cell between the one that a block is pushed into and the
/// block.
proof fn lemma_nothing_free_below(g: Grid, c: int, r: int, x: int)
    ensures
        0 <= x < r && g[x][c] is Empty ==> free_above(g, c, r) is Some && free_above(g, c, r)->0 >= x
            && g[free_above(g, c, r)->0][c] is Empty && free_above(g, c, r)->0 < r,
    decreases r,
{
    if r > 0 && !(g[r - 1][c] is Empty) {
        lemma_nothing_free_below(g, c, r - 1, x);
    }
}

/// The cell that a block is pushed into is free, and lies above.
proof fn lemma_free_above(g: Grid, c: int, r: int)
    ensures
        free_above(g, c, r) matches Some(t) ==> 0 <= t < r && g[t][c] is Empty,
    decreases r,
{
    if r > 0 && !(g[r - 1][c] is Empty) {
        lemma_free_above(g, c, r - 1);
    }
}

/// Clearing what is above a player leaves no block there.
pub proof fn law_nothing_is_left_above(g: Grid, width: nat, row: usize, p: Spot)
    requires
        rectangular(g, width),
        row < g.len(),
        on_grid(g, p),
        p.0 < row,
    ensures
        at(cleared_above(g, row), p) is Empty || is_pickup(at(cleared_above(g, row), p)),
{
    let h = cleared(g, swept(g, Sweep::BlocksAbove { row }));
    let top = screen_top(row as int);
    assert(g[p.0].len() == width);
    if p.0 < top {
        let pile = column_pile(h, p.1, top as nat);
        lemma_pile_of_pickups(g, width, row, p.1, top as nat);
        if top - 1 - p.0 < pile.len() {
            assert(is_pickup(pile[top - 1 - p.0]));
        }
    }
}

/// Clearing what is above a player leaves the capsules and items on the screen,
/// and everything from the player's row down, where they are.
pub proof fn law_what_is_in_view_stays(g: Grid, width: nat, row: usize, p: Spot)
    requires
        rectangular(g, width),
        row < g.len(),
        on_grid(g, p),
        p.0 >= row || (p.0 >= screen_top(row as int) && is_pickup(at(g, p))),
    ensures
        at(cleared_above(g, row), p) == at(g, p),
{
    assert(g[p.0].len() == width);
}

/// The capsules and items among the first `n` cells of column `c`.
pub open spec fn pickups_in_column(g: Grid, c: int, n: nat) -> Seq<Cell>
    decreases n,
{
    if n == 0 {
        Seq::empty()
    } else {
        let rest = pickups_in_column(g, c, (n - 1) as nat);
        if is_pickup(g[n - 1][c]) {
            rest.push(g[n - 1][c])
        } else {
            rest
        }
    }
}

/// Once the blocks are gone, a column holds its capsules and items.
proof fn lemma_pile_of_pickups(g: Grid, width: nat, row: usize, c: int, n: nat)
    requires
        rectangular(g, width),
        row < g.len(),
        n <= row,
        0 <= c < width,
    ensures
        column_pile(cleared(g, swept(g, Sweep::BlocksAbove { row })), c, n) == pickups_in_column(g, c, n),
        forall|i: int|
            0 <= i < pickups_in_column(g, c, n).len() ==> is_pickup(
                #[trigger] pickups_in_column(g, c, n)[i],
            ),
    decreases n,
{
    if n > 0 {
        lemma_pile_of_pickups(g, width, row, c, (n - 1) as nat);
        assert(g[n - 1].len() == width);
        let h = cleared(g, swept(g, Sweep::BlocksAbove { row }));
        assert(h[n - 1][c] == (if is_pickup(g[n - 1][c]) {
            g[n - 1][c]
        } else {
            Cell::Empty
        }));
    }
}

/// A column that is stacked up holds its pile upside down.
proof fn lemma_stacked_column(h: Grid, width: nat, entry: nat, c: int, n: nat)
    requires
        rectangular(h, width),
        entry <= h.len(),
        0 <= c < width,
        n <= entry,
        forall|i: int|
            0 <= i < column_pile(h, c, entry).len() ==> !(#[trigger] column_pile(h, c, entry)[i] is Empty),
        column_pile(h, c, entry).len() <= entry,
    ensures
        ({
            let pile = column_pile(h, c, entry);
            let start = entry - pile.len();
            column_pile(stacked(h, entry as int), c, n) == (if n <= start {
                Seq::<Cell>::empty()
            } else {
                Seq::new((n - start) as nat, |i: int| pile[pile.len() - 1 - i])
            })
        }),
    decreases n,
{
    let pile = column_pile(h, c, entry);
    let start = entry - pile.len();
    let s = stacked(h, entry as int);
    if n > 0 {
        lemma_stacked_column(h, width, entry, c, (n - 1) as nat);
        assert(h[n - 1].len() == width);
        assert(s[n - 1][c] == stacked_cell(h, entry as int, n - 1, c));
        if n > start {
            assert(s[n - 1][c] == pile[entry - n]);
            assert(column_pile(s, c, n) =~= Seq::new((n - start) as nat, |i: int| pile[pile.len() - 1 - i]));
        }
    } else {
        assert(column_pile(s, c, n) =~= Seq::<Cell>::empty());
    }
}

/// Clearing what is above a player loses no capsule and no item: those of a
/// column that lay above the screen still do, the topmost lowest.
pub proof fn law_pickups_are_kept(g: Grid, width: nat, row: usize, c: int)
    requires
        rectangular(g, width),
        row < g.len(),
        0 <= c < width,
    ensures
        pickups_in_column(cleared_above(g, row), c, screen_top(row as int) as nat) == pickups_in_column(
            g,
            c,
            screen_top(row as int) as nat,
        ).reverse(),
{
    let h = cleared(g, swept(g, Sweep::BlocksAbove { row }));
    let top = screen_top(row as int) as nat;
    let s = stacked(h, top as int);
    let pile = column_pile(h, c, top);
    lemma_pile_of_pickups(g, width, row, c, top);
    lemma_pickups_len(g, c, top);
    assert(rectangular(h, width)) by {
        assert forall|r: int| 0 <= r < h.len() implies (#[trigger] h[r]).len() == width by {
            assert(g[r].len() == width);
        }
    }
    lemma_stacked_column(h, width, top, c, top);
    assert(column_pile(s, c, top) =~= pile.reverse());
    assert forall|r: int| 0 <= r < top implies (#[trigger] s[r][c]) is Empty || is_pickup(s[r][c]) by {
        assert(g[r].len() == width);
        law_nothing_is_left_above(g, width, row, (r, c));
        assert(at(s, (r, c)) == s[r][c]);
    }
    lemma_all_pickups(s, c, top);
}

/// There are no more capsules and items in a column than cells.
proof fn lemma_pickups_len(g: Grid, c: int, n: nat)
    ensures
        pickups_in_column(g, c, n).len() <= n,
    decreases n,
{
    if n > 0 {
        lemma_pickups_len(g, c, (n - 1) as nat);
    }
}

/// A column without blocks is a pile of capsules and items.
proof fn lemma_all_pickups(g: Grid, c: int, n: nat)
    requires
        forall|r: int| 0 <= r < n ==> (#[trigger] g[r][c]) is Empty || is_pickup(g[r][c]),
    ensures
        column_pile(g, c, n) == pickups_in_column(g, c, n),
    decreases n,
{
    if n > 0 {
        lemma_all_pickups(g, c, (n - 1) as nat);
        assert(g[n - 1][c] is Empty || is_pickup(g[n - 1][c]));
    }
}

/// Stocking a stretch of rows with items leaves all others alone, so that a row
/// that has had its chance never changes again.
pub proof fn law_only_new_rows_are_stocked(
    g: Grid,
    dice: Dice,
    rates: (u32, u32, u32),
    lo: int,
    from: int,
    r: int,
    hi: int,
    k: int,
)
    requires
        0 <= from,
        r <= g.len(),
        0 <= k < g.len(),
        k < from || k >= r,
    ensures
        stocked(g, dice, rates, lo, from, r, hi).0.len() == g.len(),
        stocked(g, dice, rates, lo, from, r, hi).0[k] == g[k],
    decreases r - from,
{
    if r > from {
        law_only_new_rows_are_stocked(g, dice, rates, lo, from, r - 1, hi, k);
        let (rest, d) = stocked(g, dice, rates, lo, from, r - 1, hi);
        let bytes = d.bytes_of(8);
        let a = stocked_once(rest, r - 1, ItemEffect::ClearAbove, rates.0, bytes[0], bytes[1], lo, hi);
        assert(a.len() == g.len() && a[k] == rest[k]);
        let b = stocked_once(a, r - 1, ItemEffect::UnifyColors, rates.1, bytes[2], bytes[3], lo, hi);
        assert(b.len() == g.len() && b[k] == rest[k]);
        assert(stocked_row(rest, r - 1, rates, bytes, lo, hi)[k] == rest[k]);
    }
}

/// Going deeper never takes back the rows that have had their chance of items,
/// and never changes them.
pub proof fn law_stocked_rows_stay(w: World, k: int)
    requires
        0 <= k < w.grid.len(),
        k < w.core.item_top_up_frontier_row,
        w.grid.len() <= usize::MAX,
    ensures
        w.stocked_ahead().grid[k] == w.grid[k],
        w.stocked_ahead().core.item_top_up_frontier_row >= w.core.item_top_up_frontier_row,
{
    let target = least(w.player.row + ITEM_WINDOW_AHEAD_ROWS, w.grid.len() as int);
    if target > w.core.item_top_up_frontier_row {
        law_only_new_rows_are_stocked(
            w.grid,
            w.core.rng,
            (
                w.core.item_clear_above_rate_percent,
                w.core.item_unify_colors_rate_percent,
                w.core.item_starify_screen_rate_percent,
            ),
            w.player.row as int,
            w.core.item_top_up_frontier_row as int,
            target,
            target,
            k,
        );
    }
}

} // verus!
