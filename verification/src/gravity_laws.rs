//! What gravity does, told without its mechanism: which blocks hold each other
//! up, which come down, which vanish, and how long each has waited.
use vstd::prelude::*;

use crate::board::{rectangular, Cell, Grid};
use crate::fall::{
    blocks_moved, cells_vanished, colors_among, falling, field_after, field_fallen, field_landed,
    field_vanishing, grounded, held_back, lemma_room_to_fall, loose_after, onto_player, rocks_among,
    sets_off, standing, staying, Pull,
};
use crate::flood::{at, closed_under, flooded, leads, on_grid, reached, spot, spread, Spot, Spread};
use crate::gravity::{shaking, Loose};
use crate::groups::group_at;
use crate::listing::{addressable, lemma_listing, listing};
use crate::physics::{crushes_player, items_taken, player_pulled};
use crate::player::Player;

verus! {

/// The cells are neighbours in a row or in a column.
pub open spec fn neighbours(p: Spot, q: Spot) -> bool {
    (p.0 == q.0 && (p.1 - q.1 == 1 || q.1 - p.1 == 1)) || (p.1 == q.1 && (p.0 - q.0 == 1 || q.0 - p.0
        == 1))
}

/// Two blocks of one colour, or two rocks.
pub open spec fn of_a_kind(a: Cell, b: Cell) -> bool {
    (a is Rock && b is Rock) || (a is Color && a == b)
}

/// Two blocks on the field that stick together.
pub open spec fn stuck(g: Grid, p: Spot, q: Spot) -> bool {
    on_grid(g, p) && on_grid(g, q) && neighbours(p, q) && of_a_kind(at(g, p), at(g, q))
}

/// Whatever sticks to a block of the set is in the set.
pub open spec fn complete(g: Grid, s: Set<Spot>) -> bool {
    forall|p: Spot, q: Spot| #![trigger s.contains(p), s.contains(q)] s.contains(p) && stuck(g, p, q) ==> s.contains(q)
}

/// There is a block in the cell.
pub open spec fn filled(g: Grid, p: Spot) -> bool {
    on_grid(g, p) && !(at(g, p) is Empty)
}

/// Whatever a flood has reached, it has reached everything one step further.
proof fn lemma_step(g: Grid, how: Spread, base: Set<Spot>, p: Spot, q: Spot)
    requires
        flooded(g, how, base).contains(p),
        leads(g, how, p, q),
    ensures
        flooded(g, how, base).contains(q),
{
    assert forall|t: Set<Spot>| base.subset_of(t) && #[trigger] closed_under(g, how, t) implies t.contains(q) by {
        assert(reached(g, how, base, p));
        assert(t.contains(p));
    }
}

/// Where a flood starts, it has been.
proof fn lemma_start(g: Grid, how: Spread, base: Set<Spot>, p: Spot)
    requires
        on_grid(g, p),
        base.contains(p),
    ensures
        flooded(g, how, base).contains(p),
{
}

/// A group is a block with everything that sticks to it, and nothing else: it
/// holds the block, whatever sticks to one of its blocks belongs to it, and any
/// other set with these two properties holds the whole group.
pub proof fn law_groups(g: Grid, p: Spot, s: Set<Spot>)
    requires
        on_grid(g, p),
    ensures
        group_at(g, p).contains(p),
        complete(g, group_at(g, p)),
        forall|q: Spot| #[trigger] group_at(g, p).contains(q) ==> on_grid(g, q),
        s.contains(p) && complete(g, s) ==> group_at(g, p).subset_of(s),
{
    let how = spread(false, None);
    assert(set![p].contains(p));
    assert forall|a: Spot, b: Spot| #![trigger group_at(g, p).contains(a), group_at(g, p).contains(b)]
        group_at(g, p).contains(a) && stuck(g, a, b) implies group_at(g, p).contains(b) by {
        assert(leads(g, how, a, b));
        lemma_step(g, how, set![p], a, b);
    }
    if s.contains(p) && complete(g, s) {
        assert(closed_under(g, how, s)) by {
            assert forall|a: Spot, b: Spot| #[trigger] s.contains(a) && #[trigger] leads(g, how, a, b) implies s.contains(
                b,
            ) by {
                assert(stuck(g, a, b));
            }
        }
        assert(set![p].subset_of(s));
    }
}

/// All blocks of a group are of one kind.
pub proof fn law_groups_are_of_a_kind(g: Grid, p: Spot, q: Spot)
    requires
        on_grid(g, p),
        at(g, p) is Color || at(g, p) is Rock,
        group_at(g, p).contains(q),
    ensures
        of_a_kind(at(g, p), at(g, q)),
{
    let s = Set::new(|r: Spot| on_grid(g, r) && of_a_kind(at(g, p), at(g, r)));
    law_groups(g, p, s);
}

/// Blocks that stick together stand together, and fall together or not at all.
pub proof fn law_stuck_blocks_stay_together(g: Grid, pull: Pull, p: Spot, q: Spot)
    requires
        stuck(g, p, q),
    ensures
        standing(g, pull.player, pull.solid).contains(p) <==> standing(g, pull.player, pull.solid).contains(q),
        falling(g, pull).contains(p) <==> falling(g, pull).contains(q),
{
    let stand = Spread { upward: true, carries_nothing: pull.player };
    let stay = Spread { upward: true, carries_nothing: (-1int, -1int) };
    assert(leads(g, stand, p, q) && leads(g, stand, q, p));
    assert(leads(g, stay, p, q) && leads(g, stay, q, p));
    if standing(g, pull.player, pull.solid).contains(p) {
        lemma_step(g, stand, grounded(g, pull.solid), p, q);
    }
    if standing(g, pull.player, pull.solid).contains(q) {
        lemma_step(g, stand, grounded(g, pull.solid), q, p);
    }
    if staying(g, pull).contains(p) {
        lemma_step(g, stay, held_back(g, pull), p, q);
    }
    if staying(g, pull).contains(q) {
        lemma_step(g, stay, held_back(g, pull), q, p);
    }
}

/// A block stands on the deepest row, on something solid, and on a block that
/// stands, unless that lies in the player's cell.
pub proof fn law_what_stands(g: Grid, pull: Pull, p: Spot)
    requires
        filled(g, p),
        p.0 == g.len() - 1 || pull.solid.contains((p.0 + 1, p.1)) || ((p.0 + 1, p.1) != pull.player && standing(
            g,
            pull.player,
            pull.solid,
        ).contains((p.0 + 1, p.1))),
    ensures
        standing(g, pull.player, pull.solid).contains(p),
        !falling(g, pull).contains(p),
{
    let stand = Spread { upward: true, carries_nothing: pull.player };
    let u = (p.0 + 1, p.1);
    if p.0 == g.len() - 1 || pull.solid.contains(u) {
        assert(grounded(g, pull.solid).contains(p));
        lemma_start(g, stand, grounded(g, pull.solid), p);
    } else {
        assert(leads(g, stand, u, p));
        lemma_step(g, stand, grounded(g, pull.solid), u, p);
    }
    assert(held_back(g, pull).contains(p));
}

/// A group of which one block is held up holds up all its blocks: none of them
/// comes down.
pub proof fn law_groups_hang_on(g: Grid, pull: Pull, p: Spot, q: Spot)
    requires
        filled(g, p),
        group_at(g, p).contains(q),
        filled(g, q),
        q.0 == g.len() - 1 || pull.solid.contains((q.0 + 1, q.1)) || ((q.0 + 1, q.1) != pull.player && standing(
            g,
            pull.player,
            pull.solid,
        ).contains((q.0 + 1, q.1))),
    ensures
        forall|r: Spot| #[trigger]
            group_at(g, p).contains(r) && filled(g, r) ==> standing(g, pull.player, pull.solid).contains(r)
                && !falling(g, pull).contains(r),
{
    law_what_stands(g, pull, q);
    let stands = standing(g, pull.player, pull.solid);
    let s = Set::new(|r: Spot| on_grid(g, r) && stands.contains(r));
    let n = Set::new(|r: Spot| on_grid(g, r) && !stands.contains(r));
    assert(complete(g, s)) by {
        assert forall|a: Spot, b: Spot| #![trigger s.contains(a), s.contains(b)] s.contains(a) && stuck(g, a, b) implies s.contains(
            b,
        ) by {
            law_stuck_blocks_stay_together(g, pull, a, b);
        }
    }
    assert(complete(g, n)) by {
        assert forall|a: Spot, b: Spot| #![trigger n.contains(a), n.contains(b)] n.contains(a) && stuck(g, a, b) implies n.contains(
            b,
        ) by {
            law_stuck_blocks_stay_together(g, pull, a, b);
        }
    }
    law_groups(g, p, n);
    law_groups(g, p, s);
    assert(s.contains(p));
    assert forall|r: Spot| #[trigger] group_at(g, p).contains(r) && filled(g, r) implies stands.contains(r)
        && !falling(g, pull).contains(r) by {
        assert(s.contains(r));
        assert(held_back(g, pull).contains(r));
    }
}

/// Blocks that have nothing under them: each of the set lies above an empty
/// cell, the player's, or another of the set, and nothing outside sticks to it.
pub open spec fn loose_set(g: Grid, pull: Pull, s: Set<Spot>) -> bool {
    &&& complete(g, s)
    &&& forall|p: Spot| #[trigger] s.contains(p) ==> {
        let u = (p.0 + 1, p.1);
        &&& filled(g, p)
        &&& p.0 + 1 < g.len()
        &&& !pull.solid.contains(u)
        &&& s.contains(u) || u == pull.player || !filled(g, u)
    }
}

/// Blocks that have nothing under them do not stand. They come down, all
/// together, once they have shaken for long enough and the player's cell holds
/// no block that is in their way.
pub proof fn law_loose_blocks_come_down(g: Grid, pull: Pull, s: Set<Spot>, p: Spot)
    requires
        loose_set(g, pull, s),
        s.contains(p),
    ensures
        !standing(g, pull.player, pull.solid).contains(p),
        (forall|q: Spot| #[trigger] s.contains(q) ==> {
            &&& (if pull.waits.dom().contains(q) { pull.waits[q] } else { 0u16 }) >= pull.shake_ticks
            &&& s.contains((q.0 + 1, q.1)) || !filled(g, (q.0 + 1, q.1))
        }) ==> falling(g, pull).contains(p),
{
    let stand = Spread { upward: true, carries_nothing: pull.player };
    let stay = Spread { upward: true, carries_nothing: (-1int, -1int) };
    let rest = Set::new(|q: Spot| filled(g, q) && !s.contains(q));
    assert(closed_under(g, stand, rest)) by {
        assert forall|a: Spot, b: Spot| #[trigger] rest.contains(a) && #[trigger] leads(g, stand, a, b) implies rest.contains(
            b,
        ) by {
            if s.contains(b) {
                if stuck(g, b, a) {
                    assert(s.contains(a));
                } else {
                    assert(a == (b.0 + 1, b.1));
                }
                assert(false);
            }
        }
    }
    assert(grounded(g, pull.solid).subset_of(rest));
    assert(!standing(g, pull.player, pull.solid).contains(p));
    if forall|q: Spot| #[trigger] s.contains(q) ==> {
        &&& (if pull.waits.dom().contains(q) { pull.waits[q] } else { 0u16 }) >= pull.shake_ticks
        &&& s.contains((q.0 + 1, q.1)) || !filled(g, (q.0 + 1, q.1))
    } {
        assert(closed_under(g, stay, rest)) by {
            assert forall|a: Spot, b: Spot| #[trigger] rest.contains(a) && #[trigger] leads(g, stay, a, b) implies rest.contains(
                b,
            ) by {
                if s.contains(b) {
                    if stuck(g, b, a) {
                        assert(s.contains(a));
                    } else {
                        assert(a == (b.0 + 1, b.1));
                    }
                    assert(false);
                }
            }
        }
        assert(held_back(g, pull).subset_of(rest)) by {
            assert forall|q: Spot| #[trigger] held_back(g, pull).contains(q) implies rest.contains(q) by {
                if s.contains(q) {
                    assert(!standing(g, pull.player, pull.solid).contains(q)) by {
                        if standing(g, pull.player, pull.solid).contains(q) {
                            assert(rest.contains(q));
                        }
                    }
                }
            }
        }
        assert(!staying(g, pull).contains(p));
    }
}

/// Nothing comes down that has not shaken for long enough, or that lies on a
/// block that stays where it is, wherever that lies.
pub proof fn law_what_stays(g: Grid, pull: Pull, p: Spot)
    requires
        filled(g, p),
        (if pull.waits.dom().contains(p) { pull.waits[p] } else { 0u16 }) < pull.shake_ticks || (filled(
            g,
            (p.0 + 1, p.1),
        ) && !falling(g, pull).contains((p.0 + 1, p.1))),
    ensures
        !falling(g, pull).contains(p),
{
    let stay = Spread { upward: true, carries_nothing: (-1int, -1int) };
    let u = (p.0 + 1, p.1);
    if (if pull.waits.dom().contains(p) { pull.waits[p] } else { 0u16 }) < pull.shake_ticks {
        assert(held_back(g, pull).contains(p));
    } else {
        assert(leads(g, stay, u, p));
        lemma_step(g, stay, held_back(g, pull), u, p);
    }
}

/// The field after the blocks have come down: a block that fell is one row
/// deeper, what it leaves is empty unless another fell there, and everything
/// else is as it was. A capsule or an item that came down on the player is gone.
pub proof fn law_where_blocks_are(g: Grid, width: nat, pull: Pull, p: Spot)
    requires
        rectangular(g, width),
        on_grid(g, p),
    ensures
        ({
            let h = field_fallen(g, pull);
            let over = (p.0 - 1, p.1);
            &&& on_grid(h, p)
            &&& at(h, p) == (if falling(g, pull).contains(over) {
                if p == pull.player && (at(g, over) is Oxygen || at(g, over) is Item) {
                    Cell::Empty
                } else {
                    at(g, over)
                }
            } else if falling(g, pull).contains(p) {
                Cell::Empty
            } else {
                at(g, p)
            })
        }),
{
}

/// A tick tells of exactly the blocks that fell.
pub proof fn law_moves_are_told(g: Grid, pull: Pull, p: Spot)
    requires
        addressable(g),
    ensures
        falling(g, pull).contains(p) <==> exists|i: int|
            0 <= i < blocks_moved(g, pull).len() && spot(#[trigger] blocks_moved(g, pull)[i].1) == p,
        forall|i: int|
            0 <= i < blocks_moved(g, pull).len() ==> spot((#[trigger] blocks_moved(g, pull)[i]).0) == (
            blocks_moved(g, pull)[i].1.0 + 1, blocks_moved(g, pull)[i].1.1 as int),
{
    lemma_listing(g, falling(g, pull));
    let list = listing(g, falling(g, pull));
    let moves = blocks_moved(g, pull);
    if falling(g, pull).contains(p) {
        let i = choose|i: int| 0 <= i < list.len() && #[trigger] spot(list[i]) == p;
        assert(spot(moves[i].1) == p);
    }
    if exists|i: int| 0 <= i < moves.len() && spot(#[trigger] moves[i].1) == p {
        let i = choose|i: int| 0 <= i < moves.len() && spot(#[trigger] moves[i].1) == p;
        assert(spot(list[i]) == p);
    }
    assert forall|i: int| 0 <= i < moves.len() implies spot((#[trigger] moves[i]).0) == (moves[i].1.0 + 1, moves[i].1.1 as int) by {
        assert(falling(g, pull).contains(spot(list[i])));
        lemma_room_to_fall(g, pull, spot(list[i]));
    }
}

/// Four blocks that hang together, in an order in which each sticks to an
/// earlier one.
pub open spec fn four_of_a_kind(g: Grid, a: Spot, b: Spot, c: Spot, d: Spot) -> bool {
    &&& a != b && a != c && a != d && b != c && b != d && c != d
    &&& stuck(g, a, b)
    &&& stuck(g, a, c) || stuck(g, b, c)
    &&& stuck(g, a, d) || stuck(g, b, d) || stuck(g, c, d)
}

/// A group has only so many blocks as there are cells.
proof fn lemma_group_finite(g: Grid, p: Spot)
    requires
        on_grid(g, p),
    ensures
        group_at(g, p).finite(),
    decreases g.len(),
{
    law_groups(g, p, Set::empty());
    lemma_rows_finite(g, g.len());
    assert(group_at(g, p).subset_of(cells_of(g, g.len())));
    vstd::set_lib::lemma_set_subset_finite(cells_of(g, g.len()), group_at(g, p));
}

/// The cells of the first `n` rows.
pub open spec fn cells_of(g: Grid, n: nat) -> Set<Spot> {
    Set::new(|p: Spot| on_grid(g, p) && p.0 < n)
}

proof fn lemma_row_finite(g: Grid, r: int, c: nat)
    ensures
        Set::new(|p: Spot| p.0 == r && 0 <= p.1 < c).finite(),
    decreases c,
{
    let s = Set::new(|p: Spot| p.0 == r && 0 <= p.1 < c);
    if c == 0 {
        assert(s =~= Set::empty());
    } else {
        lemma_row_finite(g, r, (c - 1) as nat);
        let t = Set::new(|p: Spot| p.0 == r && 0 <= p.1 < (c - 1) as nat);
        assert(s =~= t.insert((r, c - 1)));
    }
}

proof fn lemma_rows_finite(g: Grid, n: nat)
    requires
        n <= g.len(),
    ensures
        cells_of(g, n).finite(),
    decreases n,
{
    if n == 0 {
        assert(cells_of(g, 0) =~= Set::empty());
    } else {
        lemma_rows_finite(g, (n - 1) as nat);
        lemma_row_finite(g, n - 1, g[n - 1].len());
        let row = Set::new(|p: Spot| p.0 == n - 1 && 0 <= p.1 < g[n - 1].len());
        assert(cells_of(g, n) =~= cells_of(g, (n - 1) as nat).union(row));
    }
}

/// Four blocks of a kind that hang together vanish where one of them lands.
pub proof fn law_four_vanish(g: Grid, pull: Pull, a: Spot, b: Spot, c: Spot, d: Spot, m: Spot)
    requires
        four_of_a_kind(field_fallen(g, pull), a, b, c, d),
        m == a || m == b || m == c || m == d,
        falling(g, pull).contains((m.0 - 1, m.1)),
        standing(field_fallen(g, pull), pull.player, pull.solid).contains(m),
    ensures
        at(field_after(g, pull), a) is Empty,
        at(field_after(g, pull), b) is Empty,
        at(field_after(g, pull), c) is Empty,
        at(field_after(g, pull), d) is Empty,
{
    let h = field_fallen(g, pull);
    law_groups(h, m, Set::empty());
    let group = group_at(h, m);
    assert(group.contains(m));
    assert(stuck(h, a, b) && stuck(h, b, a));
    assert(stuck(h, a, c) ==> stuck(h, c, a));
    assert(stuck(h, b, c) ==> stuck(h, c, b));
    assert(stuck(h, a, d) ==> stuck(h, d, a));
    assert(stuck(h, b, d) ==> stuck(h, d, b));
    assert(stuck(h, c, d) ==> stuck(h, d, c));
    assert(group.contains(a) && group.contains(b) && group.contains(c) && group.contains(d)) by {
        let all = Set::new(|p: Spot| group.contains(p));
        if m == a || m == b {
            assert(group.contains(a) && group.contains(b));
            assert(group.contains(c));
        } else if m == c {
            assert(group.contains(a) || group.contains(b));
            assert(group.contains(a) && group.contains(b));
        } else {
            if stuck(h, c, d) {
                assert(group.contains(c));
            }
            assert(group.contains(a) || group.contains(b));
            assert(group.contains(a) && group.contains(b));
            assert(group.contains(c));
        }
    }
    lemma_group_finite(h, m);
    let four = set![a, b, c, d];
    vstd::set_lib::lemma_len_subset(four, group);
    assert(four.len() == 4) by {
        assert(set![a].len() == 1);
        assert(set![a, b].len() == 2);
        assert(set![a, b, c].len() == 3);
    }
    assert(sets_off(h, falling(g, pull), field_landed(g, pull), m));
    assert(field_vanishing(g, pull).contains(a));
    assert(field_vanishing(g, pull).contains(b));
    assert(field_vanishing(g, pull).contains(c));
    assert(field_vanishing(g, pull).contains(d));
}

/// Nothing else vanishes: a set of blocks to which nothing else sticks stays
/// whole if it has fewer than four, or if none of its blocks has both fallen and
/// come to stand. Diamonds, stars, capsules and items never vanish.
pub proof fn law_few_stay(g: Grid, pull: Pull, s: Set<Spot>, p: Spot)
    requires
        on_grid(field_fallen(g, pull), p),
        s.contains(p),
        complete(field_fallen(g, pull), s),
        !(at(field_fallen(g, pull), p) is Color || at(field_fallen(g, pull), p) is Rock) || (s.finite()
            && s.len() < 4) || forall|q: Spot| #[trigger]
            s.contains(q) ==> !(falling(g, pull).contains((q.0 - 1, q.1)) && standing(
                field_fallen(g, pull),
                pull.player,
                pull.solid,
            ).contains(q)),
    ensures
        at(field_after(g, pull), p) == at(field_fallen(g, pull), p),
{
    let h = field_fallen(g, pull);
    if field_vanishing(g, pull).contains(p) {
        let m = choose|m: Spot| #[trigger]
            sets_off(h, falling(g, pull), field_landed(g, pull), m) && group_at(h, m).contains(p);
        let outside = Set::new(|q: Spot| on_grid(h, q) && !s.contains(q));
        assert(complete(h, outside)) by {
            assert forall|a: Spot, b: Spot| #![trigger outside.contains(a), outside.contains(b)]
                outside.contains(a) && stuck(h, a, b) implies outside.contains(b) by {
                if s.contains(b) {
                    assert(stuck(h, b, a));
                    assert(s.contains(a));
                }
            }
        }
        law_groups(h, m, outside);
        law_groups(h, m, s);
        if !s.contains(m) {
            assert(outside.contains(p));
        }
        assert(s.contains(m));
        law_groups_are_of_a_kind(h, m, p);
        if s.finite() && s.len() < 4 {
            vstd::set_lib::lemma_len_subset(group_at(h, m), s);
        }
        assert(falling(g, pull).contains((m.0 - 1, m.1)));
        assert(false);
    }
}

/// Whatever sticks together vanishes together.
pub proof fn law_stuck_blocks_vanish_together(g: Grid, pull: Pull, p: Spot, q: Spot)
    requires
        stuck(field_fallen(g, pull), p, q),
    ensures
        at(field_after(g, pull), p) is Empty <==> at(field_after(g, pull), q) is Empty,
{
    let h = field_fallen(g, pull);
    assert(stuck(h, q, p));
    if field_vanishing(g, pull).contains(p) {
        let m = choose|m: Spot| #[trigger]
            sets_off(h, falling(g, pull), field_landed(g, pull), m) && group_at(h, m).contains(p);
        law_groups(h, m, Set::empty());
        assert(group_at(h, m).contains(q));
    }
    if field_vanishing(g, pull).contains(q) {
        let m = choose|m: Spot| #[trigger]
            sets_off(h, falling(g, pull), field_landed(g, pull), m) && group_at(h, m).contains(q);
        law_groups(h, m, Set::empty());
        assert(group_at(h, m).contains(p));
    }
}

/// A tick tells of exactly the cells that vanished, and of what they held.
pub proof fn law_vanished_cells_are_told(g: Grid, pull: Pull, p: Spot)
    requires
        addressable(g),
        on_grid(g, p),
    ensures
        ({
            let h = field_fallen(g, pull);
            let told = cells_vanished(g, pull);
            &&& (filled(h, p) && at(field_after(g, pull), p) is Empty) <==> exists|i: int|
                0 <= i < told.len() && spot((#[trigger] told[i]).0) == p
            &&& forall|i: int|
                0 <= i < told.len() ==> (#[trigger] told[i]).1 == at(h, spot(told[i].0)) && (told[i].1 is Color
                    || told[i].1 is Rock)
        }),
{
    let h = field_fallen(g, pull);
    let gone = field_vanishing(g, pull);
    let told = cells_vanished(g, pull);
    let list = listing(h, gone);
    assert(addressable(h)) by {
        assert forall|r: int| 0 <= r < h.len() implies (#[trigger] h[r]).len() <= usize::MAX by {
            assert(g[r].len() <= usize::MAX);
        }
    }
    lemma_listing(h, gone);
    assert forall|q: Spot| #[trigger] gone.contains(q) implies on_grid(h, q) && (at(h, q) is Color || at(h, q) is Rock) by {
        let m = choose|m: Spot| #[trigger]
            sets_off(h, falling(g, pull), field_landed(g, pull), m) && group_at(h, m).contains(q);
        law_groups(h, m, Set::empty());
        law_groups_are_of_a_kind(h, m, q);
    }
    assert forall|i: int| 0 <= i < told.len() implies (#[trigger] told[i]).1 == at(h, spot(told[i].0)) && (
    told[i].1 is Color || told[i].1 is Rock) by {
        assert(gone.contains(spot(list[i])));
    }
    if filled(h, p) && at(field_after(g, pull), p) is Empty {
        assert(gone.contains(p));
        let i = choose|i: int| 0 <= i < list.len() && #[trigger] spot(list[i]) == p;
        assert(spot(told[i].0) == p);
    }
    if exists|i: int| 0 <= i < told.len() && spot((#[trigger] told[i]).0) == p {
        let i = choose|i: int| 0 <= i < told.len() && spot((#[trigger] told[i]).0) == p;
        assert(spot(list[i]) == p);
        assert(gone.contains(p));
    }
}

/// Of what vanished, the colour blocks and the rocks are counted, each once.
pub proof fn law_vanished_cells_are_counted(cells: Seq<(crate::board::Pos, Cell)>)
    requires
        forall|i: int| 0 <= i < cells.len() ==> (#[trigger] cells[i]).1 is Color || cells[i].1 is Rock,
    ensures
        colors_among(cells) + rocks_among(cells) == cells.len(),
        colors_among(cells) == cells.filter(|c: (crate::board::Pos, Cell)| c.1 is Color).len(),
    decreases cells.len(),
{
    reveal(Seq::filter);
    if cells.len() > 0 {
        law_vanished_cells_are_counted(cells.drop_last());
        assert(cells.last() == cells[cells.len() - 1]);
    }
}

/// How long a block has waited: one that stands after the tick starts anew; one
/// that fell takes its wait with it; all others that do not stand have waited
/// one tick more, and only blocks wait.
pub proof fn law_waits(g: Grid, pull: Pull, p: Spot)
    ensures
        ({
            let after = field_after(g, pull);
            let waits = loose_after(g, pull).waits;
            let stands = standing(field_fallen(g, pull), pull.player, pull.solid);
            let over = (p.0 - 1, p.1);
            let from = if falling(g, pull).contains(over) { over } else { p };
            let before = if pull.waits.dom().contains(from) { pull.waits[from] } else { 0u16 };
            &&& waits.dom().contains(p) ==> filled(after, p)
            &&& stands.contains(p) ==> !waits.dom().contains(p)
            &&& filled(after, p) && !stands.contains(p) && falling(g, pull).contains(over) ==> waits.dom().contains(p)
            &&& filled(after, p) && !stands.contains(p) && !standing(g, pull.player, pull.solid).contains(p)
                ==> waits.dom().contains(p)
            &&& waits.dom().contains(p) && before < u16::MAX ==> waits[p] == before + 1
            &&& waits.dom().contains(p) ==> waits[p] >= before
            &&& loose_after(g, pull).shake_ticks == pull.shake_ticks
        }),
{
}

/// A block shakes as long as it has waited no longer than blocks shake.
pub proof fn law_shaking(s: Loose, p: Spot)
    ensures
        shaking(s, p) <==> s.waits.dom().contains(p) && s.waits[p] <= s.shake_ticks,
{
}

/// What comes down on the player: a block crushes them unless they cannot be
/// hurt, a capsule is breathed in, an item is taken, and only one thing comes.
pub proof fn law_what_comes_down_on_the_player(g: Grid, pull: Pull, player: Player, safe: bool)
    requires
        on_grid(g, pull.player),
    ensures
        ({
            let over = (pull.player.0 - 1, pull.player.1);
            let comes = falling(g, pull).contains(over);
            let after = player_pulled(g, pull, player);
            let points = 30 * colors_among(cells_vanished(g, pull));
            &&& crushes_player(g, pull, safe) <==> comes && !safe && !(at(g, over) is Oxygen || at(g, over) is Item)
            &&& comes && at(g, over) is Item ==> items_taken(g, pull) == seq![at(g, over)->Item_0]
            &&& !(comes && at(g, over) is Item) ==> items_taken(g, pull).len() == 0
            &&& !(comes && at(g, over) is Oxygen) ==> after == (Player { score: after.score, ..player })
                && (player.score + points <= u64::MAX ==> after.score == player.score + points)
            &&& comes && at(g, over) is Oxygen && player.oxygen_capsules_collected < u32::MAX
                ==> after.oxygen_capsules_collected == player.oxygen_capsules_collected + 1
            &&& comes && at(g, over) is Oxygen && player.oxygen + 50_000_000_000 <= 100_000_000_000
                ==> after.oxygen == player.oxygen + 50_000_000_000
            &&& comes && at(g, over) is Oxygen && player.oxygen + 50_000_000_000 >= 100_000_000_000
                ==> after.oxygen == 100_000_000_000
            &&& comes && at(g, over) is Oxygen && player.oxygen_capsules_collected < u32::MAX && player.score
                + points + 100 * (player.oxygen_capsules_collected + 1) <= u64::MAX ==> after.score == player.score
                + points + 100 * (player.oxygen_capsules_collected + 1)
            &&& after.row == player.row && after.col == player.col && after.lives == player.lives
        }),
{
    assert(onto_player(g, pull) == (if falling(g, pull).contains((pull.player.0 - 1, pull.player.1)) {
        Some(at(g, (pull.player.0 - 1, pull.player.1)))
    } else {
        None
    }));
}

} // verus!
