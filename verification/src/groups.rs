//! Groups of blocks that stick together, what holds a block up, and what a
//! drill does to the block it hits.
use vstd::prelude::*;

use crate::board::{with_cell, Board, Cell, ColorKind, Grid, ItemEffect, Pos};
use crate::constants::ROCK_HITS_TO_BREAK;
use crate::flood::{at, flood, flooded, on_grid, spot, spots, spread, Flood, Spot};

verus! {

/// What the player picks up by stepping into a cell.
#[derive(Debug, Clone, Copy, PartialEq, Eq, Structural)]
pub enum Pickup {
    Oxygen,
    Item(ItemEffect),
}

/// What one drill hit did to a rock block.
#[derive(Debug, Clone, Copy, PartialEq, Eq, Structural)]
pub enum RockHitResult {
    StillIntact,
    Destroyed { blocks: usize },
}

/// The block at `p` with all the blocks that stick to it, directly or
/// through others.
pub open spec fn group_at(g: Grid, p: Spot) -> Set<Spot> {
    flooded(g, spread(false, None), set![p])
}

/// The field with every cell of a set emptied.
pub open spec fn cleared(g: Grid, s: Set<Spot>) -> Grid {
    Seq::new(
        g.len(),
        |r: int| Seq::new(g[r].len(), |c: int| if s.contains((r, c)) { Cell::Empty } else { g[r][c] }),
    )
}

/// The spot below.
pub open spec fn below(p: Spot) -> Spot {
    (p.0 + 1, p.1)
}

/// The spot above.
pub open spec fn above(p: Spot) -> Spot {
    (p.0 - 1, p.1)
}

/// A block alone at `p` is held up: it lies on the deepest row, on a solid
/// overlay, or on a block that is not in the player's cell.
pub open spec fn held_up(g: Grid, p: Spot, player: Spot, solid: Set<Spot>) -> bool {
    ||| p.0 + 1 == g.len()
    ||| solid.contains(below(p))
    ||| below(p) != player && on_grid(g, below(p)) && at(g, below(p)) != Cell::Empty
}

/// One block of the group is held up by something outside the group.
pub open spec fn group_held_up(
    g: Grid,
    group: Set<Spot>,
    player: Spot,
    solid: Set<Spot>,
) -> bool {
    exists|p: Spot| #[trigger]
        group.contains(p) && held_up(g, p, player, solid) && (p.0 + 1 == g.len() || solid.contains(
            below(p),
        ) || !group.contains(below(p)))
}

/// Distinct positions make as many spots.
pub proof fn lemma_spots_len(list: Seq<Pos>)
    requires
        list.no_duplicates(),
    ensures
        spots(list).finite(),
        spots(list).len() == list.len(),
{
    let m = list.map_values(|p: Pos| spot(p));
    assert(m.no_duplicates()) by {
        assert forall|i: int, j: int| 0 <= i < m.len() && 0 <= j < m.len() && i != j implies m[i] != m[j] by {
            assert(list[i] != list[j]);
        }
    }
    m.unique_seq_to_set();
    assert(m.to_set() =~= spots(list)) by {
        assert forall|p: Spot| m.to_set().contains(p) <==> spots(list).contains(p) by {
            if m.to_set().contains(p) {
                let i = choose|i: int| 0 <= i < m.len() && m[i] == p;
                assert(spot(list[i]) == p);
            }
            if spots(list).contains(p) {
                let i = choose|i: int| 0 <= i < list.len() && #[trigger] spot(list[i]) == p;
                assert(m[i] == p);
            }
        }
    }
}

/// A starting spot is reached, and only spots on the field are.
pub proof fn lemma_group_has_its_seed(g: Grid, p: Spot)
    requires
        on_grid(g, p),
    ensures
        group_at(g, p).contains(p),
        forall|q: Spot| #[trigger] group_at(g, p).contains(q) ==> on_grid(g, q),
{
    assert(set![p].contains(p));
}

/// The flood's list of cells stands for the whole group.
fn group_from(board: &Board, target: Pos) -> (group: Vec<Pos>)
    requires
        board.wf(),
        on_grid(board@, spot(target)),
    ensures
        spots(group@) == group_at(board@, spot(target)),
        group@.no_duplicates(),
        forall|i: int| 0 <= i < group@.len() ==> on_grid(board@, spot(#[trigger] group@[i])),
{
    let mut base: Vec<Pos> = Vec::new();
    base.push(target);
    assert(spots(base@) =~= set![spot(target)]) by {
        assert(spot(base@[0]) == spot(target));
    }
    let f: Flood = flood(board, false, None, &base);
    proof {
        assert forall|p: Spot| spots(f.order@).contains(p) <==> group_at(
            board@,
            spot(target),
        ).contains(p) by {
            if spots(f.order@).contains(p) {
                let i = choose|i: int| 0 <= i < f.order@.len() && #[trigger] spot(f.order@[i]) == p;
                assert(f.marked(spot(f.order@[i])));
            }
            if group_at(board@, spot(target)).contains(p) {
                assert(f.marked(p));
            }
        }
        assert(spots(f.order@) =~= group_at(board@, spot(target)));
    }
    f.order
}

/// The same-coloured blocks connected to the colour block at `target`.
pub fn connected_same_color(board: &Board, target: Pos, color: ColorKind) -> (group: Vec<Pos>)
    requires
        board.wf(),
        on_grid(board@, spot(target)),
        at(board@, spot(target)) == Cell::Color(color),
    ensures
        spots(group@) == group_at(board@, spot(target)),
        group@.no_duplicates(),
        forall|i: int| 0 <= i < group@.len() ==> on_grid(board@, spot(#[trigger] group@[i])),
{
    group_from(board, target)
}

/// The rock blocks connected to the rock block at `target`.
pub fn connected_rock_group(board: &Board, target: Pos) -> (group: Vec<Pos>)
    requires
        board.wf(),
        on_grid(board@, spot(target)),
        at(board@, spot(target)) is Rock,
    ensures
        spots(group@) == group_at(board@, spot(target)),
        group@.no_duplicates(),
        forall|i: int| 0 <= i < group@.len() ==> on_grid(board@, spot(#[trigger] group@[i])),
{
    group_from(board, target)
}

/// Whether a list of positions holds `p`.
pub fn lists(list: &[Pos], p: Pos) -> (r: bool)
    ensures
        r == spots(list@).contains(spot(p)),
{
    let mut i: usize = 0;
    while i < list.len()
        invariant
            i <= list@.len(),
            forall|k: int| 0 <= k < i ==> spot(#[trigger] list@[k]) != spot(p),
        decreases list@.len() - i,
    {
        if list[i].0 == p.0 && list[i].1 == p.1 {
            assert(spot(list@[i as int]) == spot(p));
            return true;
        }
        i = i + 1;
    }
    false
}

/// Whether a block alone at `pos` is held up. The player's cell holds nothing
/// up; solid overlays do.
pub fn is_supported(board: &Board, pos: Pos, player_pos: Pos, solid: &[Pos]) -> (r: bool)
    requires
        board.wf(),
        on_grid(board@, spot(pos)),
    ensures
        r == held_up(board@, spot(pos), spot(player_pos), spots(solid@)),
{
    if board.depth_rows() - pos.0 == 1 {
        return true;
    }
    let under: Pos = (pos.0 + 1, pos.1);
    assert(spot(under) == below(spot(pos)));
    if lists(solid, under) {
        return true;
    }
    let is_player: bool = under.0 == player_pos.0 && under.1 == player_pos.1;
    !is_player && board.cell(under.0, under.1) != Cell::Empty
}

/// Whether a group is held up: one of its blocks rests on the deepest row, on
/// a solid overlay, or on a block outside the group and outside the player's
/// cell.
pub fn is_group_supported(board: &Board, group: &[Pos], player_pos: Pos, solid: &[Pos]) -> (r: bool)
    requires
        board.wf(),
        forall|i: int| 0 <= i < group@.len() ==> on_grid(board@, spot(#[trigger] group@[i])),
    ensures
        r == group_held_up(board@, spots(group@), spot(player_pos), spots(solid@)),
{
    let ghost g = board@;
    let ghost all = spots(group@);
    let ghost player = spot(player_pos);
    let ghost hard = spots(solid@);
    let mut i: usize = 0;
    while i < group.len()
        invariant
            board.wf(),
            g == board@,
            all == spots(group@),
            player == spot(player_pos),
            hard == spots(solid@),
            i <= group@.len(),
            forall|k: int| 0 <= k < group@.len() ==> on_grid(board@, spot(#[trigger] group@[k])),
            forall|k: int|
                0 <= k < i ==> {
                    let p = spot(#[trigger] group@[k]);
                    !(held_up(g, p, player, hard) && (p.0 + 1 == g.len() || hard.contains(below(p))
                        || !all.contains(below(p))))
                },
        decreases group@.len() - i,
    {
        let p: Pos = group[i];
        assert(all.contains(spot(p)));
        if board.depth_rows() - p.0 == 1 {
            return true;
        }
        let under: Pos = (p.0 + 1, p.1);
        assert(spot(under) == below(spot(p)));
        if lists(solid, under) {
            return true;
        }
        if !lists(group, under) && is_supported(board, p, player_pos, solid) {
            return true;
        }
        i = i + 1;
    }
    assert forall|p: Spot| #[trigger] all.contains(p) implies !(held_up(g, p, player, hard) && (p.0 + 1
        == g.len() || hard.contains(below(p)) || !all.contains(below(p)))) by {
        let k = choose|k: int| 0 <= k < group@.len() && #[trigger] spot(group@[k]) == p;
        assert(spot(group@[k]) == p);
    }
    false
}

/// Empties every cell of the list.
pub fn clear_cells(board: &mut Board, list: &Vec<Pos>)
    requires
        old(board).wf(),
        forall|i: int| 0 <= i < list@.len() ==> on_grid(old(board)@, spot(#[trigger] list@[i])),
    ensures
        final(board).wf(),
        final(board).width == old(board).width,
        final(board)@ == cleared(old(board)@, spots(list@)),
{
    let ghost g = board@;
    let mut i: usize = 0;
    assert(cleared(g, spots(list@.take(0))) =~= g) by {
        assert forall|r: int| 0 <= r < g.len() implies cleared(g, spots(list@.take(0)))[r] =~= g[r] by {}
    }
    while i < list.len()
        invariant
            board.wf(),
            board.width == old(board).width,
            g == old(board)@,
            i <= list@.len(),
            board@.len() == g.len(),
            forall|k: int| 0 <= k < list@.len() ==> on_grid(g, spot(#[trigger] list@[k])),
            rectangular_like(board@, g),
            board@ == cleared(g, spots(list@.take(i as int))),
        decreases list@.len() - i,
    {
        let p: Pos = list[i];
        let ghost before = board@;
        assert(on_grid(before, spot(p)));
        board.set(p.0, p.1, Cell::Empty);
        proof {
            let a = list@.take(i as int);
            let b = list@.take(i + 1);
            assert forall|q: Spot| spots(b).contains(q) <==> spots(a).contains(q) || q == spot(p) by {
                if spots(b).contains(q) {
                    let k = choose|k: int| 0 <= k < b.len() && #[trigger] spot(b[k]) == q;
                    if k < i {
                        assert(spot(a[k]) == q);
                    }
                }
                if spots(a).contains(q) {
                    let k = choose|k: int| 0 <= k < a.len() && #[trigger] spot(a[k]) == q;
                    assert(spot(b[k]) == q);
                }
                assert(spot(b[i as int]) == spot(p));
            }
            let after = cleared(g, spots(b));
            assert(board@ =~= after) by {
                assert forall|r: int| 0 <= r < g.len() implies board@[r] =~= after[r] by {}
            }
        }
        i = i + 1;
    }
    assert(list@.take(list@.len() as int) =~= list@);
}

/// Two fields of the same shape.
pub open spec fn rectangular_like(a: Grid, b: Grid) -> bool {
    a.len() == b.len() && forall|r: int| 0 <= r < b.len() ==> (#[trigger] a[r]).len() == b[r].len()
}

/// Drills the colour block at `target`: its whole group vanishes. Returns how
/// many blocks did.
pub fn drill_color_block(board: &mut Board, target: Pos) -> (blocks: usize)
    requires
        old(board).wf(),
        on_grid(old(board)@, spot(target)),
        at(old(board)@, spot(target)) is Color,
    ensures
        final(board).wf(),
        final(board).width == old(board).width,
        final(board)@ == cleared(old(board)@, group_at(old(board)@, spot(target))),
        blocks == group_at(old(board)@, spot(target)).len(),
        blocks >= 1,
{
    let group: Vec<Pos> = group_from(board, target);
    proof {
        lemma_spots_len(group@);
        lemma_group_has_its_seed(board@, spot(target));
        assert(spots(group@).contains(spot(target)));
    }
    clear_cells(board, &group);
    group.len()
}

/// What becomes of a rock that has taken `hits` hits when it is hit again.
pub open spec fn rock_after_hit(hits: u8) -> Cell {
    if hits + 1 >= ROCK_HITS_TO_BREAK {
        Cell::Empty
    } else {
        Cell::Rock { hits: (hits + 1) as u8 }
    }
}

/// Hits the rock block at `target` once. The last hit it can stand breaks that
/// block and no other. `None` if there is no rock.
pub fn hit_rock(board: &mut Board, target: Pos) -> (result: Option<RockHitResult>)
    requires
        old(board).wf(),
        on_grid(old(board)@, spot(target)),
    ensures
        final(board).wf(),
        final(board).width == old(board).width,
        match at(old(board)@, spot(target)) {
            Cell::Rock { hits } => {
                &&& final(board)@ == with_cell(
                    old(board)@,
                    target.0 as int,
                    target.1 as int,
                    rock_after_hit(hits),
                )
                &&& result == Some(
                    if rock_after_hit(hits) == Cell::Empty {
                        RockHitResult::Destroyed { blocks: 1 }
                    } else {
                        RockHitResult::StillIntact
                    },
                )
            },
            _ => final(board)@ == old(board)@ && result is None,
        },
{
    match board.cell(target.0, target.1) {
        Cell::Rock { hits } => {
            if hits >= ROCK_HITS_TO_BREAK - 1 {
                board.set(target.0, target.1, Cell::Empty);
                Some(RockHitResult::Destroyed { blocks: 1 })
            } else {
                board.set(target.0, target.1, Cell::Rock { hits: hits + 1 });
                Some(RockHitResult::StillIntact)
            }
        },
        _ => None,
    }
}

} // verus!
