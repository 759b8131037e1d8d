//! Spreading over the field: the cells that can be reached from a set of
//! starting cells, along links between like blocks and, where wanted, upward
//! from each block to the block that rests on it.
use vstd::prelude::*;

use crate::board::{Board, Cell, Grid, Pos};

verus! {

/// A cell of the mathematical field, as row and column.
pub type Spot = (int, int);

/// The spot of an executable position.
pub open spec fn spot(p: Pos) -> Spot {
    (p.0 as int, p.1 as int)
}

/// The spot lies on the field.
pub open spec fn on_grid(g: Grid, p: Spot) -> bool {
    0 <= p.0 < g.len() && 0 <= p.1 < g[p.0].len()
}

/// The content of a spot.
pub open spec fn at(g: Grid, p: Spot) -> Cell {
    g[p.0][p.1]
}

/// The spots share an edge.
pub open spec fn adjacent(p: Spot, q: Spot) -> bool {
    ||| p.0 == q.0 && (p.1 == q.1 + 1 || q.1 == p.1 + 1)
    ||| p.1 == q.1 && (p.0 == q.0 + 1 || q.0 == p.0 + 1)
}

/// Two blocks that stick together when they touch: the same colour, or rock
/// and rock, whatever hits the rocks have taken.
pub open spec fn alike(a: Cell, b: Cell) -> bool {
    match (a, b) {
        (Cell::Color(x), Cell::Color(y)) => x == y,
        (Cell::Rock { .. }, Cell::Rock { .. }) => true,
        _ => false,
    }
}

/// How a flood spreads besides along links between like blocks.
pub struct Spread {
    /// Also from a block to the block on top of it.
    pub upward: bool,
    /// A spot whose block carries nothing.
    pub carries_nothing: Spot,
}

/// One step of a flood leads from `p` to `q`.
pub open spec fn leads(g: Grid, how: Spread, p: Spot, q: Spot) -> bool {
    &&& on_grid(g, p)
    &&& on_grid(g, q)
    &&& {
        ||| adjacent(p, q) && alike(at(g, p), at(g, q))
        ||| how.upward && p != how.carries_nothing && q == (p.0 - 1, p.1) && at(g, q) != Cell::Empty
    }
}

/// No step of the flood leads out of the set.
pub open spec fn closed_under(g: Grid, how: Spread, t: Set<Spot>) -> bool {
    forall|p: Spot, q: Spot| #[trigger] t.contains(p) && #[trigger] leads(g, how, p, q) ==> t.contains(q)
}

/// The spot belongs to every closed set around `base`: some chain of steps
/// from `base` ends there.
pub open spec fn reached(g: Grid, how: Spread, base: Set<Spot>, p: Spot) -> bool {
    &&& on_grid(g, p)
    &&& forall|t: Set<Spot>| base.subset_of(t) && #[trigger] closed_under(g, how, t) ==> t.contains(p)
}

/// The spots that a flood from `base` reaches.
pub open spec fn flooded(g: Grid, how: Spread, base: Set<Spot>) -> Set<Spot> {
    Set::new(|p: Spot| reached(g, how, base, p))
}

/// The spots of a list of positions.
pub open spec fn spots(list: Seq<Pos>) -> Set<Spot> {
    Set::new(|p: Spot| exists|i: int| 0 <= i < list.len() && #[trigger] spot(list[i]) == p)
}

/// How many entries of a row are not set.
pub open spec fn unset_in_row(row: Seq<bool>) -> nat
    decreases row.len(),
{
    if row.len() == 0 {
        0
    } else {
        unset_in_row(row.drop_last()) + (if row.last() { 0nat } else { 1nat })
    }
}

/// How many entries of a table are not set.
pub open spec fn unset(table: Seq<Seq<bool>>) -> nat
    decreases table.len(),
{
    if table.len() == 0 {
        0
    } else {
        unset(table.drop_last()) + unset_in_row(table.last())
    }
}

proof fn lemma_unset_row_update(row: Seq<bool>, i: int)
    requires
        0 <= i < row.len(),
        !row[i],
    ensures
        unset_in_row(row.update(i, true)) + 1 == unset_in_row(row),
    decreases row.len(),
{
    let after = row.update(i, true);
    if i == row.len() - 1 {
        assert(after.drop_last() =~= row.drop_last());
    } else {
        assert(after.drop_last() =~= row.drop_last().update(i, true));
        lemma_unset_row_update(row.drop_last(), i);
    }
}

proof fn lemma_unset_update(table: Seq<Seq<bool>>, r: int, c: int)
    requires
        0 <= r < table.len(),
        0 <= c < table[r].len(),
        !table[r][c],
    ensures
        unset(table.update(r, table[r].update(c, true))) + 1 == unset(table),
    decreases table.len(),
{
    let after = table.update(r, table[r].update(c, true));
    if r == table.len() - 1 {
        assert(after.drop_last() =~= table.drop_last());
        lemma_unset_row_update(table[r], c);
    } else {
        assert(after.drop_last() =~= table.drop_last().update(r, table[r].update(c, true)));
        lemma_unset_update(table.drop_last(), r, c);
    }
}

/// The table of a list of rows.
pub open spec fn table_of(rows: Seq<Vec<bool>>) -> Seq<Seq<bool>> {
    Seq::new(rows.len(), |r: int| rows[r]@)
}

/// The cells that a flood has reached.
pub struct Flood {
    /// For each cell of the field, whether it was reached.
    pub marks: Vec<Vec<bool>>,
    /// The cells reached, each once.
    pub order: Vec<Pos>,
}

impl Flood {
    /// The table has the shape of the field.
    pub open spec fn fits(&self, g: Grid) -> bool {
        &&& self.marks@.len() == g.len()
        &&& forall|r: int| 0 <= r < g.len() ==> (#[trigger] self.marks@[r])@.len() == g[r].len()
    }

    /// The spot is marked.
    pub open spec fn marked(&self, p: Spot) -> bool {
        self.marks@[p.0]@[p.1]
    }

    /// The order lists exactly the marked cells, each once.
    pub open spec fn listed(&self, g: Grid) -> bool {
        &&& forall|i: int|
            0 <= i < self.order@.len() ==> on_grid(g, spot(#[trigger] self.order@[i])) && self.marked(
                spot(self.order@[i]),
            )
        &&& forall|p: Spot|
            on_grid(g, p) && #[trigger] self.marked(p) ==> spots(self.order@).contains(p)
        &&& self.order@.no_duplicates()
    }

    /// The marks are exactly the spots that the flood reaches.
    pub open spec fn covers(&self, g: Grid, how: Spread, base: Set<Spot>) -> bool {
        &&& self.fits(g)
        &&& self.listed(g)
        &&& forall|p: Spot|
            on_grid(g, p) ==> (#[trigger] self.marked(p) <==> flooded(g, how, base).contains(p))
    }

    /// Marks one cell, unless it is marked already.
    fn mark(&mut self, Ghost(g): Ghost<Grid>, p: Pos)
        requires
            old(self).fits(g),
            old(self).listed(g),
            on_grid(g, spot(p)),
        ensures
            final(self).fits(g),
            final(self).listed(g),
            final(self).marked(spot(p)),
            forall|q: Spot|
                on_grid(g, q) && q != spot(p) ==> #[trigger] final(self).marked(q) == old(self).marked(q),
            old(self).order@.len() <= final(self).order@.len(),
            forall|i: int| 0 <= i < old(self).order@.len() ==> final(self).order@[i] == old(self).order@[i],
            forall|i: int|
                old(self).order@.len() <= i < final(self).order@.len() ==> final(self).order@[i] == p,
            unset(table_of(final(self).marks@)) + final(self).order@.len() == unset(
                table_of(old(self).marks@),
            ) + old(self).order@.len(),
    {
        let ghost before = *self;
        if !self.marks[p.0][p.1] {
            assert(!before.marked(spot(p)));
            self.marks[p.0][p.1] = true;
            self.order.push(p);
            proof {
                let t = table_of(before.marks@);
                lemma_unset_update(t, p.0 as int, p.1 as int);
                assert(table_of(self.marks@) =~= t.update(
                    p.0 as int,
                    t[p.0 as int].update(p.1 as int, true),
                ));
                assert forall|q: Spot| on_grid(g, q) && #[trigger] self.marked(q) implies spots(
                    self.order@,
                ).contains(q) by {
                    if q == spot(p) {
                        assert(spot(self.order@[self.order@.len() - 1]) == q);
                    } else {
                        assert(before.marked(q));
                        let i = choose|i: int|
                            0 <= i < before.order@.len() && #[trigger] spot(before.order@[i]) == q;
                        assert(spot(self.order@[i]) == q);
                    }
                }
                assert forall|i: int| 0 <= i < self.order@.len() implies on_grid(
                    g,
                    spot(#[trigger] self.order@[i]),
                ) && self.marked(spot(self.order@[i])) by {
                    if i < before.order@.len() {
                        assert(self.order@[i] == before.order@[i]);
                        assert(before.marked(spot(before.order@[i])));
                    }
                }
            }
        }
    }
}

/// The manner of spreading that the arguments of `flood` stand for.
pub open spec fn spread(upward: bool, carries_nothing: Option<Pos>) -> Spread {
    Spread {
        upward,
        carries_nothing: match carries_nothing {
            Some(p) => spot(p),
            None => (-1, -1),
        },
    }
}

/// Two blocks that stick together when they touch.
pub fn are_alike(a: Cell, b: Cell) -> (r: bool)
    ensures
        r == alike(a, b),
{
    match (a, b) {
        (Cell::Color(x), Cell::Color(y)) => x == y,
        (Cell::Rock { .. }, Cell::Rock { .. }) => true,
        _ => false,
    }
}

/// An empty table of the field's shape.
fn blank(board: &Board) -> (f: Flood)
    requires
        board.wf(),
    ensures
        f.fits(board@),
        f.listed(board@),
        f.order@.len() == 0,
        forall|p: Spot| on_grid(board@, p) ==> !#[trigger] f.marked(p),
{
    let mut marks: Vec<Vec<bool>> = Vec::new();
    let n: usize = board.depth_rows();
    let mut r: usize = 0;
    while r < n
        invariant
            board.wf(),
            n == board@.len(),
            r <= n,
            marks@.len() == r,
            forall|i: int| 0 <= i < r ==> (#[trigger] marks@[i])@.len() == board.width,
            forall|i: int, c: int|
                0 <= i < r && 0 <= c < board.width ==> !(#[trigger] marks@[i]@[c]),
        decreases n - r,
    {
        let row: Vec<bool> = vec![false; board.width];
        marks.push(row);
        r = r + 1;
    }
    let f = Flood { marks, order: Vec::new() };
    assert forall|p: Spot| on_grid(board@, p) implies !#[trigger] f.marked(p) by {
        assert(!f.marks@[p.0]@[p.1]);
    }
    f
}

/// Floods the field from the cells of `base`: along links between like
/// blocks and, if `upward`, from each block to the block on top of it, except
/// from the block at `carries_nothing`.
pub fn flood(board: &Board, upward: bool, carries_nothing: Option<Pos>, base: &Vec<Pos>) -> (f: Flood)
    requires
        board.wf(),
        forall|i: int| 0 <= i < base@.len() ==> on_grid(board@, spot(#[trigger] base@[i])),
    ensures
        f.covers(board@, spread(upward, carries_nothing), spots(base@)),
{
    let ghost g = board@;
    let ghost how = spread(upward, carries_nothing);
    let ghost from = spots(base@);
    let mut f = blank(board);
    let mut i: usize = 0;
    while i < base.len()
        invariant
            board.wf(),
            g == board@,
            how == spread(upward, carries_nothing),
            from == spots(base@),
            forall|k: int| 0 <= k < base@.len() ==> on_grid(board@, spot(#[trigger] base@[k])),
            i <= base@.len(),
            f.fits(g),
            f.listed(g),
            forall|k: int| 0 <= k < i ==> f.marked(spot(#[trigger] base@[k])),
            forall|p: Spot| on_grid(g, p) && #[trigger] f.marked(p) ==> reached(g, how, from, p),
        decreases base@.len() - i,
    {
        let p: Pos = base[i];
        assert(from.contains(spot(p)));
        f.mark(Ghost(g), p);
        i = i + 1;
    }
    let n: usize = board.depth_rows();
    let mut head: usize = 0;
    while head < f.order.len()
        invariant
            board.wf(),
            g == board@,
            n == g.len(),
            how == spread(upward, carries_nothing),
            from == spots(base@),
            head <= f.order@.len(),
            f.fits(g),
            f.listed(g),
            forall|k: int| 0 <= k < base@.len() ==> on_grid(board@, spot(#[trigger] base@[k])),
            forall|k: int| 0 <= k < base@.len() ==> f.marked(spot(#[trigger] base@[k])),
            forall|p: Spot| on_grid(g, p) && #[trigger] f.marked(p) ==> reached(g, how, from, p),
            forall|k: int, q: Spot|
                0 <= k < head && #[trigger] leads(g, how, spot(#[trigger] f.order@[k]), q) ==> f.marked(q),
        decreases unset(table_of(f.marks@)) + f.order@.len() - head,
    {
        let p: Pos = f.order[head];
        let ghost sp = spot(p);
        let (r, c): (usize, usize) = p;
        let here: Cell = board.cell(r, c);
        let ghost start = f;
        assert(reached(g, how, from, sp)) by {
            assert(f.marked(sp));
        }
        if r > 0 {
            let above: Cell = board.cell(r - 1, c);
            let carried: bool = upward && above != Cell::Empty && carries_nothing != Some(p);
            if are_alike(here, above) || carried {
                assert(leads(g, how, sp, (sp.0 - 1, sp.1)));
                f.mark(Ghost(g), (r - 1, c));
            }
        }
        if r + 1 < n {
            if are_alike(here, board.cell(r + 1, c)) {
                assert(leads(g, how, sp, (sp.0 + 1, sp.1)));
                f.mark(Ghost(g), (r + 1, c));
            }
        }
        if c > 0 {
            if are_alike(here, board.cell(r, c - 1)) {
                assert(leads(g, how, sp, (sp.0, sp.1 - 1)));
                f.mark(Ghost(g), (r, c - 1));
            }
        }
        if c + 1 < board.width() {
            if are_alike(here, board.cell(r, c + 1)) {
                assert(leads(g, how, sp, (sp.0, sp.1 + 1)));
                f.mark(Ghost(g), (r, c + 1));
            }
        }
        assert forall|q: Spot| #[trigger] leads(g, how, sp, q) implies f.marked(q) by {}
        assert(f.order@[head as int] == p);
        head = head + 1;
    }
    proof {
        let m = Set::new(|p: Spot| on_grid(g, p) && f.marked(p));
        assert(closed_under(g, how, m)) by {
            assert forall|p: Spot, q: Spot| #[trigger] m.contains(p) && #[trigger] leads(
                g,
                how,
                p,
                q,
            ) implies m.contains(q) by {
                assert(f.marked(p));
                let k = choose|k: int| 0 <= k < f.order@.len() && #[trigger] spot(f.order@[k]) == p;
                assert(leads(g, how, spot(f.order@[k]), q));
            }
        }
        assert(from.subset_of(m));
        assert forall|p: Spot| on_grid(g, p) implies (#[trigger] f.marked(p) <==> flooded(
            g,
            how,
            from,
        ).contains(p)) by {}
    }
    f
}

} // verus!
