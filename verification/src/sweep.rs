//! Sweeping blocks off the field: which cells a sweep takes, the field without
//! them, and the list of what is gone.
use vstd::prelude::*;

use crate::board::{Board, Cell, Grid, Pos};
use crate::constants::{
    BONUS_FLOOR_DEPTH_M, CHECKPOINT_SAFE_ZONE_M, CHECKPOINT_STEP_M, CHECKPOINT_ZONE_GAP_M,
    STAR_MELT_DURATION_MS, STAR_VISIBLE_GRACE_MS,
};
use crate::fall::list_contents;
use crate::flood::{at, on_grid, spot, spots, Spot};
use crate::groups::{clear_cells, cleared};
use crate::listing::{lemma_board_addressable, lemma_listing, listing, row_listing, rows_listing};

verus! {

/// What a sweep is after.
#[derive(Debug, Clone, Copy, PartialEq, Eq, Structural)]
pub enum Sweep {
    /// The blocks above a row. Capsules and items stay.
    BlocksAbove { row: usize },
    /// Everything in the gaps of the checkpoints up to this one.
    Gaps { checkpoints: usize },
    /// The stars from row `low` to before row `to` that have been in view for too long.
    RipeStars { low: usize, to: usize },
    /// Everything from row `low` to before row `to`.
    Everything { low: usize, to: usize },
}

/// Row `r` belongs to the gap below the ground of a checkpoint that has been
/// reached. The bonus floor has no gap to keep free.
pub open spec fn in_gap(r: int, checkpoints: int) -> bool {
    exists|k: int|
        1 <= k <= checkpoints && #[trigger] gap_start(k) <= r < gap_start(k) + CHECKPOINT_ZONE_GAP_M && k
            * CHECKPOINT_STEP_M != BONUS_FLOOR_DEPTH_M
}

/// The first row of the gap of a checkpoint.
pub open spec fn gap_start(checkpoint: int) -> int {
    checkpoint * CHECKPOINT_STEP_M + CHECKPOINT_SAFE_ZONE_M
}

/// Whether row `r` belongs to the gap of a checkpoint that has been reached.
fn is_in_gap(r: usize, checkpoints: usize) -> (b: bool)
    ensures
        b == in_gap(r as int, checkpoints as int),
{
    let k: usize = r / CHECKPOINT_STEP_M;
    let offset: usize = r % CHECKPOINT_STEP_M;
    let b: bool = k >= 1 && k <= checkpoints && offset >= CHECKPOINT_SAFE_ZONE_M && offset
        - CHECKPOINT_SAFE_ZONE_M < CHECKPOINT_ZONE_GAP_M && k != BONUS_FLOOR_DEPTH_M / CHECKPOINT_STEP_M;
    proof {
        assert(gap_start(k as int) == k * 100 + 5);
        if in_gap(r as int, checkpoints as int) {
            let j = choose|j: int|
                1 <= j <= checkpoints && #[trigger] gap_start(j) <= r < gap_start(j) + CHECKPOINT_ZONE_GAP_M
                    && j * CHECKPOINT_STEP_M != BONUS_FLOOR_DEPTH_M;
            assert(j * 100 + 5 <= r < j * 100 + 10);
            assert(k == j);
        }
    }
    b
}

impl Sweep {
    /// The sweep takes what lies in a cell of row `r`.
    pub open spec fn takes(self, r: int, cell: Cell) -> bool {
        match self {
            Sweep::BlocksAbove { row } => r < row && !(cell is Empty || cell is Oxygen || cell is Item),
            Sweep::Gaps { checkpoints } => in_gap(r, checkpoints as int) && !(cell is Empty),
            Sweep::RipeStars { low, to } => low <= r < to && (cell matches Cell::Star { visible_ms }
                && visible_ms >= STAR_VISIBLE_GRACE_MS + STAR_MELT_DURATION_MS),
            Sweep::Everything { low, to } => low <= r < to && !(cell is Empty),
        }
    }

    /// Whether the sweep takes what lies in a cell of row `r`.
    fn picks(&self, r: usize, cell: Cell) -> (b: bool)
        ensures
            b == self.takes(r as int, cell),
    {
        match self {
            Sweep::BlocksAbove { row } => r < *row && !matches!(cell, Cell::Empty | Cell::Oxygen | Cell::Item(_)),
            Sweep::Gaps { checkpoints } => !matches!(cell, Cell::Empty) && is_in_gap(r, *checkpoints),
            Sweep::RipeStars { low, to } => match cell {
                Cell::Star { visible_ms } => *low <= r && r < *to && visible_ms >= STAR_VISIBLE_GRACE_MS
                    + STAR_MELT_DURATION_MS,
                _ => false,
            },
            Sweep::Everything { low, to } => *low <= r && r < *to && !matches!(cell, Cell::Empty),
        }
    }
}

/// The cells that a sweep empties.
pub open spec fn swept(g: Grid, what: Sweep) -> Set<Spot> {
    Set::new(|p: Spot| on_grid(g, p) && what.takes(p.0, at(g, p)))
}

/// The cells of a list, each with what it holds.
pub open spec fn contents(g: Grid, list: Seq<Pos>) -> Seq<(Pos, Cell)> {
    list.map_values(|p: Pos| (p, at(g, spot(p))))
}

/// What a sweep takes, in reading order.
pub open spec fn haul(g: Grid, what: Sweep) -> Seq<(Pos, Cell)> {
    contents(g, listing(g, swept(g, what)))
}

/// Lists the cells that a sweep would empty, in reading order.
fn find(board: &Board, what: Sweep) -> (list: Vec<Pos>)
    requires
        board.wf(),
    ensures
        list@ == listing(board@, swept(board@, what)),
        spots(list@) == swept(board@, what),
        forall|i: int| 0 <= i < list@.len() ==> on_grid(board@, spot(#[trigger] list@[i])),
{
    let ghost g = board@;
    let ghost s = swept(g, what);
    let n: usize = board.depth_rows();
    let w: usize = board.width();
    let mut list: Vec<Pos> = Vec::new();
    let mut r: usize = 0;
    while r < n
        invariant
            board.wf(),
            g == board@,
            n == g.len(),
            w == board.width,
            s == swept(g, what),
            r <= n,
            list@ == rows_listing(g, s, r as nat),
        decreases n - r,
    {
        let mut c: usize = 0;
        assert(g[r as int].len() == w);
        while c < w
            invariant
                board.wf(),
                g == board@,
                n == g.len(),
                w == board.width,
                s == swept(g, what),
                r < n,
                c <= w,
                w == g[r as int].len(),
                list@ == rows_listing(g, s, r as nat) + row_listing(s, r as int, c as nat),
            decreases w - c,
        {
            assert(s.contains((r as int, c as int)) <==> what.takes(r as int, g[r as int][c as int]));
            if what.picks(r, board.cell(r, c)) {
                list.push((r, c));
            }
            c = c + 1;
            assert(list@ =~= rows_listing(g, s, r as nat) + row_listing(s, r as int, c as nat));
        }
        r = r + 1;
        assert(list@ =~= rows_listing(g, s, r as nat));
    }
    proof {
        lemma_board_addressable(board);
        lemma_listing(g, s);
        assert(spots(list@) =~= s) by {
            assert forall|p: Spot| spots(list@).contains(p) implies s.contains(p) by {
                let i = choose|i: int| 0 <= i < list@.len() && #[trigger] spot(list@[i]) == p;
                assert(s.contains(spot(list@[i])));
            }
            assert forall|p: Spot| s.contains(p) implies spots(list@).contains(p) by {
                assert(on_grid(g, p));
            }
        }
    }
    list
}

/// Lists what a sweep would take, in reading order.
pub fn gather(board: &Board, what: Sweep) -> (found: Vec<(Pos, Cell)>)
    requires
        board.wf(),
    ensures
        found@ == haul(board@, what),
{
    let list: Vec<Pos> = find(board, what);
    list_contents(board, &list)
}

/// Sweeps the field. Returns what was taken, in reading order.
pub fn sweep(board: &mut Board, what: Sweep) -> (gone: Vec<(Pos, Cell)>)
    requires
        old(board).wf(),
    ensures
        final(board).wf(),
        final(board).width == old(board).width,
        final(board)@ == cleared(old(board)@, swept(old(board)@, what)),
        gone@ == haul(old(board)@, what),
{
    let list: Vec<Pos> = find(board, what);
    let gone: Vec<(Pos, Cell)> = list_contents(board, &list);
    clear_cells(board, &list);
    gone
}

} // verus!
