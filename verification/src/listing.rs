//! Lists of cells of the field in reading order: row by row, and within a row
//! from left to right.
use vstd::prelude::*;

use crate::board::{Board, Grid, Pos};
use crate::flood::{on_grid, spot, spots, Spot};

verus! {

/// The first `c` cells of row `r` that belong to the set.
pub open spec fn row_listing(s: Set<Spot>, r: int, c: nat) -> Seq<Pos>
    decreases c,
{
    if c == 0 {
        Seq::empty()
    } else {
        let rest = row_listing(s, r, (c - 1) as nat);
        if s.contains((r, c - 1)) {
            rest.push((r as usize, (c - 1) as usize))
        } else {
            rest
        }
    }
}

/// The cells of the first `r` rows that belong to the set.
pub open spec fn rows_listing(g: Grid, s: Set<Spot>, r: nat) -> Seq<Pos>
    decreases r,
{
    if r == 0 {
        Seq::empty()
    } else {
        rows_listing(g, s, (r - 1) as nat) + row_listing(s, r - 1, g[r - 1].len())
    }
}

/// The cells of the field that belong to the set, in reading order.
pub open spec fn listing(g: Grid, s: Set<Spot>) -> Seq<Pos> {
    rows_listing(g, s, g.len())
}

/// The field is small enough for its cells to be addressed.
pub open spec fn addressable(g: Grid) -> bool {
    g.len() <= usize::MAX && forall|r: int| 0 <= r < g.len() ==> (#[trigger] g[r]).len() <= usize::MAX
}

proof fn lemma_row_listing(s: Set<Spot>, r: int, c: nat)
    requires
        0 <= r <= usize::MAX,
        c <= usize::MAX,
    ensures
        row_listing(s, r, c).no_duplicates(),
        forall|i: int|
            0 <= i < row_listing(s, r, c).len() ==> {
                let p = #[trigger] row_listing(s, r, c)[i];
                p.0 == r && p.1 < c && s.contains(spot(p))
            },
        forall|x: int|
            0 <= x < c && #[trigger] s.contains((r, x)) ==> spots(row_listing(s, r, c)).contains((r, x)),
    decreases c,
{
    if c > 0 {
        let d = (c - 1) as nat;
        lemma_row_listing(s, r, d);
        let rest = row_listing(s, r, d);
        let all = row_listing(s, r, c);
        assert forall|x: int| 0 <= x < c && #[trigger] s.contains((r, x)) implies spots(all).contains(
            (r, x),
        ) by {
            if x < d {
                assert(spots(rest).contains((r, x)));
                let i = choose|i: int| 0 <= i < rest.len() && #[trigger] spot(rest[i]) == (r, x);
                assert(spot(all[i]) == (r, x));
            } else {
                assert(spot(all[all.len() - 1]) == (r, x));
            }
        }
    }
}

proof fn lemma_rows_listing(g: Grid, s: Set<Spot>, r: nat)
    requires
        addressable(g),
        r <= g.len(),
    ensures
        rows_listing(g, s, r).no_duplicates(),
        forall|i: int|
            0 <= i < rows_listing(g, s, r).len() ==> {
                let p = #[trigger] rows_listing(g, s, r)[i];
                p.0 < r && on_grid(g, spot(p)) && s.contains(spot(p))
            },
        forall|p: Spot|
            on_grid(g, p) && p.0 < r && #[trigger] s.contains(p) ==> spots(rows_listing(g, s, r)).contains(
                p,
            ),
    decreases r,
{
    if r > 0 {
        let q = (r - 1) as nat;
        lemma_rows_listing(g, s, q);
        lemma_row_listing(s, q as int, g[q as int].len());
        let up = rows_listing(g, s, q);
        let row = row_listing(s, q as int, g[q as int].len());
        let all = rows_listing(g, s, r);
        assert(all == up + row);
        assert forall|i: int| 0 <= i < all.len() implies {
            let p = #[trigger] all[i];
            p.0 < r && on_grid(g, spot(p)) && s.contains(spot(p))
        } by {
            if i < up.len() {
                assert(all[i] == up[i]);
            } else {
                assert(all[i] == row[i - up.len()]);
            }
        }
        assert(all.no_duplicates()) by {
            assert forall|i: int, j: int| 0 <= i < all.len() && 0 <= j < all.len() && i != j implies all[i]
                != all[j] by {
                let a = if i < up.len() { up[i] } else { row[i - up.len()] };
                let b = if j < up.len() { up[j] } else { row[j - up.len()] };
                assert(all[i] == a && all[j] == b);
            }
        }
        assert forall|p: Spot| on_grid(g, p) && p.0 < r && #[trigger] s.contains(p) implies spots(
            all,
        ).contains(p) by {
            if p.0 < q {
                assert(spots(up).contains(p));
                let i = choose|i: int| 0 <= i < up.len() && #[trigger] spot(up[i]) == p;
                assert(spot(all[i]) == p);
            } else {
                assert(s.contains((q as int, p.1)));
                assert(spots(row).contains((q as int, p.1)));
                let i = choose|i: int| 0 <= i < row.len() && #[trigger] spot(row[i]) == p;
                assert(all[up.len() + i] == row[i]);
                assert(spot(all[up.len() + i]) == p);
            }
        }
    }
}

/// A listing has each cell of the field that belongs to the set exactly once,
/// and nothing else.
pub proof fn lemma_listing(g: Grid, s: Set<Spot>)
    requires
        addressable(g),
    ensures
        listing(g, s).no_duplicates(),
        forall|i: int|
            0 <= i < listing(g, s).len() ==> {
                let p = #[trigger] listing(g, s)[i];
                on_grid(g, spot(p)) && s.contains(spot(p))
            },
        forall|p: Spot| on_grid(g, p) && #[trigger] s.contains(p) ==> spots(listing(g, s)).contains(p),
{
    lemma_rows_listing(g, s, g.len());
}

/// The table has the shape of the field.
pub open spec fn table_fits(g: Grid, table: Seq<Vec<bool>>) -> bool {
    &&& table.len() == g.len()
    &&& forall|r: int| 0 <= r < g.len() ==> (#[trigger] table[r])@.len() == g[r].len()
}

/// The cells that a table marks.
pub open spec fn table_set(g: Grid, table: Seq<Vec<bool>>) -> Set<Spot> {
    Set::new(|p: Spot| on_grid(g, p) && table[p.0]@[p.1])
}

/// A field that exists in memory is addressable.
pub proof fn lemma_board_addressable(board: &Board)
    requires
        board.wf(),
    ensures
        addressable(board@),
{
    assert(board@.len() == board.rows.len());
}

/// Lists the marked cells in reading order.
pub fn list_table(board: &Board, table: &Vec<Vec<bool>>) -> (list: Vec<Pos>)
    requires
        board.wf(),
        table_fits(board@, table@),
    ensures
        list@ == listing(board@, table_set(board@, table@)),
{
    let ghost g = board@;
    let ghost s = table_set(g, table@);
    let n: usize = board.depth_rows();
    let mut list: Vec<Pos> = Vec::new();
    let mut r: usize = 0;
    while r < n
        invariant
            board.wf(),
            g == board@,
            n == g.len(),
            table_fits(g, table@),
            s == table_set(g, table@),
            r <= n,
            list@ == rows_listing(g, s, r as nat),
        decreases n - r,
    {
        let w: usize = board.width();
        let mut c: usize = 0;
        assert(g[r as int].len() == w);
        assert(table@[r as int]@.len() == w);
        while c < w
            invariant
                board.wf(),
                g == board@,
                n == g.len(),
                table_fits(g, table@),
                s == table_set(g, table@),
                r < n,
                c <= w,
                w == g[r as int].len(),
                w == table@[r as int]@.len(),
                list@ == rows_listing(g, s, r as nat) + row_listing(s, r as int, c as nat),
            decreases w - c,
        {
            assert(s.contains((r as int, c as int)) <==> table@[r as int]@[c as int]);
            if table[r][c] {
                list.push((r, c));
            }
            c = c + 1;
            assert(list@ =~= rows_listing(g, s, r as nat) + row_listing(s, r as int, c as nat));
        }
        r = r + 1;
        assert(list@ =~= rows_listing(g, s, r as nat));
    }
    list
}

} // verus!
