//! What items, checkpoints, misfortune and time do to the field.
use vstd::prelude::*;

use crate::board::{rectangular, with_cell, Board, Cell, ColorKind, Grid, Pos};
use crate::constants::{least, minus, PLAYER_SCREEN_ROWS_ABOVE, STAR_VISIBLE_RANGE_ROWS};
use crate::dice::Dice;
use crate::gravity::{shaking, GravityState, Loose};
use crate::groups::cleared;
use crate::sweep::{haul, sweep, swept, Sweep};

verus! {

/// The first row of the stretch that reaches `k` rows up and down from `row`.
pub open spec fn stretch_from(row: int, k: int) -> int {
    minus(row, k)
}

/// The row after the last of that stretch on a field of `n` rows.
pub open spec fn stretch_to(row: int, k: int, n: int) -> int {
    least(row + k + 1, n)
}

/// The stretch that reaches `k` rows up and down from `row`.
pub fn stretch(row: usize, k: usize, n: usize) -> (s: (usize, usize))
    requires
        row < n,
    ensures
        s.0 == stretch_from(row as int, k as int),
        s.1 == stretch_to(row as int, k as int, n as int),
        s.0 <= s.1 <= n,
{
    let low: usize = if row > k { row - k } else { 0 };
    let to: usize = if n - row > k { row + k + 1 } else { n };
    (low, to)
}

/// What the first `n` cells of column `c` hold, from the top, without the
/// empty ones.
pub open spec fn column_pile(g: Grid, c: int, n: nat) -> Seq<Cell>
    decreases n,
{
    if n == 0 {
        Seq::empty()
    } else {
        let rest = column_pile(g, c, (n - 1) as nat);
        if g[n - 1][c] is Empty {
            rest
        } else {
            rest.push(g[n - 1][c])
        }
    }
}

/// A pile is no higher than its column.
proof fn lemma_pile_len(g: Grid, c: int, n: nat)
    ensures
        column_pile(g, c, n).len() <= n,
    decreases n,
{
    if n > 0 {
        lemma_pile_len(g, c, (n - 1) as nat);
    }
}

/// A cell of the field once everything above row `entry` is stacked up from
/// there: the topmost of each column lies lowest.
pub open spec fn stacked_cell(g: Grid, entry: int, r: int, c: int) -> Cell {
    let pile = column_pile(g, c, entry as nat);
    if r >= entry {
        g[r][c]
    } else if entry - 1 - r < pile.len() {
        pile[entry - 1 - r]
    } else {
        Cell::Empty
    }
}

/// The field once everything above row `entry` is stacked up from there.
pub open spec fn stacked(g: Grid, entry: int) -> Grid {
    Seq::new(g.len(), |r: int| Seq::new(g[r].len(), |c: int| stacked_cell(g, entry, r, c)))
}

/// The first row on the screen of a player in `row`.
pub open spec fn screen_top(row: int) -> int {
    minus(row, PLAYER_SCREEN_ROWS_ABOVE as int)
}

/// The field once the blocks above `row` are gone. Capsules and items on the
/// screen stay where they are; those above it wait just off the screen.
pub open spec fn cleared_above(g: Grid, row: usize) -> Grid {
    stacked(cleared(g, swept(g, Sweep::BlocksAbove { row })), screen_top(row as int))
}

/// Stacks up what lies in one column above row `entry`.
fn stack_column(board: &mut Board, entry: usize, c: usize)
    requires
        old(board).wf(),
        entry <= old(board)@.len(),
        c < old(board).width,
    ensures
        final(board).wf(),
        final(board).width == old(board).width,
        final(board)@.len() == old(board)@.len(),
        forall|r: int, x: int|
            0 <= r < old(board)@.len() && 0 <= x < old(board).width ==> #[trigger] final(board)@[r][x] == (
            if x == c {
                stacked_cell(old(board)@, entry as int, r, x)
            } else {
                old(board)@[r][x]
            }),
{
    let ghost g = board@;
    let mut pile: Vec<Cell> = Vec::new();
    let mut r: usize = 0;
    while r < entry
        invariant
            board.wf(),
            board.width == old(board).width,
            rectangular(g, board.width as nat),
            board@.len() == g.len(),
            entry <= g.len(),
            c < board.width,
            r <= entry,
            pile@ == column_pile(g, c as int, r as nat),
            forall|i: int, x: int|
                0 <= i < g.len() && 0 <= x < board.width ==> #[trigger] board@[i][x] == (if x == c && i < r {
                    Cell::Empty
                } else {
                    g[i][x]
                }),
        decreases entry - r,
    {
        let cell: Cell = board.cell(r, c);
        assert(board@[r as int].len() == board.width);
        assert(cell == g[r as int][c as int]);
        if !matches!(cell, Cell::Empty) {
            pile.push(cell);
            board.set(r, c, Cell::Empty);
        }
        r = r + 1;
    }
    proof {
        lemma_pile_len(g, c as int, entry as nat);
    }
    let mut i: usize = 0;
    while i < pile.len()
        invariant
            board.wf(),
            board.width == old(board).width,
            board@.len() == g.len(),
            entry <= g.len(),
            c < board.width,
            i <= pile@.len() <= entry,
            pile@ == column_pile(g, c as int, entry as nat),
            forall|q: int, x: int|
                0 <= q < g.len() && 0 <= x < board.width ==> #[trigger] board@[q][x] == (if x == c && q < entry {
                    if entry - 1 - q < i {
                        pile@[entry - 1 - q]
                    } else {
                        Cell::Empty
                    }
                } else {
                    g[q][x]
                }),
        decreases pile@.len() - i,
    {
        let row: usize = entry - 1 - i;
        assert(board@[row as int].len() == board.width);
        board.set(row, c, pile[i]);
        i = i + 1;
    }
}

/// Clears away the blocks above `row`, and stacks the capsules and items that
/// lie above the screen just off it. Returns the blocks that are gone.
pub fn clear_above(board: &mut Board, row: usize) -> (gone: Vec<(Pos, Cell)>)
    requires
        old(board).wf(),
        row < old(board)@.len(),
    ensures
        final(board).wf(),
        final(board).width == old(board).width,
        final(board)@.len() == old(board)@.len(),
        final(board)@ == cleared_above(old(board)@, row),
        gone@ == haul(old(board)@, Sweep::BlocksAbove { row }),
{
    let gone: Vec<(Pos, Cell)> = sweep(board, Sweep::BlocksAbove { row });
    let ghost g = board@;
    let entry: usize = if row > PLAYER_SCREEN_ROWS_ABOVE { row - PLAYER_SCREEN_ROWS_ABOVE } else { 0 };
    let w: usize = board.width();
    let mut c: usize = 0;
    while c < w
        invariant
            board.wf(),
            board.width == old(board).width,
            w == board.width,
            rectangular(g, w as nat),
            board@.len() == g.len(),
            entry <= g.len(),
            c <= w,
            forall|r: int, x: int|
                0 <= r < g.len() && 0 <= x < w ==> #[trigger] board@[r][x] == (if x < c {
                    stacked_cell(g, entry as int, r, x)
                } else {
                    g[r][x]
                }),
        decreases w - c,
    {
        let ghost before = board@;
        proof {
            lemma_same_pile(g, before, c as int, entry as nat);
        }
        stack_column(board, entry, c);
        proof {
            assert forall|r: int, x: int| 0 <= r < g.len() && 0 <= x < w implies #[trigger] board@[r][x] == (
            if x < c + 1 {
                stacked_cell(g, entry as int, r, x)
            } else {
                g[r][x]
            }) by {
                assert(before[r][x] == (if x < c {
                    stacked_cell(g, entry as int, r, x)
                } else {
                    g[r][x]
                }));
            }
        }
        c = c + 1;
    }
    assert(board@ =~= stacked(g, entry as int)) by {
        assert forall|r: int| 0 <= r < g.len() implies board@[r] =~= stacked(g, entry as int)[r] by {
            assert(board@[r].len() == w);
            assert(g[r].len() == w);
        }
    }
    gone
}

/// A pile depends only on its column.
proof fn lemma_same_pile(a: Grid, b: Grid, c: int, n: nat)
    requires
        forall|r: int| 0 <= r < n ==> #[trigger] a[r][c] == b[r][c],
    ensures
        column_pile(a, c, n) == column_pile(b, c, n),
    decreases n,
{
    if n > 0 {
        lemma_same_pile(a, b, c, (n - 1) as nat);
        assert(a[n - 1][c] == b[n - 1][c]);
    }
}

/// The first `c` cells of a row after each of its colour blocks has taken one
/// of two colours by the toss of a coin, and the generator after the tosses.
pub open spec fn painted_row(
    row: Seq<Cell>,
    dice: Dice,
    first: ColorKind,
    second: ColorKind,
    c: nat,
) -> (Seq<Cell>, Dice)
    decreases c,
{
    if c == 0 {
        (Seq::empty(), dice)
    } else {
        let (rest, d) = painted_row(row, dice, first, second, (c - 1) as nat);
        if row[c - 1] is Color {
            (
                rest.push(Cell::Color(if d.toss_of() { first } else { second })),
                d.after_toss(),
            )
        } else {
            (rest.push(row[c - 1]), d)
        }
    }
}

/// The field after the rows from `from` to before `to` are painted in two
/// colours, and the generator after that.
pub open spec fn painted(
    g: Grid,
    dice: Dice,
    first: ColorKind,
    second: ColorKind,
    from: int,
    to: int,
) -> (Grid, Dice)
    decreases to - from,
{
    if to <= from {
        (g, dice)
    } else {
        let (rest, d) = painted(g, dice, first, second, from, to - 1);
        let (row, e) = painted_row(rest[to - 1], d, first, second, rest[to - 1].len());
        (rest.update(to - 1, row), e)
    }
}

/// A painted row is as long as it was.
proof fn lemma_painted_row(row: Seq<Cell>, dice: Dice, first: ColorKind, second: ColorKind, c: nat)
    ensures
        painted_row(row, dice, first, second, c).0.len() == c,
    decreases c,
{
    if c > 0 {
        lemma_painted_row(row, dice, first, second, (c - 1) as nat);
    }
}

/// Paints the colour blocks of the rows from `from` to before `to` in two
/// colours by tosses of a coin.
pub fn paint_rows(
    board: &mut Board,
    dice: &mut Dice,
    first: ColorKind,
    second: ColorKind,
    from: usize,
    to: usize,
)
    requires
        old(board).wf(),
        from <= to <= old(board)@.len(),
    ensures
        final(board).wf(),
        final(board).width == old(board).width,
        final(board)@.len() == old(board)@.len(),
        (final(board)@, *final(dice)) == painted(
            old(board)@,
            *old(dice),
            first,
            second,
            from as int,
            to as int,
        ),
{
    let ghost g = board@;
    let ghost d0 = *dice;
    let w: usize = board.width();
    let mut r: usize = from;
    while r < to
        invariant
            board.wf(),
            board.width == old(board).width,
            w == board.width,
            board@.len() == g.len(),
            from <= r <= to <= g.len(),
            (board@, *dice) == painted(g, d0, first, second, from as int, r as int),
        decreases to - r,
    {
        let ghost before = board@;
        let ghost d = *dice;
        let ghost row = before[r as int];
        assert(row.len() == w);
        let mut c: usize = 0;
        while c < w
            invariant
                board.wf(),
                board.width == old(board).width,
                w == board.width,
                board@.len() == before.len(),
                r < before.len(),
                rectangular(before, w as nat),
                row == before[r as int],
                c <= w,
                *dice == painted_row(row, d, first, second, c as nat).1,
                forall|i: int| 0 <= i < before.len() && i != r ==> #[trigger] board@[i] == before[i],
                forall|x: int|
                    0 <= x < w ==> #[trigger] board@[r as int][x] == (if x < c {
                        painted_row(row, d, first, second, c as nat).0[x]
                    } else {
                        row[x]
                    }),
            decreases w - c,
        {
            proof {
                lemma_painted_row(row, d, first, second, c as nat);
            }
            assert(board@[r as int].len() == w);
            assert(board@[r as int][c as int] == row[c as int]);
            if let Cell::Color(_) = board.cell(r, c) {
                let chosen: ColorKind = if dice.toss() { first } else { second };
                board.set(r, c, Cell::Color(chosen));
            }
            c = c + 1;
        }
        proof {
            lemma_painted_row(row, d, first, second, w as nat);
            let done = painted_row(row, d, first, second, w as nat).0;
            assert(board@[r as int].len() == w);
            assert(board@[r as int] =~= done);
            assert(board@ =~= before.update(r as int, done));
        }
        r = r + 1;
    }
}

/// The field after the rocks and diamonds of the rows from `low` to before
/// `to` that do not shake have become stars.
pub open spec fn starified(g: Grid, gravity: Loose, low: int, to: int) -> Grid {
    Seq::new(
        g.len(),
        |r: int|
            Seq::new(
                g[r].len(),
                |c: int|
                    if low <= r < to && (g[r][c] is Rock || g[r][c] is Diamond) && !shaking(gravity, (r, c)) {
                        Cell::Star { visible_ms: 0 }
                    } else {
                        g[r][c]
                    },
            ),
    )
}

/// Turns the rocks and diamonds of the rows from `low` to before `to` that do
/// not shake into stars.
pub fn starify_rows(board: &mut Board, gravity: &GravityState, low: usize, to: usize)
    requires
        old(board).wf(),
        gravity.wf(),
        low <= to <= old(board)@.len(),
    ensures
        final(board).wf(),
        final(board).width == old(board).width,
        final(board)@.len() == old(board)@.len(),
        final(board)@ == starified(old(board)@, gravity@, low as int, to as int),
{
    let ghost g = board@;
    let w: usize = board.width();
    let mut r: usize = low;
    while r < to
        invariant
            board.wf(),
            board.width == old(board).width,
            gravity.wf(),
            w == board.width,
            rectangular(g, w as nat),
            board@.len() == g.len(),
            low <= r <= to <= g.len(),
            forall|i: int, x: int|
                0 <= i < g.len() && 0 <= x < w ==> #[trigger] board@[i][x] == (if i < r {
                    starified(g, gravity@, low as int, to as int)[i][x]
                } else {
                    g[i][x]
                }),
        decreases to - r,
    {
        let mut c: usize = 0;
        while c < w
            invariant
                board.wf(),
                board.width == old(board).width,
                gravity.wf(),
                w == board.width,
                rectangular(g, w as nat),
                board@.len() == g.len(),
                low <= r < to <= g.len(),
                c <= w,
                forall|i: int, x: int|
                    0 <= i < g.len() && 0 <= x < w ==> #[trigger] board@[i][x] == (if i < r || i == r && x < c {
                        starified(g, gravity@, low as int, to as int)[i][x]
                    } else {
                        g[i][x]
                    }),
            decreases w - c,
        {
            assert(board@[r as int].len() == w);
            assert(g[r as int].len() == w);
            let cell: Cell = board.cell(r, c);
            assert(cell == g[r as int][c as int]);
            if matches!(cell, Cell::Rock { .. } | Cell::Diamond) && !gravity.is_shaking((r, c)) {
                board.set(r, c, Cell::Star { visible_ms: 0 });
            }
            c = c + 1;
        }
        r = r + 1;
    }
    assert(board@ =~= starified(g, gravity@, low as int, to as int)) by {
        assert forall|i: int| 0 <= i < g.len() implies board@[i] =~= starified(
            g,
            gravity@,
            low as int,
            to as int,
        )[i] by {
            assert(board@[i].len() == w);
            assert(g[i].len() == w);
        }
    }
}

/// The field after the rows from `from` to before `to` are emptied.
pub open spec fn emptied_rows(g: Grid, from: int, to: int) -> Grid {
    Seq::new(
        g.len(),
        |r: int| Seq::new(g[r].len(), |c: int| if from <= r < to { Cell::Empty } else { g[r][c] }),
    )
}

/// Empties the rows from `from` to before `to`.
pub fn empty_rows(board: &mut Board, from: usize, to: usize)
    requires
        old(board).wf(),
        from <= to <= old(board)@.len(),
    ensures
        final(board).wf(),
        final(board).width == old(board).width,
        final(board)@.len() == old(board)@.len(),
        final(board)@ == emptied_rows(old(board)@, from as int, to as int),
{
    let ghost g = board@;
    let w: usize = board.width();
    let mut r: usize = from;
    while r < to
        invariant
            board.wf(),
            board.width == old(board).width,
            w == board.width,
            rectangular(g, w as nat),
            board@.len() == g.len(),
            from <= r <= to <= g.len(),
            forall|i: int, x: int|
                0 <= i < g.len() && 0 <= x < w ==> #[trigger] board@[i][x] == (if from <= i < r {
                    Cell::Empty
                } else {
                    g[i][x]
                }),
        decreases to - r,
    {
        let mut c: usize = 0;
        while c < w
            invariant
                board.wf(),
                board.width == old(board).width,
                w == board.width,
                rectangular(g, w as nat),
                board@.len() == g.len(),
                from <= r < to <= g.len(),
                c <= w,
                forall|i: int, x: int|
                    0 <= i < g.len() && 0 <= x < w ==> #[trigger] board@[i][x] == (if from <= i < r || i == r && x
                        < c {
                        Cell::Empty
                    } else {
                        g[i][x]
                    }),
            decreases w - c,
        {
            assert(board@[r as int].len() == w);
            board.set(r, c, Cell::Empty);
            c = c + 1;
        }
        r = r + 1;
    }
    assert(board@ =~= emptied_rows(g, from as int, to as int)) by {
        assert forall|i: int| 0 <= i < g.len() implies board@[i] =~= emptied_rows(g, from as int, to as int)[i] by {
            assert(board@[i].len() == w);
            assert(g[i].len() == w);
        }
    }
}

/// The deepest empty cell of column `c` above row `r`.
pub open spec fn free_above(g: Grid, c: int, r: int) -> Option<int>
    decreases r,
{
    if r <= 0 {
        None
    } else if g[r - 1][c] is Empty {
        Some(r - 1)
    } else {
        free_above(g, c, r - 1)
    }
}

/// The field once the block at a cell is pushed up into the next free cell of
/// its column, or is gone if there is none.
pub open spec fn pushed_up(g: Grid, r: int, c: int) -> Grid {
    if g[r][c] is Empty {
        g
    } else {
        match free_above(g, c, r) {
            Some(t) => with_cell(with_cell(g, r, c, Cell::Empty), t, c, g[r][c]),
            None => with_cell(g, r, c, Cell::Empty),
        }
    }
}

/// Pushes the block at a cell up into the next free cell of its column. If
/// there is none, the block is gone.
pub fn push_up(board: &mut Board, r: usize, c: usize)
    requires
        old(board).wf(),
        r < old(board)@.len(),
        c < old(board).width,
    ensures
        final(board).wf(),
        final(board).width == old(board).width,
        final(board)@.len() == old(board)@.len(),
        final(board)@ == pushed_up(old(board)@, r as int, c as int),
{
    let ghost g = board@;
    let cell: Cell = board.cell(r, c);
    if matches!(cell, Cell::Empty) {
        return;
    }
    let mut t: usize = r;
    let mut found: bool = false;
    while t > 0 && !found
        invariant
            board.wf(),
            board@ == g,
            r < g.len(),
            c < board.width,
            t <= r,
            !found ==> free_above(g, c as int, r as int) == free_above(g, c as int, t as int),
            found ==> free_above(g, c as int, r as int) == Some(t as int),
            found ==> t < r,
        decreases t,
    {
        t = t - 1;
        if matches!(board.cell(t, c), Cell::Empty) {
            found = true;
        }
    }
    board.set(r, c, Cell::Empty);
    if found {
        board.set(t, c, cell);
    }
}

/// A star that has been in view for so much longer.
pub open spec fn older(visible_ms: u32, delta_ms: u32) -> u32 {
    least(visible_ms + delta_ms, u32::MAX as int) as u32
}

/// The field after the stars of the rows from `low` to before `to` have been
/// in view for so much longer.
pub open spec fn aged_stars(g: Grid, low: int, to: int, delta_ms: u32) -> Grid {
    Seq::new(
        g.len(),
        |r: int|
            Seq::new(
                g[r].len(),
                |c: int|
                    match g[r][c] {
                        Cell::Star { visible_ms } if low <= r < to => Cell::Star {
                            visible_ms: older(visible_ms, delta_ms),
                        },
                        cell => cell,
                    },
            ),
    )
}

fn age_stars(board: &mut Board, low: usize, to: usize, delta_ms: u32)
    requires
        old(board).wf(),
        low <= to <= old(board)@.len(),
    ensures
        final(board).wf(),
        final(board).width == old(board).width,
        final(board)@.len() == old(board)@.len(),
        final(board)@ == aged_stars(old(board)@, low as int, to as int, delta_ms),
{
    let ghost g = board@;
    let w: usize = board.width();
    let mut r: usize = low;
    while r < to
        invariant
            board.wf(),
            board.width == old(board).width,
            w == board.width,
            rectangular(g, w as nat),
            board@.len() == g.len(),
            low <= r <= to <= g.len(),
            forall|i: int, x: int|
                0 <= i < g.len() && 0 <= x < w ==> #[trigger] board@[i][x] == (if i < r {
                    aged_stars(g, low as int, to as int, delta_ms)[i][x]
                } else {
                    g[i][x]
                }),
        decreases to - r,
    {
        let mut c: usize = 0;
        while c < w
            invariant
                board.wf(),
                board.width == old(board).width,
                w == board.width,
                rectangular(g, w as nat),
                board@.len() == g.len(),
                low <= r < to <= g.len(),
                c <= w,
                forall|i: int, x: int|
                    0 <= i < g.len() && 0 <= x < w ==> #[trigger] board@[i][x] == (if i < r || i == r && x < c {
                        aged_stars(g, low as int, to as int, delta_ms)[i][x]
                    } else {
                        g[i][x]
                    }),
            decreases w - c,
        {
            assert(board@[r as int].len() == w);
            assert(g[r as int].len() == w);
            assert(board@[r as int][c as int] == g[r as int][c as int]);
            if let Cell::Star { visible_ms } = board.cell(r, c) {
                let longer: u32 = if visible_ms > u32::MAX - delta_ms {
                    u32::MAX
                } else {
                    visible_ms + delta_ms
                };
                board.set(r, c, Cell::Star { visible_ms: longer });
            }
            c = c + 1;
        }
        r = r + 1;
    }
    assert(board@ =~= aged_stars(g, low as int, to as int, delta_ms)) by {
        assert forall|i: int| 0 <= i < g.len() implies board@[i] =~= aged_stars(
            g,
            low as int,
            to as int,
            delta_ms,
        )[i] by {
            assert(board@[i].len() == w);
            assert(g[i].len() == w);
        }
    }
}

/// The stars that melt when a player in `row` looks on for so long.
pub open spec fn ripe_stars(g: Grid, row: int) -> Sweep {
    Sweep::RipeStars {
        low: stretch_from(row, STAR_VISIBLE_RANGE_ROWS as int) as usize,
        to: stretch_to(row, STAR_VISIBLE_RANGE_ROWS as int, g.len() as int) as usize,
    }
}

/// The field with the stars in view of a player in `row` aged.
pub open spec fn stars_watched(g: Grid, row: int, delta_ms: u32) -> Grid {
    aged_stars(
        g,
        stretch_from(row, STAR_VISIBLE_RANGE_ROWS as int),
        stretch_to(row, STAR_VISIBLE_RANGE_ROWS as int, g.len() as int),
        delta_ms,
    )
}

/// Lets the stars in view age, and melts those that have been in view for too
/// long. Returns the stars that melted.
pub fn tick_star_melting(board: &mut Board, player_row: usize, delta_ms: u32) -> (melted: Vec<(Pos, Cell)>)
    requires
        old(board).wf(),
        player_row < old(board)@.len(),
    ensures
        final(board).wf(),
        final(board).width == old(board).width,
        final(board)@.len() == old(board)@.len(),
        ({
            let g = stars_watched(old(board)@, player_row as int, delta_ms);
            &&& final(board)@ == cleared(g, swept(g, ripe_stars(g, player_row as int)))
            &&& melted@ == haul(g, ripe_stars(g, player_row as int))
        }),
{
    let n: usize = board.depth_rows();
    let (low, to): (usize, usize) = stretch(player_row, STAR_VISIBLE_RANGE_ROWS, n);
    age_stars(board, low, to, delta_ms);
    sweep(board, Sweep::RipeStars { low, to })
}

} // verus!
