//! Terrain: the field that a seed stands for, drawing stretches of it anew,
//! stocking it with items, and the melting of star blocks.
use vstd::prelude::*;

use crate::board::{nth_color, rectangular, with_cell, Board, Cell, ColorKind, Grid, ItemEffect};
use crate::constants::{least, ITEM_MAX_COUNT_ON_BOARD, SPAWN_RATE_PERCENT_DEFAULT, SURFACE_ROWS};
use crate::dice::Dice;
use crate::gravity::{shaking, GravityState, Loose};

verus! {

/// How often each kind of block comes up, in percent of the usual.
#[derive(Debug, Clone, Copy, PartialEq, Eq, Structural)]
pub struct SpawnRates {
    pub rock: u32,
    pub air: u32,
    pub star: u32,
    pub diamond: u32,
    pub item_clear_above: u32,
    pub item_unify_colors: u32,
    pub item_starify_screen: u32,
    /// How many colours there are.
    pub color_count: u8,
    /// How readily colour blocks take the colour of their neighbour.
    pub color_cluster: u32,
}

/// Chances out of 65536 at the usual rate.
pub const ROCK_CHANCE: u64 = 5200;

pub const AIR_CHANCE: u64 = 1200;

pub const STAR_CHANCE: u64 = 600;

pub const DIAMOND_CHANCE: u64 = 600;

pub const ITEM_CHANCE: u64 = 250;

/// Chance out of 256, at the usual rate, that a colour block takes the colour
/// of its neighbour.
pub const CLUSTER_CHANCE: u64 = 96;

/// Chance out of 256, at the usual rate, that a row is stocked with an item.
pub const STOCK_CHANCE: u64 = 24;

/// The rates that the field is first drawn with.
pub open spec fn usual_rates() -> SpawnRates {
    SpawnRates {
        rock: SPAWN_RATE_PERCENT_DEFAULT,
        air: SPAWN_RATE_PERCENT_DEFAULT,
        star: SPAWN_RATE_PERCENT_DEFAULT,
        diamond: SPAWN_RATE_PERCENT_DEFAULT,
        item_clear_above: 0,
        item_unify_colors: 0,
        item_starify_screen: 0,
        color_count: 4,
        color_cluster: SPAWN_RATE_PERCENT_DEFAULT,
    }
}

/// A chance at a rate.
pub open spec fn at_rate(chance: u64, percent: u32) -> int {
    chance as int * percent as int / 100
}

/// The colour that a byte picks out of the first `count`.
pub open spec fn color_for(byte: u8, count: u8) -> ColorKind {
    let n = if count == 0 { 1 } else if count > 4 { 4int } else { count as int };
    nth_color(byte as int % n)
}

/// The block that four bytes of chance stand for: two decide the kind, one the
/// colour, and one whether the colour follows that of the neighbour, whose
/// colour byte is `neighbour`.
pub open spec fn block_for(b0: u8, b1: u8, b2: u8, b3: u8, neighbour: u8, rates: SpawnRates) -> Cell {
    let roll = b0 * 256 + b3;
    let rock = at_rate(ROCK_CHANCE, rates.rock);
    let air = rock + at_rate(AIR_CHANCE, rates.air);
    let star = air + at_rate(STAR_CHANCE, rates.star);
    let diamond = star + at_rate(DIAMOND_CHANCE, rates.diamond);
    let clear = diamond + at_rate(ITEM_CHANCE, rates.item_clear_above);
    let unify = clear + at_rate(ITEM_CHANCE, rates.item_unify_colors);
    let starify = unify + at_rate(ITEM_CHANCE, rates.item_starify_screen);
    if roll < rock {
        Cell::Rock { hits: 0 }
    } else if roll < air {
        Cell::Oxygen
    } else if roll < star {
        Cell::Star { visible_ms: 0 }
    } else if roll < diamond {
        Cell::Diamond
    } else if roll < clear {
        Cell::Item(ItemEffect::ClearAbove)
    } else if roll < unify {
        Cell::Item(ItemEffect::UnifyColors)
    } else if roll < starify {
        Cell::Item(ItemEffect::StarifyScreen)
    } else if b2 < at_rate(CLUSTER_CHANCE, rates.color_cluster) {
        Cell::Color(color_for(neighbour, rates.color_count))
    } else {
        Cell::Color(color_for(b1, rates.color_count))
    }
}

/// The block for column `c` of a row that `bytes` stand for, four to a column.
/// The neighbour of a block is the other one of its pair of columns.
pub open spec fn drawn_block(bytes: Seq<u8>, c: int, rates: SpawnRates) -> Cell {
    let pair = c - c % 2;
    block_for(
        bytes[4 * c],
        bytes[4 * c + 1],
        bytes[4 * c + 2],
        bytes[4 * c + 3],
        bytes[4 * pair + 1],
        rates,
    )
}

/// The colour that a byte picks out of the first `count`.
fn pick_color(byte: u8, count: u8) -> (color: ColorKind)
    ensures
        color == color_for(byte, count),
{
    let n: u8 = if count == 0 { 1 } else if count > 4 { 4 } else { count };
    ColorKind::nth((byte % n) as usize)
}

/// A chance at a rate.
fn chance_at(chance: u64, percent: u32) -> (r: u64)
    requires
        chance <= 65536,
    ensures
        r == at_rate(chance, percent),
        r <= 65536 * 42949673,
{
    proof {
        assert(chance * percent <= 65536 * 4294967295) by (nonlinear_arith)
            requires
                chance <= 65536,
                percent <= 4294967295,
        ;
        assert(0 <= chance * percent) by (nonlinear_arith);
    }
    chance * percent as u64 / 100
}

/// Draws the block for one column out of the bytes of its row.
fn draw_block(bytes: &Vec<u8>, c: usize, rates: &SpawnRates) -> (cell: Cell)
    requires
        4 * c + 4 <= bytes@.len(),
    ensures
        cell == drawn_block(bytes@, c as int, *rates),
{
    let n: usize = bytes.len();
    assert(4 * c + 4 <= n);
    let pair: usize = c - c % 2;
    let b0: u8 = bytes[4 * c];
    let b1: u8 = bytes[4 * c + 1];
    let b2: u8 = bytes[4 * c + 2];
    let b3: u8 = bytes[4 * c + 3];
    let neighbour: u8 = bytes[4 * pair + 1];
    let roll: u64 = b0 as u64 * 256 + b3 as u64;
    let rock: u64 = chance_at(ROCK_CHANCE, rates.rock);
    let air: u64 = rock + chance_at(AIR_CHANCE, rates.air);
    let star: u64 = air + chance_at(STAR_CHANCE, rates.star);
    let diamond: u64 = star + chance_at(DIAMOND_CHANCE, rates.diamond);
    let clear: u64 = diamond + chance_at(ITEM_CHANCE, rates.item_clear_above);
    let unify: u64 = clear + chance_at(ITEM_CHANCE, rates.item_unify_colors);
    let starify: u64 = unify + chance_at(ITEM_CHANCE, rates.item_starify_screen);
    if roll < rock {
        Cell::Rock { hits: 0 }
    } else if roll < air {
        Cell::Oxygen
    } else if roll < star {
        Cell::Star { visible_ms: 0 }
    } else if roll < diamond {
        Cell::Diamond
    } else if roll < clear {
        Cell::Item(ItemEffect::ClearAbove)
    } else if roll < unify {
        Cell::Item(ItemEffect::UnifyColors)
    } else if roll < starify {
        Cell::Item(ItemEffect::StarifyScreen)
    } else if (b2 as u64) < chance_at(CLUSTER_CHANCE, rates.color_cluster) {
        Cell::Color(pick_color(neighbour, rates.color_count))
    } else {
        Cell::Color(pick_color(b1, rates.color_count))
    }
}

/// A row of the field as the bytes stand for it. The surface is empty.
pub open spec fn first_row(r: int, width: int, bytes: Seq<u8>) -> Seq<Cell> {
    Seq::new(
        width as nat,
        |c: int| if r < SURFACE_ROWS { Cell::Empty } else { drawn_block(bytes, c, usual_rates()) },
    )
}

/// The first `n` rows of the field, and the generator after drawing them.
pub open spec fn first_rows(dice: Dice, n: nat, width: usize) -> (Grid, Dice)
    decreases n,
{
    if n == 0 {
        (Seq::empty(), dice)
    } else {
        let (rows, d) = first_rows(dice, (n - 1) as nat, width);
        (
            rows.push(first_row(n - 1, width as int, d.bytes_of((4 * width) as usize))),
            d.after_bytes((4 * width) as usize),
        )
    }
}

/// The field that a seed stands for.
pub open spec fn field_of_seed(seed: u64, depth: nat, width: usize) -> Grid {
    first_rows(Dice::seeded(seed), depth, width).0
}

/// A field drawn from a seed has the size that was asked for, and its surface
/// is empty.
pub proof fn lemma_first_rows(dice: Dice, n: nat, width: usize)
    ensures
        first_rows(dice, n, width).0.len() == n,
        rectangular(first_rows(dice, n, width).0, width as nat),
        forall|r: int, c: int|
            0 <= r < n && r < SURFACE_ROWS && 0 <= c < width ==> #[trigger] first_rows(
                dice,
                n,
                width,
            ).0[r][c] == Cell::Empty,
    decreases n,
{
    if n > 0 {
        lemma_first_rows(dice, (n - 1) as nat, width);
    }
}

impl Board {
    /// Draws the field that a seed stands for.
    pub fn generate(seed: u64, depth: usize, width: usize) -> (board: Board)
        requires
            width <= usize::MAX / 4,
        ensures
            board.wf(),
            board.width == width,
            board@ == field_of_seed(seed, depth as nat, width),
    {
        let mut dice: Dice = Dice::new(seed);
        let rates: SpawnRates = SpawnRates {
            rock: SPAWN_RATE_PERCENT_DEFAULT,
            air: SPAWN_RATE_PERCENT_DEFAULT,
            star: SPAWN_RATE_PERCENT_DEFAULT,
            diamond: SPAWN_RATE_PERCENT_DEFAULT,
            item_clear_above: 0,
            item_unify_colors: 0,
            item_starify_screen: 0,
            color_count: 4,
            color_cluster: SPAWN_RATE_PERCENT_DEFAULT,
        };
        let mut rows: Vec<Vec<Cell>> = Vec::new();
        let mut r: usize = 0;
        while r < depth
            invariant
                width <= usize::MAX / 4,
                rates == usual_rates(),
                r <= depth,
                rows@.len() == r,
                forall|i: int|
                    0 <= i < r ==> (#[trigger] rows@[i])@ == first_rows(
                        Dice::seeded(seed),
                        r as nat,
                        width,
                    ).0[i],
                dice == first_rows(Dice::seeded(seed), r as nat, width).1,
            decreases depth - r,
        {
            let bytes: Vec<u8> = dice.bytes(4 * width);
            let mut row: Vec<Cell> = Vec::new();
            let mut c: usize = 0;
            while c < width
                invariant
                    width <= usize::MAX / 4,
                    rates == usual_rates(),
                    bytes@.len() == 4 * width,
                    c <= width,
                    row@.len() == c,
                    forall|x: int|
                        0 <= x < c ==> #[trigger] row@[x] == first_row(r as int, width as int, bytes@)[x],
                decreases width - c,
            {
                let cell: Cell = if r < SURFACE_ROWS {
                    Cell::Empty
                } else {
                    draw_block(&bytes, c, &rates)
                };
                row.push(cell);
                c = c + 1;
            }
            assert(row@ =~= first_row(r as int, width as int, bytes@));
            proof {
                lemma_first_rows(Dice::seeded(seed), r as nat, width);
            }
            rows.push(row);
            r = r + 1;
        }
        let board = Board { rows, width };
        proof {
            lemma_first_rows(Dice::seeded(seed), depth as nat, width);
            assert(board@ =~= field_of_seed(seed, depth as nat, width));
        }
        board
    }
}

/// A row with its blocks drawn anew. Empty cells stay empty, and blocks that
/// shake stay what they are.
pub open spec fn redrawn_row(row: Seq<Cell>, r: int, bytes: Seq<u8>, rates: SpawnRates, gravity: Loose) -> Seq<Cell> {
    Seq::new(
        row.len(),
        |c: int|
            if row[c] == Cell::Empty || shaking(gravity, (r, c)) {
                row[c]
            } else {
                drawn_block(bytes, c, rates)
            },
    )
}

/// The field with the rows from `from` to before `to` drawn anew, and the
/// generator after that.
pub open spec fn redrawn(
    g: Grid,
    dice: Dice,
    gravity: Loose,
    width: usize,
    from: int,
    to: int,
    rates: SpawnRates,
) -> (Grid, Dice)
    decreases to - from,
{
    if to <= from || from < 0 || to > g.len() {
        (g, dice)
    } else {
        let (rest, d) = redrawn(g, dice, gravity, width, from, to - 1, rates);
        let bytes = d.bytes_of((4 * width) as usize);
        (
            rest.update(to - 1, redrawn_row(rest[to - 1], to - 1, bytes, rates, gravity)),
            d.after_bytes((4 * width) as usize),
        )
    }
}

/// Drawing rows anew keeps the shape of the field and the other rows.
pub proof fn lemma_redrawn(
    g: Grid,
    dice: Dice,
    gravity: Loose,
    width: usize,
    from: int,
    to: int,
    rates: SpawnRates,
)
    requires
        rectangular(g, width as nat),
    ensures
        redrawn(g, dice, gravity, width, from, to, rates).0.len() == g.len(),
        rectangular(redrawn(g, dice, gravity, width, from, to, rates).0, width as nat),
        forall|r: int|
            0 <= r < g.len() && !(from <= r < to) ==> #[trigger] redrawn(
                g,
                dice,
                gravity,
                width,
                from,
                to,
                rates,
            ).0[r] == g[r],
    decreases to - from,
{
    if !(to <= from || from < 0 || to > g.len()) {
        lemma_redrawn(g, dice, gravity, width, from, to - 1, rates);
    }
}

impl Board {
    /// Draws the blocks of the rows from `from_row` to before `to_row` anew.
    /// Empty cells stay empty, and blocks that shake stay what they are.
    pub fn reroll_overlays_in_row_range(
        &mut self,
        dice: &mut Dice,
        from_row: usize,
        to_row: usize,
        rates: &SpawnRates,
        gravity: &GravityState,
    )
        requires
            old(self).wf(),
            gravity.wf(),
            old(self).width <= usize::MAX / 4,
            to_row <= old(self)@.len(),
        ensures
            final(self).wf(),
            final(self).width == old(self).width,
            (final(self)@, *final(dice)) == redrawn(
                old(self)@,
                *old(dice),
                gravity@,
                old(self).width,
                from_row as int,
                to_row as int,
                *rates,
            ),
    {
        let ghost g = self@;
        let ghost d0 = *dice;
        let w: usize = self.width;
        if from_row >= to_row {
            return;
        }
        let mut r: usize = from_row;
        while r < to_row
            invariant
                rectangular(g, w as nat),
                gravity.wf(),
                self.wf(),
                self.width == w,
                w == old(self).width,
                w <= usize::MAX / 4,
                from_row <= r <= to_row,
                to_row <= g.len(),
                self@.len() == g.len(),
                (self@, *dice) == redrawn(g, d0, gravity@, w, from_row as int, r as int, *rates),
            decreases to_row - r,
        {
            let bytes: Vec<u8> = dice.bytes(4 * w);
            let ghost before = self@;
            let mut c: usize = 0;
            while c < w
                invariant
                    gravity.wf(),
                    self.wf(),
                    self.width == w,
                    w <= usize::MAX / 4,
                    r < before.len(),
                    before.len() == g.len(),
                    rectangular(before, w as nat),
                    bytes@.len() == 4 * w,
                    c <= w,
                    self@.len() == before.len(),
                    forall|i: int| 0 <= i < before.len() && i != r ==> #[trigger] self@[i] == before[i],
                    forall|x: int|
                        0 <= x < w ==> #[trigger] self@[r as int][x] == (if x < c {
                            redrawn_row(before[r as int], r as int, bytes@, *rates, gravity@)[x]
                        } else {
                            before[r as int][x]
                        }),
                decreases w - c,
            {
                assert(before[r as int].len() == w);
                assert(self@[r as int][c as int] == before[r as int][c as int]);
                if self.cell(r, c) != Cell::Empty && !gravity.is_shaking((r, c)) {
                    let cell: Cell = draw_block(&bytes, c, rates);
                    self.set(r, c, cell);
                }
                c = c + 1;
            }
            proof {
                assert(before[r as int].len() == w);
                assert(self@[r as int].len() == w);
                let row = redrawn_row(before[r as int], r as int, bytes@, *rates, gravity@);
                assert(self@[r as int] =~= row);
                assert(self@ =~= before.update(r as int, row));
            }
            r = r + 1;
        }
    }

    /// Draws the blocks of all rows from `from_row` on anew.
    pub fn reroll_overlays_from_row(
        &mut self,
        dice: &mut Dice,
        from_row: usize,
        rates: &SpawnRates,
        gravity: &GravityState,
    )
        requires
            old(self).wf(),
            gravity.wf(),
            old(self).width <= usize::MAX / 4,
        ensures
            final(self).wf(),
            final(self).width == old(self).width,
            (final(self)@, *final(dice)) == redrawn(
                old(self)@,
                *old(dice),
                gravity@,
                old(self).width,
                from_row as int,
                old(self)@.len() as int,
                *rates,
            ),
    {
        let n: usize = self.depth_rows();
        self.reroll_overlays_in_row_range(dice, from_row, n, rates, gravity);
    }
}

/// How many items of a kind the first `c` cells of a row hold.
pub open spec fn items_in_row(row: Seq<Cell>, effect: ItemEffect, c: nat) -> nat
    decreases c,
{
    if c == 0 {
        0
    } else {
        items_in_row(row, effect, (c - 1) as nat) + (if row[c - 1] == Cell::Item(effect) {
            1nat
        } else {
            0nat
        })
    }
}

/// How many items of a kind the rows from `lo` to before `hi` hold.
pub open spec fn items_in_rows(g: Grid, effect: ItemEffect, lo: int, hi: int) -> nat
    decreases hi - lo,
{
    if hi <= lo {
        0
    } else {
        items_in_rows(g, effect, lo, hi - 1) + items_in_row(g[hi - 1], effect, g[hi - 1].len())
    }
}

/// The field after one chance to put an item of a kind into row `r`: if the
/// window from `lo` to before `hi` holds fewer than the most, the chance byte
/// is low enough and the column that the other byte picks holds a colour
/// block, that block becomes the item.
pub open spec fn stocked_once(
    g: Grid,
    r: int,
    effect: ItemEffect,
    percent: u32,
    chance: u8,
    column: u8,
    lo: int,
    hi: int,
) -> Grid {
    let c = column as int % g[r].len() as int;
    if items_in_rows(g, effect, lo, hi) < ITEM_MAX_COUNT_ON_BOARD && chance < at_rate(STOCK_CHANCE, percent)
        && g[r][c] is Color {
        with_cell(g, r, c, Cell::Item(effect))
    } else {
        g
    }
}

/// The field after one row is stocked, with each kind of item in turn.
pub open spec fn stocked_row(g: Grid, r: int, rates: (u32, u32, u32), bytes: Seq<u8>, lo: int, hi: int) -> Grid {
    let a = stocked_once(g, r, ItemEffect::ClearAbove, rates.0, bytes[0], bytes[1], lo, hi);
    let b = stocked_once(a, r, ItemEffect::UnifyColors, rates.1, bytes[2], bytes[3], lo, hi);
    stocked_once(b, r, ItemEffect::StarifyScreen, rates.2, bytes[4], bytes[5], lo, hi)
}

/// The field after the rows from `from` to before `r` are stocked, and the
/// generator after that. The window reaches from `lo` to before `hi`.
pub open spec fn stocked(
    g: Grid,
    dice: Dice,
    rates: (u32, u32, u32),
    lo: int,
    from: int,
    r: int,
    hi: int,
) -> (Grid, Dice)
    decreases r - from,
{
    if r <= from {
        (g, dice)
    } else {
        let (rest, d) = stocked(g, dice, rates, lo, from, r - 1, hi);
        (stocked_row(rest, r - 1, rates, d.bytes_of(8), lo, hi), d.after_bytes(8))
    }
}

/// Counts the items of a kind in a stretch of rows.
fn count_items(board: &Board, effect: ItemEffect, lo: usize, hi: usize) -> (count: usize)
    requires
        board.wf(),
        lo <= hi <= board@.len(),
    ensures
        count == least(
            items_in_rows(board@, effect, lo as int, hi as int) as int,
            ITEM_MAX_COUNT_ON_BOARD as int,
        ),
{
    let ghost g = board@;
    let mut count: usize = 0;
    let mut r: usize = lo;
    while r < hi
        invariant
            board.wf(),
            g == board@,
            lo <= r <= hi <= g.len(),
            count == least(
                items_in_rows(g, effect, lo as int, r as int) as int,
                ITEM_MAX_COUNT_ON_BOARD as int,
            ),
        decreases hi - r,
    {
        let w: usize = board.width();
        assert(g[r as int].len() == w);
        let mut c: usize = 0;
        while c < w
            invariant
                board.wf(),
                g == board@,
                r < g.len(),
                w == board.width,
                c <= w,
                count == least(
                    (items_in_rows(g, effect, lo as int, r as int) + items_in_row(
                        g[r as int],
                        effect,
                        c as nat,
                    )) as int,
                    ITEM_MAX_COUNT_ON_BOARD as int,
                ),
            decreases w - c,
        {
            if board.cell(r, c) == Cell::Item(effect) && count < ITEM_MAX_COUNT_ON_BOARD {
                count = count + 1;
            }
            c = c + 1;
        }
        r = r + 1;
    }
    count
}

impl Board {
    /// One chance to put an item of a kind into a row.
    fn stock_once(
        &mut self,
        r: usize,
        effect: ItemEffect,
        percent: u32,
        chance: u8,
        column: u8,
        lo: usize,
        hi: usize,
    )
        requires
            old(self).wf(),
            0 < old(self).width,
            r < old(self)@.len(),
            lo <= hi <= old(self)@.len(),
        ensures
            final(self).wf(),
            final(self).width == old(self).width,
            final(self)@.len() == old(self)@.len(),
            final(self)@ == stocked_once(
                old(self)@,
                r as int,
                effect,
                percent,
                chance,
                column,
                lo as int,
                hi as int,
            ),
    {
        assert(self@[r as int].len() == self.width);
        let c: usize = column as usize % self.width;
        if (chance as u64) < chance_at(STOCK_CHANCE, percent) {
            if count_items(self, effect, lo, hi) < ITEM_MAX_COUNT_ON_BOARD {
                if let Cell::Color(_) = self.cell(r, c) {
                    self.set(r, c, Cell::Item(effect));
                }
            }
        }
    }

    /// Stocks the rows from `from_row` to before `to_row` with items, as long
    /// as the rows from `window_from` to before `to_row` hold fewer than the
    /// most of a kind.
    pub fn top_up_items(
        &mut self,
        dice: &mut Dice,
        window_from: usize,
        from_row: usize,
        to_row: usize,
        clear_above_percent: u32,
        unify_colors_percent: u32,
        starify_screen_percent: u32,
    )
        requires
            old(self).wf(),
            0 < old(self).width,
            from_row <= to_row <= old(self)@.len(),
            window_from <= to_row,
        ensures
            final(self).wf(),
            final(self).width == old(self).width,
            final(self)@.len() == old(self)@.len(),
            (final(self)@, *final(dice)) == stocked(
                old(self)@,
                *old(dice),
                (clear_above_percent, unify_colors_percent, starify_screen_percent),
                window_from as int,
                from_row as int,
                to_row as int,
                to_row as int,
            ),
    {
        let ghost g = self@;
        let ghost d0 = *dice;
        let ghost rates = (clear_above_percent, unify_colors_percent, starify_screen_percent);
        let mut r: usize = from_row;
        while r < to_row
            invariant
                self.wf(),
                self.width == old(self).width,
                0 < self.width,
                self@.len() == g.len(),
                from_row <= r <= to_row <= g.len(),
                window_from <= to_row,
                rates == (clear_above_percent, unify_colors_percent, starify_screen_percent),
                (self@, *dice) == stocked(
                    g,
                    d0,
                    rates,
                    window_from as int,
                    from_row as int,
                    r as int,
                    to_row as int,
                ),
            decreases to_row - r,
        {
            let b: Vec<u8> = dice.bytes(8);
            self.stock_once(r, ItemEffect::ClearAbove, clear_above_percent, b[0], b[1], window_from, to_row);
            self.stock_once(r, ItemEffect::UnifyColors, unify_colors_percent, b[2], b[3], window_from, to_row);
            self.stock_once(r, ItemEffect::StarifyScreen, starify_screen_percent, b[4], b[5], window_from, to_row);
            r = r + 1;
        }
    }
}

} // verus!
