//! What chance decides, told from the outside: how often each kind of block is
//! drawn, which bytes a block is drawn from, and how colours are tossed for.
use vstd::prelude::*;

use crate::board::{nth_color, rectangular, Cell, ColorKind, Grid, ItemEffect};
use crate::dice::Dice;
use crate::effects::{painted, painted_row};
use crate::flood::{at, on_grid, Spot};
use crate::game::{GameStatus, Tale, World};
use crate::gravity::Loose;
use crate::journey::bonus_rates;
use crate::mishaps::item_used;
use crate::player_laws::trembles;
use crate::terrain::{
    block_for, drawn_block, first_rows, lemma_first_rows, lemma_redrawn, redrawn, usual_rates, SpawnRates,
};

verus! {

/// The bytes of a row have been drawn `n` times.
pub open spec fn drawn_on(dice: Dice, n: nat, len: usize) -> Dice
    decreases n,
{
    if n == 0 {
        dice
    } else {
        drawn_on(dice, (n - 1) as nat, len).after_bytes(len)
    }
}

/// Out of 65536 rolls at the usual rates, 5200 are a rock, 1200 air, 600 a star
/// and 600 a diamond, and 250 each kind of item; all others are a colour.
pub proof fn law_how_often_blocks_are_drawn(b0: u8, b1: u8, b2: u8, b3: u8, neighbour: u8, rates: SpawnRates)
    requires
        rates.rock == 100,
        rates.air == 100,
        rates.star == 100,
        rates.diamond == 100,
        rates.item_clear_above == 100,
        rates.item_unify_colors == 100,
        rates.item_starify_screen == 100,
    ensures
        ({
            let roll = 256 * b0 + b3;
            let cell = block_for(b0, b1, b2, b3, neighbour, rates);
            &&& cell is Rock <==> roll < 5200
            &&& cell is Oxygen <==> 5200 <= roll < 6400
            &&& cell is Star <==> 6400 <= roll < 7000
            &&& cell is Diamond <==> 7000 <= roll < 7600
            &&& cell == Cell::Item(ItemEffect::ClearAbove) <==> 7600 <= roll < 7850
            &&& cell == Cell::Item(ItemEffect::UnifyColors) <==> 7850 <= roll < 8100
            &&& cell == Cell::Item(ItemEffect::StarifyScreen) <==> 8100 <= roll < 8350
            &&& cell is Color <==> roll >= 8350
        }),
{
}

/// A rate scales the chance of what it is for, and shifts that of the rest.
pub proof fn law_rates_scale_chances(b0: u8, b1: u8, b2: u8, b3: u8, neighbour: u8, rates: SpawnRates)
    ensures
        ({
            let roll = 256 * b0 + b3;
            let cell = block_for(b0, b1, b2, b3, neighbour, rates);
            let rock = 5200 * rates.rock / 100;
            let air = 1200 * rates.air / 100;
            let star = 600 * rates.star / 100;
            let diamond = 600 * rates.diamond / 100;
            &&& cell is Rock <==> roll < rock
            &&& cell is Oxygen <==> rock <= roll < rock + air
            &&& cell is Star <==> rock + air <= roll < rock + air + star
            &&& cell is Diamond <==> rock + air + star <= roll < rock + air + star + diamond
        }),
{
}

/// A colour is one of as many as there are, up to four, in equal shares; it
/// follows the neighbour in 96 cases out of 256 at the usual rate.
pub proof fn law_colors_in_play(b0: u8, b1: u8, b2: u8, b3: u8, neighbour: u8, rates: SpawnRates)
    requires
        block_for(b0, b1, b2, b3, neighbour, rates) is Color,
    ensures
        ({
            let color = block_for(b0, b1, b2, b3, neighbour, rates)->Color_0;
            let byte = if b2 < 96 * rates.color_cluster / 100 { neighbour } else { b1 };
            &&& rates.color_count <= 1 ==> color == ColorKind::Red
            &&& rates.color_count == 2 ==> (color == ColorKind::Red <==> byte % 2 == 0) && (color
                == ColorKind::Blue <==> byte % 2 == 1)
            &&& rates.color_count == 3 ==> (color == ColorKind::Red <==> byte % 3 == 0) && (color
                == ColorKind::Blue <==> byte % 3 == 1) && (color == ColorKind::Green <==> byte % 3 == 2)
            &&& rates.color_count >= 4 ==> (color == ColorKind::Red <==> byte % 4 == 0) && (color
                == ColorKind::Blue <==> byte % 4 == 1) && (color == ColorKind::Green <==> byte % 4 == 2)
                && (color == ColorKind::Yellow <==> byte % 4 == 3)
        }),
{
}

/// The two columns of a pair follow the first of the two: if both blocks are
/// coloured and both follow their neighbour, they have the same colour, and so
/// do they if the first does not and both are tossed for with the same byte.
pub proof fn law_pairs_match(bytes: Seq<u8>, k: int, rates: SpawnRates)
    requires
        k >= 0,
        drawn_block(bytes, 2 * k, rates) is Color,
        drawn_block(bytes, 2 * k + 1, rates) is Color,
    ensures
        bytes[8 * k + 6] < 96 * rates.color_cluster / 100 ==> drawn_block(bytes, 2 * k, rates) == drawn_block(
            bytes,
            2 * k + 1,
            rates,
        ),
        bytes[8 * k + 6] >= 96 * rates.color_cluster / 100 && bytes[8 * k + 1] == bytes[8 * k + 5]
            ==> drawn_block(bytes, 2 * k, rates) == drawn_block(bytes, 2 * k + 1, rates),
{
    assert((2 * k) % 2 == 0 && (2 * k + 1) % 2 == 1);
}

/// Each row of a new field is drawn from bytes of its own, four to a column,
/// one row after the other; but for the surface, for which they are drawn all
/// the same.
pub proof fn law_new_rows_have_their_own_bytes(dice: Dice, n: nat, width: usize, r: int, c: int)
    requires
        0 <= r < n,
        0 <= c < width,
        4 * width <= usize::MAX,
    ensures
        first_rows(dice, n, width).1 == drawn_on(dice, n, (4 * width) as usize),
        r >= 2 ==> first_rows(dice, n, width).0[r][c] == drawn_block(
            drawn_on(dice, r as nat, (4 * width) as usize).bytes_of((4 * width) as usize),
            c,
            usual_rates(),
        ),
    decreases n,
{
    let m = (n - 1) as nat;
    lemma_first_rows(dice, m, width);
    lemma_first_dice(dice, m, width);
    if r < m {
        law_new_rows_have_their_own_bytes(dice, m, width, r, c);
    }
}

proof fn lemma_first_dice(dice: Dice, n: nat, width: usize)
    requires
        4 * width <= usize::MAX,
    ensures
        first_rows(dice, n, width).1 == drawn_on(dice, n, (4 * width) as usize),
    decreases n,
{
    if n > 0 {
        lemma_first_dice(dice, (n - 1) as nat, width);
    }
}

/// Each row that is drawn anew is drawn from bytes of its own, one row after the
/// other. What is neither empty nor shakes becomes what they stand for.
pub proof fn law_redrawn_rows_have_their_own_bytes(
    g: Grid,
    dice: Dice,
    gravity: Loose,
    width: usize,
    from: int,
    to: int,
    rates: SpawnRates,
    p: Spot,
)
    requires
        rectangular(g, width as nat),
        4 * width <= usize::MAX,
        0 <= from <= p.0 < to <= g.len(),
        on_grid(g, p),
        !(at(g, p) is Empty),
        !trembles(gravity, p),
    ensures
        redrawn(g, dice, gravity, width, from, to, rates).1 == drawn_on(
            dice,
            (to - from) as nat,
            (4 * width) as usize,
        ),
        at(redrawn(g, dice, gravity, width, from, to, rates).0, p) == drawn_block(
            drawn_on(dice, (p.0 - from) as nat, (4 * width) as usize).bytes_of((4 * width) as usize),
            p.1,
            rates,
        ),
    decreases to - from,
{
    lemma_redrawn(g, dice, gravity, width, from, to - 1, rates);
    lemma_redrawn_dice(g, dice, gravity, width, from, to - 1, rates);
    let rest = redrawn(g, dice, gravity, width, from, to - 1, rates).0;
    assert(rest[p.0].len() == width);
    if p.0 < to - 1 {
        law_redrawn_rows_have_their_own_bytes(g, dice, gravity, width, from, to - 1, rates, p);
    } else {
        assert(rest[p.0] == g[p.0]);
    }
}

/// The five rows of the ground of the bonus floor, and only those, are drawn
/// anew when its checkpoint opens the way; the five rows below them are empty.
pub proof fn law_the_bonus_floor_is_drawn_anew(w: World, m: int, p: Spot)
    requires
        rectangular(w.grid, w.width as nat),
        4 * w.width <= usize::MAX,
        m >= 0,
        on_grid(w.grid, p),
    ensures
        ({
            let a = w.gap_opened(m);
            &&& m + 5 <= p.0 < m + 10 ==> at(a.grid, p) is Empty
            &&& p.0 < m || p.0 >= m + 10 ==> at(a.grid, p) == at(w.grid, p)
            &&& m != 500 && m <= p.0 < m + 5 ==> at(a.grid, p) == at(w.grid, p)
            &&& m == 500 && 500 <= p.0 < 505 && !(at(w.grid, p) is Empty) && !trembles(w.gravity, p) ==> at(a.grid, p)
                == drawn_block(
                drawn_on(w.core.rng, (p.0 - 500) as nat, (4 * w.width) as usize).bytes_of((4 * w.width) as usize),
                p.1,
                bonus_rates(),
            )
            &&& a.player == w.player && a.bombs == w.bombs && a.status == w.status
        }),
{
    let n = w.grid.len() as int;
    let to = if m + 5 <= n { m + 5 } else { n };
    lemma_redrawn(w.grid, w.core.rng, w.gravity, w.width, m, to, bonus_rates());
    if m <= p.0 < to && !(at(w.grid, p) is Empty) && !trembles(w.gravity, p) {
        law_redrawn_rows_have_their_own_bytes(
            w.grid,
            w.core.rng,
            w.gravity,
            w.width,
            m,
            to,
            bonus_rates(),
            p,
        );
    }
}

proof fn lemma_redrawn_dice(
    g: Grid,
    dice: Dice,
    gravity: Loose,
    width: usize,
    from: int,
    to: int,
    rates: SpawnRates,
)
    requires
        4 * width <= usize::MAX,
        0 <= from <= to <= g.len(),
    ensures
        redrawn(g, dice, gravity, width, from, to, rates).1 == drawn_on(
            dice,
            (to - from) as nat,
            (4 * width) as usize,
        ),
    decreases to - from,
{
    if from < to {
        lemma_redrawn_dice(g, dice, gravity, width, from, to - 1, rates);
    }
}

proof fn lemma_painted_so_far(row: Seq<Cell>, dice: Dice, first: ColorKind, second: ColorKind, c: int, n: nat)
    requires
        0 <= c < n,
    ensures
        painted_row(row, dice, first, second, n).0.len() == n,
        painted_row(row, dice, first, second, n).0[c] == painted_row(
            row,
            dice,
            first,
            second,
            (c + 1) as nat,
        ).0[c],
        painted_row(row, dice, first, second, (c + 1) as nat).0.len() == c + 1,
    decreases n,
{
    reveal_with_fuel(painted_row, 2);
    let m = (n - 1) as nat;
    if c < m {
        lemma_painted_so_far(row, dice, first, second, c, m);
    } else if m > 0 {
        lemma_painted_so_far(row, dice, first, second, m - 1, m);
    }
}

/// A coin is tossed for each colour block of a row that is painted, from the
/// left, and only for those: heads is the first colour, tails the second.
pub proof fn law_each_block_has_its_toss(row: Seq<Cell>, dice: Dice, first: ColorKind, second: ColorKind, c: int)
    requires
        0 <= c < row.len(),
    ensures
        ({
            let d = painted_row(row, dice, first, second, c as nat).1;
            let after = painted_row(row, dice, first, second, (c + 1) as nat).1;
            let cell = painted_row(row, dice, first, second, row.len()).0[c];
            &&& row[c] is Color && d.toss_of() ==> cell == Cell::Color(first)
            &&& row[c] is Color && !d.toss_of() ==> cell == Cell::Color(second)
            &&& row[c] is Color ==> after == d.after_toss()
            &&& !(row[c] is Color) ==> cell == row[c] && after == d
        }),
{
    lemma_painted_so_far(row, dice, first, second, c, row.len());
    lemma_painted_so_far(row, dice, first, second, c, (c + 1) as nat);
    if c > 0 {
        lemma_painted_so_far(row, dice, first, second, c - 1, c as nat);
    }
}

/// The item of colours paints the rows within twelve of the player in two
/// colours that are not the same.
pub proof fn law_two_colors_are_left(t: Tale, from: int, to: int)
    requires
        t.0.status == GameStatus::Playing,
        t.0.core.rng.below_of(4) < 4,
        t.0.core.rng.after_below(4).below_of(3) < 3,
        from == (if t.0.player.row > 12 { t.0.player.row - 12 } else { 0 }),
        to == (if t.0.player.row + 13 <= t.0.grid.len() { t.0.player.row + 13 } else { t.0.grid.len() as int }),
    ensures
        exists|first: ColorKind, second: ColorKind|
            first != second && item_used(t, ItemEffect::UnifyColors).0.grid == (#[trigger] painted(
                t.0.grid,
                t.0.core.rng.after_below(4).after_below(3),
                first,
                second,
                from,
                to,
            )).0,
{
    let d = t.0.core.rng;
    let a = d.below_of(4) as int;
    let b = (a + (1 + d.after_below(4).below_of(3))) % 4;
    let first = nth_color(a);
    let second = nth_color(b);
    assert(a != b && 0 <= b < 4);
    assert(first != second);
    assert(item_used(t, ItemEffect::UnifyColors).0.grid == painted(
        t.0.grid,
        d.after_below(4).after_below(3),
        first,
        second,
        from,
        to,
    ).0);
}

} // verus!
