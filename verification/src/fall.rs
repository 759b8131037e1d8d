//! One tick of gravity.
use vstd::prelude::*;

use crate::board::{BlockMove, Board, Cell, Grid, ItemEffect, Pos};
use crate::constants::VANISH_GROUP_SIZE;
use crate::flood::{at, flood, flooded, on_grid, spot, spots, spread, Flood, Spot, Spread};
use crate::gravity::{distinct, waited, waits_of, GravityState, Loose, Wait};
use crate::groups::{above, below, cleared, connected_rock_group, connected_same_color, group_at, lemma_spots_len};
use crate::listing::{lemma_board_addressable, lemma_listing, list_table, listing, table_fits, table_set};

verus! {

/// What one tick of gravity did.
#[derive(Debug)]
pub struct GravityOutcome {
    /// The blocks that fell, each with where it is and where it was.
    pub moved_cells: Vec<BlockMove>,
    /// Colour blocks that vanished by themselves.
    pub auto_vanished_blocks: usize,
    /// Rock blocks that vanished by themselves.
    pub auto_vanished_rock_blocks: usize,
    /// A block fell onto the player.
    pub crushed: bool,
    /// Air capsules that fell onto the player.
    pub oxygen_collected: usize,
    /// Items that fell onto the player.
    pub items_collected: Vec<ItemEffect>,
    /// The cells whose blocks vanished, with what they held.
    pub vanished_cells: Vec<(Pos, Cell)>,
}

/// What a tick of gravity looks at besides the field.
pub struct Pull {
    pub player: Spot,
    /// The spots that are blocked by something that is no block.
    pub solid: Set<Spot>,
    /// How long each block has been without support.
    pub waits: Map<Spot, u16>,
    /// How long a block shakes before it falls.
    pub shake_ticks: u16,
}

/// There is a block.
pub open spec fn occupied(g: Grid, p: Spot) -> bool {
    on_grid(g, p) && at(g, p) != Cell::Empty
}

/// The blocks that lie on the deepest row or on something solid.
pub open spec fn grounded(g: Grid, solid: Set<Spot>) -> Set<Spot> {
    Set::new(|p: Spot| occupied(g, p) && (p.0 + 1 == g.len() || solid.contains(below(p))))
}

/// The blocks that stand: grounded ones, those that stick to a block that
/// stands, and those that rest on one. Nothing rests on the player's cell.
pub open spec fn standing(g: Grid, player: Spot, solid: Set<Spot>) -> Set<Spot> {
    flooded(g, Spread { upward: true, carries_nothing: player }, grounded(g, solid))
}

/// The blocks that do not fall of their own: they stand, or have not shaken
/// long enough.
pub open spec fn held_back(g: Grid, pull: Pull) -> Set<Spot> {
    Set::new(
        |p: Spot|
            occupied(g, p) && (standing(g, pull.player, pull.solid).contains(p) || waited(pull.waits, p)
                < pull.shake_ticks),
    )
}

/// The blocks that stay where they are: those held back, those that stick to
/// one that stays, and those on top of one that stays.
pub open spec fn staying(g: Grid, pull: Pull) -> Set<Spot> {
    flooded(g, Spread { upward: true, carries_nothing: (-1, -1) }, held_back(g, pull))
}

/// The blocks that fall one row.
pub open spec fn falling(g: Grid, pull: Pull) -> Set<Spot> {
    Set::new(|p: Spot| occupied(g, p) && !staying(g, pull).contains(p))
}

/// Something that the player takes when it falls on them.
pub open spec fn is_pickup(cell: Cell) -> bool {
    cell is Oxygen || cell is Item
}

/// What a cell holds once the blocks of `fall` are one row deeper.
pub open spec fn fallen_cell(g: Grid, fall: Set<Spot>, player: Spot, p: Spot) -> Cell {
    if fall.contains(above(p)) {
        if p == player && is_pickup(at(g, above(p))) {
            Cell::Empty
        } else {
            at(g, above(p))
        }
    } else if fall.contains(p) {
        Cell::Empty
    } else {
        at(g, p)
    }
}

/// The field once the blocks of `fall` are one row deeper.
pub open spec fn fallen(g: Grid, fall: Set<Spot>, player: Spot) -> Grid {
    Seq::new(g.len(), |r: int| Seq::new(g[r].len(), |c: int| fallen_cell(g, fall, player, (r, c))))
}

/// A block that has just moved to `m`, has come to rest, and is connected
/// with enough like blocks to vanish.
pub open spec fn sets_off(g: Grid, fall: Set<Spot>, landed: Set<Spot>, m: Spot) -> bool {
    &&& on_grid(g, m)
    &&& fall.contains(above(m))
    &&& at(g, m) is Color || at(g, m) is Rock
    &&& landed.contains(m)
    &&& group_at(g, m).len() >= VANISH_GROUP_SIZE
}

/// The blocks that vanish: the groups of the blocks that set them off.
pub open spec fn vanishing(g: Grid, fall: Set<Spot>, landed: Set<Spot>) -> Set<Spot> {
    Set::new(
        |p: Spot| exists|m: Spot| #[trigger] sets_off(g, fall, landed, m) && group_at(g, m).contains(p),
    )
}

/// The waits after a tick: of the blocks that have not come to rest, those
/// that moved or were already without support have waited one tick more.
pub open spec fn waits_after(
    g: Grid,
    pull: Pull,
    after: Grid,
    landed: Set<Spot>,
) -> Map<Spot, u16> {
    Map::new(
        |p: Spot|
            occupied(after, p) && !landed.contains(p) && (falling(g, pull).contains(above(p))
                || !standing(g, pull.player, pull.solid).contains(p)),
        |p: Spot|
            longer(
                waited(
                    pull.waits,
                    if falling(g, pull).contains(above(p)) {
                        above(p)
                    } else {
                        p
                    },
                ),
            ),
    )
}

/// One tick more.
pub open spec fn longer(ticks: u16) -> u16 {
    if ticks == u16::MAX {
        ticks
    } else {
        (ticks + 1) as u16
    }
}

/// The field after the blocks have fallen and before any vanish.
pub open spec fn field_fallen(g: Grid, pull: Pull) -> Grid {
    fallen(g, falling(g, pull), pull.player)
}

/// The blocks that stand after the fall.
pub open spec fn field_landed(g: Grid, pull: Pull) -> Set<Spot> {
    standing(field_fallen(g, pull), pull.player, pull.solid)
}

/// The blocks that vanish in the tick.
pub open spec fn field_vanishing(g: Grid, pull: Pull) -> Set<Spot> {
    vanishing(field_fallen(g, pull), falling(g, pull), field_landed(g, pull))
}

/// The field after the tick.
pub open spec fn field_after(g: Grid, pull: Pull) -> Grid {
    cleared(field_fallen(g, pull), field_vanishing(g, pull))
}

/// The cells that lose their blocks, with what they held.
pub open spec fn cells_vanished(g: Grid, pull: Pull) -> Seq<(Pos, Cell)> {
    listing(field_fallen(g, pull), field_vanishing(g, pull)).map_values(
        |p: Pos| (p, at(field_fallen(g, pull), spot(p))),
    )
}

/// The blocks that fall, each with where it is then and where it was.
pub open spec fn blocks_moved(g: Grid, pull: Pull) -> Seq<BlockMove> {
    listing(g, falling(g, pull)).map_values(|p: Pos| (((p.0 + 1) as usize, p.1), p))
}

/// How many of the cells held colour blocks.
pub open spec fn colors_among(cells: Seq<(Pos, Cell)>) -> nat
    decreases cells.len(),
{
    if cells.len() == 0 {
        0
    } else {
        colors_among(cells.drop_last()) + (if cells.last().1 is Color { 1nat } else { 0nat })
    }
}

/// How many of the cells held rocks.
pub open spec fn rocks_among(cells: Seq<(Pos, Cell)>) -> nat
    decreases cells.len(),
{
    if cells.len() == 0 {
        0
    } else {
        rocks_among(cells.drop_last()) + (if cells.last().1 is Rock { 1nat } else { 0nat })
    }
}

/// What falls onto the player, if anything does.
pub open spec fn onto_player(g: Grid, pull: Pull) -> Option<Cell> {
    if falling(g, pull).contains(above(pull.player)) && on_grid(g, pull.player) {
        Some(at(g, above(pull.player)))
    } else {
        None
    }
}

/// The outcome says what the tick did.
pub open spec fn tells(o: GravityOutcome, g: Grid, pull: Pull) -> bool {
    &&& o.moved_cells@ == blocks_moved(g, pull)
    &&& o.vanished_cells@ == cells_vanished(g, pull)
    &&& o.auto_vanished_blocks == colors_among(cells_vanished(g, pull))
    &&& o.auto_vanished_rock_blocks == rocks_among(cells_vanished(g, pull))
    &&& o.crushed == (onto_player(g, pull) matches Some(cell) && !is_pickup(cell))
    &&& o.oxygen_collected == (if onto_player(g, pull) == Some(Cell::Oxygen) { 1int } else { 0 })
    &&& o.items_collected@ == (match onto_player(g, pull) {
        Some(Cell::Item(effect)) => seq![effect],
        _ => Seq::empty(),
    })
}

/// Nothing falls off the field, into something solid, or onto a block that
/// stays.
pub proof fn lemma_room_to_fall(g: Grid, pull: Pull, p: Spot)
    requires
        falling(g, pull).contains(p),
    ensures
        p.0 + 1 < g.len(),
        !pull.solid.contains(below(p)),
        on_grid(g, below(p)) && at(g, below(p)) != Cell::Empty ==> falling(g, pull).contains(below(p)),
{
    let stand = Spread { upward: true, carries_nothing: pull.player };
    let stay = Spread { upward: true, carries_nothing: (-1int, -1int) };
    if p.0 + 1 == g.len() || pull.solid.contains(below(p)) {
        assert(grounded(g, pull.solid).contains(p));
        assert(flooded(g, stand, grounded(g, pull.solid)).contains(p));
        assert(held_back(g, pull).contains(p));
        assert(staying(g, pull).contains(p));
    }
    if on_grid(g, below(p)) && at(g, below(p)) != Cell::Empty && staying(g, pull).contains(below(p)) {
        assert(above(below(p)) == p);
        assert(crate::flood::leads(g, stay, below(p), p));
        assert(staying(g, pull).contains(p));
    }
}

/// The cells that a flood over the field has marked.
proof fn lemma_covered(f: Flood, g: Grid, how: Spread, base: Set<Spot>)
    requires
        f.covers(g, how, base),
    ensures
        table_fits(g, f.marks@),
        table_set(g, f.marks@) =~= flooded(g, how, base),
{
    assert forall|p: Spot| table_set(g, f.marks@).contains(p) <==> flooded(g, how, base).contains(p) by {
        if on_grid(g, p) {
            assert(f.marked(p) <==> flooded(g, how, base).contains(p));
        }
    }
}

/// Finds the blocks that stand.
fn find_standing(board: &Board, player_pos: Pos, solid: &[Pos]) -> (f: Flood)
    requires
        board.wf(),
    ensures
        f.covers(
            board@,
            Spread { upward: true, carries_nothing: spot(player_pos) },
            grounded(board@, spots(solid@)),
        ),
        table_fits(board@, f.marks@),
        table_set(board@, f.marks@) == standing(board@, spot(player_pos), spots(solid@)),
{
    let ghost g = board@;
    let n: usize = board.depth_rows();
    let mut base: Vec<Pos> = Vec::new();
    if n > 0 {
        let mut c: usize = 0;
        while c < board.width()
            invariant
                board.wf(),
                g == board@,
                n == g.len(),
                n > 0,
                c <= board.width,
                forall|k: int|
                    0 <= k < base@.len() ==> occupied(g, spot(#[trigger] base@[k])) && base@[k].0 + 1 == n,
                forall|x: int|
                    0 <= x < c && occupied(g, (n - 1, x)) ==> #[trigger] spots(base@).contains((n - 1, x)),
            decreases board.width - c,
        {
            let ghost before = base@;
            if board.cell(n - 1, c) != Cell::Empty {
                base.push((n - 1, c));
                proof {
                    assert forall|x: int| 0 <= x < c + 1 && occupied(g, (n - 1, x)) implies #[trigger] spots(
                        base@,
                    ).contains((n - 1, x)) by {
                        if x < c {
                            assert(spots(before).contains((n - 1, x)));
                            let k = choose|k: int|
                                0 <= k < before.len() && #[trigger] spot(before[k]) == (n - 1, x);
                            assert(spot(base@[k]) == (n - 1, x));
                        } else {
                            assert(spot(base@[base@.len() - 1]) == (n - 1, x));
                        }
                    }
                }
            }
            c = c + 1;
        }
    }
    let ghost bottom = base@;
    let mut i: usize = 0;
    while i < solid.len()
        invariant
            board.wf(),
            g == board@,
            n == g.len(),
            i <= solid@.len(),
            bottom.len() <= base@.len(),
            forall|k: int| 0 <= k < bottom.len() ==> base@[k] == bottom[k],
            forall|k: int|
                0 <= k < base@.len() ==> grounded(g, spots(solid@)).contains(spot(#[trigger] base@[k])),
            forall|k: int|
                0 <= k < i && occupied(g, above(spot(#[trigger] solid@[k]))) ==> spots(base@).contains(
                    above(spot(solid@[k])),
                ),
        decreases solid@.len() - i,
    {
        let s: Pos = solid[i];
        let ghost before = base@;
        if s.0 > 0 && s.0 <= n && s.1 < board.width() {
            if board.cell(s.0 - 1, s.1) != Cell::Empty {
                base.push((s.0 - 1, s.1));
                assert(below(spot((((s.0 - 1) as usize), s.1))) == spot(solid@[i as int]));
            }
        }
        proof {
            assert forall|k: int| 0 <= k < i + 1 && occupied(g, above(spot(#[trigger] solid@[k]))) implies spots(
                base@,
            ).contains(above(spot(solid@[k]))) by {
                let p = above(spot(solid@[k]));
                if k < i {
                    let j = choose|j: int| 0 <= j < before.len() && #[trigger] spot(before[j]) == p;
                    assert(spot(base@[j]) == p);
                } else {
                    assert(g[p.0].len() == board.width);
                    assert(spot(base@[base@.len() - 1]) == p);
                }
            }
        }
        i = i + 1;
    }
    proof {
        let want = grounded(g, spots(solid@));
        assert forall|p: Spot| spots(base@).contains(p) <==> want.contains(p) by {
            if spots(base@).contains(p) {
                let k = choose|k: int| 0 <= k < base@.len() && #[trigger] spot(base@[k]) == p;
                assert(want.contains(spot(base@[k])));
            }
            if want.contains(p) {
                if p.0 + 1 == n {
                    assert(g[p.0].len() == board.width);
                    assert(spots(bottom).contains((n - 1, p.1)));
                    let k = choose|k: int| 0 <= k < bottom.len() && #[trigger] spot(bottom[k]) == p;
                    assert(spot(base@[k]) == p);
                } else {
                    let k = choose|k: int|
                        0 <= k < solid@.len() && #[trigger] spot(solid@[k]) == below(p);
                    assert(above(spot(solid@[k])) == p);
                }
            }
        }
        assert(spots(base@) =~= want);
        assert forall|k: int| 0 <= k < base@.len() implies on_grid(g, spot(#[trigger] base@[k])) by {
            assert(want.contains(spot(base@[k])));
        }
    }
    let f: Flood = flood(board, true, Some(player_pos), &base);
    proof {
        lemma_covered(f, g, spread(true, Some(player_pos)), spots(base@));
    }
    f
}

/// Finds the blocks that stay where they are.
fn find_staying(board: &Board, stand: &Flood, gravity: &GravityState, Ghost(pull): Ghost<Pull>) -> (f: Flood)
    requires
        board.wf(),
        gravity.wf(),
        table_fits(board@, stand.marks@),
        table_set(board@, stand.marks@) == standing(board@, pull.player, pull.solid),
        pull.waits == gravity@.waits,
        pull.shake_ticks == gravity@.shake_ticks,
    ensures
        table_fits(board@, f.marks@),
        table_set(board@, f.marks@) == staying(board@, pull),
{
    let ghost g = board@;
    let ghost want = held_back(g, pull);
    let n: usize = board.depth_rows();
    let mut base: Vec<Pos> = Vec::new();
    let mut r: usize = 0;
    while r < n
        invariant
            board.wf(),
            gravity.wf(),
            g == board@,
            n == g.len(),
            r <= n,
            want == held_back(g, pull),
            table_fits(g, stand.marks@),
            table_set(g, stand.marks@) == standing(g, pull.player, pull.solid),
            pull.waits == gravity@.waits,
            pull.shake_ticks == gravity@.shake_ticks,
            forall|k: int| 0 <= k < base@.len() ==> want.contains(spot(#[trigger] base@[k])),
            forall|p: Spot| #[trigger] want.contains(p) && p.0 < r ==> spots(base@).contains(p),
        decreases n - r,
    {
        let w: usize = board.width();
        let mut c: usize = 0;
        assert(g[r as int].len() == w);
        assert(stand.marks@[r as int]@.len() == w);
        while c < w
            invariant
                board.wf(),
                gravity.wf(),
                g == board@,
                n == g.len(),
                r < n,
                w == board.width,
                c <= w,
                want == held_back(g, pull),
                table_fits(g, stand.marks@),
                stand.marks@[r as int]@.len() == w,
                table_set(g, stand.marks@) == standing(g, pull.player, pull.solid),
                pull.waits == gravity@.waits,
                pull.shake_ticks == gravity@.shake_ticks,
                forall|k: int| 0 <= k < base@.len() ==> want.contains(spot(#[trigger] base@[k])),
                forall|p: Spot|
                    #[trigger] want.contains(p) && (p.0 < r || p.0 == r && p.1 < c) ==> spots(
                        base@,
                    ).contains(p),
            decreases w - c,
        {
            let ghost before = base@;
            let ghost here = (r as int, c as int);
            assert(on_grid(g, here));
            assert(table_set(g, stand.marks@).contains(here) <==> stand.marks@[r as int]@[c as int]);
            if board.cell(r, c) != Cell::Empty {
                let stands: bool = stand.marks[r][c];
                let back: bool = if stands {
                    true
                } else {
                    match gravity.ticks_at((r, c)) {
                        Some(t) => t < gravity.shake_ticks,
                        None => 0 < gravity.shake_ticks,
                    }
                };
                assert(back == want.contains(here));
                if back {
                    base.push((r, c));
                }
            }
            proof {
                assert forall|p: Spot|
                    #[trigger] want.contains(p) && (p.0 < r || p.0 == r && p.1 < c + 1) implies spots(
                    base@,
                ).contains(p) by {
                    if p == here {
                        assert(spot(base@[base@.len() - 1]) == p);
                    } else {
                        assert(spots(before).contains(p));
                        let j = choose|j: int| 0 <= j < before.len() && #[trigger] spot(before[j]) == p;
                        assert(spot(base@[j]) == p);
                    }
                }
            }
            c = c + 1;
        }
        r = r + 1;
    }
    proof {
        assert(spots(base@) =~= want) by {
            assert forall|p: Spot| spots(base@).contains(p) <==> want.contains(p) by {
                if spots(base@).contains(p) {
                    let k = choose|k: int| 0 <= k < base@.len() && #[trigger] spot(base@[k]) == p;
                    assert(want.contains(spot(base@[k])));
                }
            }
        }
        assert forall|k: int| 0 <= k < base@.len() implies on_grid(g, spot(#[trigger] base@[k])) by {
            assert(want.contains(spot(base@[k])));
        }
    }
    let f: Flood = flood(board, true, None, &base);
    proof {
        lemma_covered(f, g, spread(true, None), spots(base@));
    }
    f
}

/// Marks the blocks that fall.
fn find_falling(board: &Board, stay: &Flood, Ghost(pull): Ghost<Pull>) -> (table: Vec<Vec<bool>>)
    requires
        board.wf(),
        table_fits(board@, stay.marks@),
        table_set(board@, stay.marks@) == staying(board@, pull),
    ensures
        table_fits(board@, table@),
        table_set(board@, table@) == falling(board@, pull),
{
    let ghost g = board@;
    let n: usize = board.depth_rows();
    let w: usize = board.width();
    let mut table: Vec<Vec<bool>> = Vec::new();
    let mut r: usize = 0;
    while r < n
        invariant
            board.wf(),
            g == board@,
            n == g.len(),
            w == board.width,
            r <= n,
            table_fits(g, stay.marks@),
            table_set(g, stay.marks@) == staying(g, pull),
            table@.len() == r,
            forall|i: int| 0 <= i < r ==> (#[trigger] table@[i])@.len() == w,
            forall|i: int, c: int|
                0 <= i < r && 0 <= c < w ==> (#[trigger] table@[i]@[c] <==> falling(g, pull).contains(
                    (i, c),
                )),
        decreases n - r,
    {
        let mut row: Vec<bool> = Vec::new();
        let mut c: usize = 0;
        assert(g[r as int].len() == w);
        assert(stay.marks@[r as int]@.len() == w);
        while c < w
            invariant
                board.wf(),
                g == board@,
                n == g.len(),
                w == board.width,
                r < n,
                c <= w,
                table_fits(g, stay.marks@),
                stay.marks@[r as int]@.len() == w,
                g[r as int].len() == w,
                table_set(g, stay.marks@) == staying(g, pull),
                row@.len() == c,
                forall|x: int|
                    0 <= x < c ==> (#[trigger] row@[x] <==> falling(g, pull).contains((r as int, x))),
            decreases w - c,
        {
            let falls: bool = board.cell(r, c) != Cell::Empty && !stay.marks[r][c];
            assert(table_set(g, stay.marks@).contains((r as int, c as int))
                <==> stay.marks@[r as int]@[c as int]);
            row.push(falls);
            c = c + 1;
        }
        table.push(row);
        r = r + 1;
    }
    proof {
        assert forall|p: Spot| table_set(g, table@).contains(p) <==> falling(g, pull).contains(p) by {
            if on_grid(g, p) {
                assert(g[p.0].len() == w);
                assert(table@[p.0]@[p.1] <==> falling(g, pull).contains((p.0, p.1)));
            }
        }
        assert(table_set(g, table@) =~= falling(g, pull));
    }
    table
}

/// Moves the marked blocks one row deeper. What the player takes disappears.
fn drop_blocks(board: &mut Board, table: &Vec<Vec<bool>>, player_pos: Pos)
    requires
        old(board).wf(),
        table_fits(old(board)@, table@),
    ensures
        final(board).wf(),
        final(board).width == old(board).width,
        final(board)@ == fallen(
            old(board)@,
            table_set(old(board)@, table@),
            spot(player_pos),
        ),
{
    let ghost g = board@;
    let ghost fall = table_set(g, table@);
    let n: usize = board.depth_rows();
    let w: usize = board.width();
    let mut rows: Vec<Vec<Cell>> = Vec::new();
    let mut r: usize = 0;
    while r < n
        invariant
            board.wf(),
            g == board@,
            n == g.len(),
            w == board.width,
            r <= n,
            table_fits(g, table@),
            fall == table_set(g, table@),
            rows@.len() == r,
            forall|i: int| 0 <= i < r ==> (#[trigger] rows@[i])@.len() == w,
            forall|i: int, c: int|
                0 <= i < r && 0 <= c < w ==> #[trigger] rows@[i]@[c] == fallen_cell(
                    g,
                    fall,
                    spot(player_pos),
                    (i, c),
                ),
        decreases n - r,
    {
        let mut row: Vec<Cell> = Vec::new();
        let mut c: usize = 0;
        assert(g[r as int].len() == w);
        assert(table@[r as int]@.len() == w);
        if r > 0 {
            assert(g[r - 1].len() == w);
            assert(table@[r - 1]@.len() == w);
        }
        while c < w
            invariant
                board.wf(),
                g == board@,
                n == g.len(),
                w == board.width,
                r < n,
                c <= w,
                table_fits(g, table@),
                table@[r as int]@.len() == w,
                r > 0 ==> table@[r - 1]@.len() == w && g[r - 1].len() == w,
                g[r as int].len() == w,
                fall == table_set(g, table@),
                row@.len() == c,
                forall|x: int|
                    0 <= x < c ==> #[trigger] row@[x] == fallen_cell(
                        g,
                        fall,
                        spot(player_pos),
                        (r as int, x),
                    ),
            decreases w - c,
        {
            let ghost here = (r as int, c as int);
            assert(fall.contains(here) <==> table@[r as int]@[c as int]);
            let cell: Cell = if r > 0 && table[r - 1][c] {
                assert(fall.contains(above(here)));
                let coming: Cell = board.cell(r - 1, c);
                let taken: bool = match coming {
                    Cell::Oxygen | Cell::Item(_) => r == player_pos.0 && c == player_pos.1,
                    _ => false,
                };
                if taken {
                    Cell::Empty
                } else {
                    coming
                }
            } else {
                assert(!fall.contains(above(here)));
                if table[r][c] {
                    Cell::Empty
                } else {
                    board.cell(r, c)
                }
            };
            row.push(cell);
            c = c + 1;
        }
        rows.push(row);
        r = r + 1;
    }
    board.rows = rows;
    proof {
        let want = fallen(g, fall, spot(player_pos));
        assert forall|i: int| 0 <= i < g.len() implies board@[i] =~= want[i] by {
            assert(g[i].len() == w);
            assert forall|c: int| 0 <= c < w implies board@[i][c] == want[i][c] by {
                assert(board.rows@[i]@[c] == fallen_cell(g, fall, spot(player_pos), (i, c)));
            }
        }
        assert(board@ =~= want);
        assert forall|i: int| 0 <= i < board@.len() implies (#[trigger] board@[i]).len() == w by {
            assert(board.rows@[i]@.len() == w);
        }
    }
}

/// Whoever sticks to a block of a group belongs to the group.
proof fn lemma_group_trans(g: Grid, m: Spot, p: Spot, q: Spot)
    requires
        group_at(g, m).contains(p),
        group_at(g, p).contains(q),
    ensures
        group_at(g, m).contains(q),
{
    let how = spread(false, None);
    assert forall|t: Set<Spot>| set![m].subset_of(t) && #[trigger] crate::flood::closed_under(g, how, t) implies t.contains(
        q,
    ) by {
        assert(t.contains(p));
        assert(set![p].subset_of(t));
    }
}

/// A table of the field's shape that marks nothing.
fn empty_table(board: &Board) -> (table: Vec<Vec<bool>>)
    requires
        board.wf(),
    ensures
        table_fits(board@, table@),
        table_set(board@, table@) =~= Set::<Spot>::empty(),
{
    let mut table: Vec<Vec<bool>> = Vec::new();
    let n: usize = board.depth_rows();
    let mut r: usize = 0;
    while r < n
        invariant
            board.wf(),
            n == board@.len(),
            r <= n,
            table@.len() == r,
            forall|i: int| 0 <= i < r ==> (#[trigger] table@[i])@.len() == board.width,
            forall|i: int, c: int|
                0 <= i < r && 0 <= c < board.width ==> !(#[trigger] table@[i]@[c]),
        decreases n - r,
    {
        let row: Vec<bool> = vec![false; board.width];
        table.push(row);
        r = r + 1;
    }
    assert forall|p: Spot| !table_set(board@, table@).contains(p) by {
        if on_grid(board@, p) {
            assert(board@[p.0].len() == board.width);
            assert(!table@[p.0]@[p.1]);
        }
    }
    table
}

/// Marks every cell of the list.
fn mark_all(board: &Board, table: &mut Vec<Vec<bool>>, list: &Vec<Pos>)
    requires
        board.wf(),
        table_fits(board@, old(table)@),
        forall|i: int| 0 <= i < list@.len() ==> on_grid(board@, spot(#[trigger] list@[i])),
    ensures
        table_fits(board@, final(table)@),
        table_set(board@, final(table)@) =~= table_set(board@, old(table)@).union(spots(list@)),
{
    let ghost g = board@;
    let ghost start = table_set(g, table@);
    let mut i: usize = 0;
    while i < list.len()
        invariant
            board.wf(),
            g == board@,
            forall|k: int| 0 <= k < list@.len() ==> on_grid(g, spot(#[trigger] list@[k])),
            i <= list@.len(),
            table_fits(g, table@),
            forall|p: Spot|
                #[trigger] table_set(g, table@).contains(p) <==> start.contains(p) || exists|k: int|
                    0 <= k < i && #[trigger] spot(list@[k]) == p,
        decreases list@.len() - i,
    {
        let p: Pos = list[i];
        let ghost before = table@;
        assert(on_grid(g, spot(list@[i as int])));
        assert(table@[p.0 as int]@.len() == g[p.0 as int].len());
        table[p.0][p.1] = true;
        proof {
            assert forall|q: Spot|
                #[trigger] table_set(g, table@).contains(q) <==> start.contains(q) || exists|k: int|
                    0 <= k < i + 1 && #[trigger] spot(list@[k]) == q by {
                assert(table_set(g, before).contains(q) <==> start.contains(q) || exists|k: int|
                    0 <= k < i && #[trigger] spot(list@[k]) == q);
                if q == spot(p) {
                    assert(spot(list@[i as int]) == q);
                } else if on_grid(g, q) {
                    assert(table@[q.0]@[q.1] == before[q.0]@[q.1]);
                }
            }
        }
        i = i + 1;
    }
}

/// Collects the blocks that vanish: the groups of enough like blocks that a
/// block which moved and came to rest belongs to.
fn find_vanishing(
    board: &Board,
    moved: &Vec<Pos>,
    landed: &Flood,
    Ghost(fall): Ghost<Set<Spot>>,
    Ghost(rest): Ghost<Set<Spot>>,
) -> (table: Vec<Vec<bool>>)
    requires
        board.wf(),
        table_fits(board@, landed.marks@),
        table_set(board@, landed.marks@) == rest,
        forall|k: int|
            0 <= k < moved@.len() ==> (#[trigger] moved@[k]).0 + 1 < board@.len() && moved@[k].1 < board.width
                && fall.contains(spot(moved@[k])),
        forall|p: Spot| #[trigger] fall.contains(p) ==> spots(moved@).contains(p),
    ensures
        table_fits(board@, table@),
        table_set(board@, table@) == vanishing(board@, fall, rest),
{
    let ghost g = board@;
    let ghost goal = vanishing(g, fall, rest);
    let n: usize = board.depth_rows();
    let mut table: Vec<Vec<bool>> = empty_table(board);
    let mut k: usize = 0;
    while k < moved.len()
        invariant
            board.wf(),
            g == board@,
            n == g.len(),
            goal == vanishing(g, fall, rest),
            table_fits(g, landed.marks@),
            table_set(g, landed.marks@) == rest,
            forall|j: int|
                0 <= j < moved@.len() ==> (#[trigger] moved@[j]).0 + 1 < g.len() && moved@[j].1
                    < board.width && fall.contains(spot(moved@[j])),
            k <= moved@.len(),
            table_fits(g, table@),
            table_set(g, table@).subset_of(goal),
            forall|p: Spot, q: Spot|
                table_set(g, table@).contains(p) && #[trigger] group_at(g, p).contains(q) ==> table_set(
                    g,
                    table@,
                ).contains(q),
            forall|j: int, p: Spot|
                0 <= j < k && sets_off(g, fall, rest, below(spot(#[trigger] moved@[j])))
                    && #[trigger] group_at(g, below(spot(moved@[j]))).contains(p) ==> table_set(
                    g,
                    table@,
                ).contains(p),
        decreases moved@.len() - k,
    {
        let from: Pos = moved[k];
        let to: Pos = (from.0 + 1, from.1);
        let ghost m = spot(to);
        assert(m == below(spot(moved@[k as int])));
        assert(above(m) == spot(moved@[k as int]));
        assert(g[m.0].len() == board.width);
        assert(landed.marks@[m.0]@.len() == board.width);
        assert(rest.contains(m) <==> landed.marks@[m.0]@[m.1]);
        let ghost before = table_set(g, table@);
        let mut group: Vec<Pos> = Vec::new();
        if landed.marks[to.0][to.1] && !table[to.0][to.1] {
            match board.cell(to.0, to.1) {
                Cell::Color(color) => {
                    group = connected_same_color(board, to, color);
                },
                Cell::Rock { .. } => {
                    group = connected_rock_group(board, to);
                },
                _ => {},
            }
        }
        if group.len() >= VANISH_GROUP_SIZE {
            proof {
                lemma_spots_len(group@);
                assert(sets_off(g, fall, rest, m));
            }
            mark_all(board, &mut table, &group);
            proof {
                assert forall|p: Spot| #[trigger] table_set(g, table@).contains(p) implies goal.contains(p) by {
                    if !before.contains(p) {
                        assert(group_at(g, m).contains(p));
                    }
                }
                assert forall|p: Spot, q: Spot|
                    table_set(g, table@).contains(p) && #[trigger] group_at(g, p).contains(q) implies table_set(
                    g,
                    table@,
                ).contains(q) by {
                    if !before.contains(p) {
                        lemma_group_trans(g, m, p, q);
                    }
                }
            }
        }
        proof {
            assert forall|j: int, p: Spot|
                0 <= j < k + 1 && sets_off(g, fall, rest, below(spot(#[trigger] moved@[j])))
                    && #[trigger] group_at(g, below(spot(moved@[j]))).contains(p) implies table_set(
                g,
                table@,
            ).contains(p) by {
                if j == k {
                    if !before.contains(m) {
                        lemma_spots_len(group@);
                    }
                }
            }
        }
        k = k + 1;
    }
    proof {
        assert forall|p: Spot| table_set(g, table@).contains(p) <==> goal.contains(p) by {
            if goal.contains(p) {
                let m = choose|m: Spot| #[trigger] sets_off(g, fall, rest, m) && group_at(g, m).contains(p);
                assert(spots(moved@).contains(above(m)));
                let j = choose|j: int| 0 <= j < moved@.len() && #[trigger] spot(moved@[j]) == above(m);
                assert(below(spot(moved@[j])) == m);
            }
        }
        assert(table_set(g, table@) =~= goal);
    }
    table
}

/// The entry of the block at `p` after the tick.
spec fn wait_entry(w: Wait, want: Map<Spot, u16>) -> bool {
    want.dom().contains(spot(w.pos)) && want[spot(w.pos)] == w.ticks
}

/// Lists the blocks that are without support after the tick.
fn find_waits(
    board: &Board,
    gravity: &GravityState,
    fall: &Vec<Vec<bool>>,
    stand: &Flood,
    landed: &Flood,
    Ghost(g): Ghost<Grid>,
    Ghost(pull): Ghost<Pull>,
    Ghost(rest): Ghost<Set<Spot>>,
) -> (waits: Vec<Wait>)
    requires
        board.wf(),
        gravity.wf(),
        pull.waits == gravity@.waits,
        g.len() == board@.len(),
        forall|r: int| 0 <= r < g.len() ==> (#[trigger] g[r]).len() == board.width,
        table_fits(g, fall@),
        table_fits(g, stand.marks@),
        table_fits(g, landed.marks@),
        table_set(g, fall@) == falling(g, pull),
        table_set(g, stand.marks@) == standing(g, pull.player, pull.solid),
        table_set(board@, landed.marks@) == rest,
    ensures
        distinct(waits@),
        waits_of(waits@) == waits_after(g, pull, board@, rest),
{
    let ghost want = waits_after(g, pull, board@, rest);
    let n: usize = board.depth_rows();
    let w: usize = board.width();
    let mut waits: Vec<Wait> = Vec::new();
    let mut r: usize = 0;
    while r < n
        invariant
            board.wf(),
            gravity.wf(),
            pull.waits == gravity@.waits,
            g.len() == board@.len(),
            n == g.len(),
            w == board.width,
            forall|i: int| 0 <= i < g.len() ==> (#[trigger] g[i]).len() == board.width,
            table_fits(g, fall@),
            table_fits(g, stand.marks@),
            table_fits(g, landed.marks@),
            table_set(g, fall@) == falling(g, pull),
            table_set(g, stand.marks@) == standing(g, pull.player, pull.solid),
            table_set(board@, landed.marks@) == rest,
            want == waits_after(g, pull, board@, rest),
            r <= n,
            distinct(waits@),
            forall|k: int| 0 <= k < waits@.len() ==> (#[trigger] waits@[k]).pos.0 < r && wait_entry(waits@[k], want),
            forall|p: Spot|
                #[trigger] want.dom().contains(p) && p.0 < r ==> waits_of(waits@).dom().contains(p),
        decreases n - r,
    {
        let mut c: usize = 0;
        assert(g[r as int].len() == w);
        assert(board@[r as int].len() == w);
        while c < w
            invariant
                board.wf(),
                gravity.wf(),
                pull.waits == gravity@.waits,
                g.len() == board@.len(),
                n == g.len(),
                w == board.width,
                forall|i: int| 0 <= i < g.len() ==> (#[trigger] g[i]).len() == board.width,
                table_fits(g, fall@),
                table_fits(g, stand.marks@),
                table_fits(g, landed.marks@),
                table_set(g, fall@) == falling(g, pull),
                table_set(g, stand.marks@) == standing(g, pull.player, pull.solid),
                table_set(board@, landed.marks@) == rest,
                want == waits_after(g, pull, board@, rest),
                r < n,
                c <= w,
                distinct(waits@),
                forall|k: int|
                    0 <= k < waits@.len() ==> ((#[trigger] waits@[k]).pos.0 < r || waits@[k].pos.0 == r
                        && waits@[k].pos.1 < c) && wait_entry(waits@[k], want),
                forall|p: Spot|
                    #[trigger] want.dom().contains(p) && (p.0 < r || p.0 == r && p.1 < c) ==> waits_of(
                        waits@,
                    ).dom().contains(p),
            decreases w - c,
        {
            let ghost here = (r as int, c as int);
            let ghost before = waits@;
            proof {
                assert(on_grid(g, here) && on_grid(board@, here));
                assert(fall@[r as int]@.len() == w && stand.marks@[r as int]@.len() == w);
                assert(landed.marks@[r as int]@.len() == w);
                assert(rest.contains(here) <==> landed.marks@[r as int]@[c as int]);
                assert(table_set(g, stand.marks@).contains(here) <==> stand.marks@[r as int]@[c as int]);
                if r > 0 {
                    assert(g[r - 1].len() == w);
                    assert(fall@[r - 1]@.len() == w);
                    assert(table_set(g, fall@).contains(above(here)) <==> fall@[r - 1]@[c as int]);
                } else {
                    assert(!table_set(g, fall@).contains(above(here)));
                }
            }
            if board.cell(r, c) != Cell::Empty && !landed.marks[r][c] {
                let came: bool = r > 0 && fall[r - 1][c];
                if came || !stand.marks[r][c] {
                    let origin: Pos = if came { (r - 1, c) } else { (r, c) };
                    let ticks: u16 = match gravity.ticks_at(origin) {
                        Some(t) => if t == u16::MAX { t } else { t + 1 },
                        None => 1,
                    };
                    let entry = Wait { pos: (r, c), ticks };
                    assert(want.dom().contains(here));
                    waits.push(entry);
                    assert(wait_entry(entry, want));
                }
            }
            proof {
                assert forall|p: Spot|
                    #[trigger] want.dom().contains(p) && (p.0 < r || p.0 == r && p.1 < c + 1) implies waits_of(
                    waits@,
                ).dom().contains(p) by {
                    if p == here {
                        assert(spot(waits@[waits@.len() - 1].pos) == p);
                    } else {
                        assert(waits_of(before).dom().contains(p));
                        let j = choose|j: int| 0 <= j < before.len() && #[trigger] spot(before[j].pos) == p;
                        assert(spot(waits@[j].pos) == p);
                    }
                }
            }
            c = c + 1;
        }
        r = r + 1;
    }
    proof {
        let got = waits_of(waits@);
        assert forall|p: Spot| #[trigger] got.dom().contains(p) <==> want.dom().contains(p) by {
            if got.dom().contains(p) {
                let j = choose|j: int| 0 <= j < waits@.len() && #[trigger] spot(waits@[j].pos) == p;
                assert(wait_entry(waits@[j], want));
            }
        }
        assert forall|p: Spot| #[trigger] got.dom().contains(p) implies got[p] == want[p] by {
            let j = choose|j: int| 0 <= j < waits@.len() && #[trigger] spot(waits@[j].pos) == p;
            assert(wait_entry(waits@[j], want));
        }
        assert(got =~= want);
    }
    waits
}

/// The blocks of a list, each with where it was and where it is one row
/// deeper.
fn list_moves(list: &Vec<Pos>, Ghost(n): Ghost<nat>) -> (moves: Vec<BlockMove>)
    requires
        n <= usize::MAX,
        forall|i: int| 0 <= i < list@.len() ==> (#[trigger] list@[i]).0 + 1 < n,
    ensures
        moves@ == list@.map_values(|p: Pos| (((p.0 + 1) as usize, p.1), p)),
{
    let mut moves: Vec<BlockMove> = Vec::new();
    let mut i: usize = 0;
    while i < list.len()
        invariant
            n <= usize::MAX,
            forall|k: int| 0 <= k < list@.len() ==> (#[trigger] list@[k]).0 + 1 < n,
            i <= list@.len(),
            moves@.len() == i,
            forall|k: int|
                0 <= k < i ==> #[trigger] moves@[k] == (((list@[k].0 + 1) as usize, list@[k].1), list@[k]),
        decreases list@.len() - i,
    {
        let p: Pos = list[i];
        moves.push(((p.0 + 1, p.1), p));
        i = i + 1;
    }
    assert(moves@ =~= list@.map_values(|p: Pos| (((p.0 + 1) as usize, p.1), p)));
    moves
}

/// The cells of a list with what they hold.
pub fn list_contents(board: &Board, list: &Vec<Pos>) -> (cells: Vec<(Pos, Cell)>)
    requires
        board.wf(),
        forall|i: int| 0 <= i < list@.len() ==> on_grid(board@, spot(#[trigger] list@[i])),
    ensures
        cells@ == list@.map_values(|p: Pos| (p, at(board@, spot(p)))),
{
    let mut cells: Vec<(Pos, Cell)> = Vec::new();
    let mut i: usize = 0;
    while i < list.len()
        invariant
            board.wf(),
            forall|k: int| 0 <= k < list@.len() ==> on_grid(board@, spot(#[trigger] list@[k])),
            i <= list@.len(),
            cells@.len() == i,
            forall|k: int|
                0 <= k < i ==> #[trigger] cells@[k] == (list@[k], at(board@, spot(list@[k]))),
        decreases list@.len() - i,
    {
        let p: Pos = list[i];
        cells.push((p, board.cell(p.0, p.1)));
        i = i + 1;
    }
    assert(cells@ =~= list@.map_values(|p: Pos| (p, at(board@, spot(p)))));
    cells
}

/// Counts the colour blocks and the rocks among the cells.
fn count_kinds(cells: &Vec<(Pos, Cell)>) -> (counts: (usize, usize))
    ensures
        counts.0 == colors_among(cells@),
        counts.1 == rocks_among(cells@),
{
    let mut colors: usize = 0;
    let mut rocks: usize = 0;
    let mut i: usize = 0;
    while i < cells.len()
        invariant
            i <= cells@.len(),
            colors <= i,
            rocks <= i,
            colors == colors_among(cells@.take(i as int)),
            rocks == rocks_among(cells@.take(i as int)),
        decreases cells@.len() - i,
    {
        assert(cells@.take(i + 1).drop_last() =~= cells@.take(i as int));
        match cells[i].1 {
            Cell::Color(_) => {
                colors = colors + 1;
            },
            Cell::Rock { .. } => {
                rocks = rocks + 1;
            },
            _ => {},
        }
        i = i + 1;
    }
    assert(cells@.take(cells@.len() as int) =~= cells@);
    (colors, rocks)
}

/// The pull that the arguments of a tick stand for.
pub open spec fn pull_of(player_pos: Pos, solid: Seq<Pos>, gravity: Loose, shake_ticks: u8) -> Pull {
    Pull {
        player: spot(player_pos),
        solid: spots(solid),
        waits: gravity.waits,
        shake_ticks: shake_ticks as u16,
    }
}

/// The gravity state after a tick.
pub open spec fn loose_after(g: Grid, pull: Pull) -> Loose {
    Loose {
        waits: waits_after(g, pull, field_after(g, pull), field_landed(g, pull)),
        shake_ticks: pull.shake_ticks,
    }
}

/// Runs one tick of gravity. Blocks without support shake for `shake_ticks`
/// ticks and then fall one row per tick; where they come to rest, groups of
/// enough like blocks vanish. A capsule or an item that falls onto the player
/// is taken; any other block crushes them and stays in their cell.
pub fn apply_gravity_tick(
    board: &mut Board,
    player_pos: Pos,
    solid: &[Pos],
    gravity: &mut GravityState,
    shake_ticks: u8,
) -> (outcome: GravityOutcome)
    requires
        old(board).wf(),
        old(gravity).wf(),
    ensures
        final(board).wf(),
        final(board).width == old(board).width,
        final(gravity).wf(),
        tells(outcome, old(board)@, pull_of(player_pos, solid@, old(gravity)@, shake_ticks)),
        final(board)@ == field_after(
            old(board)@,
            pull_of(player_pos, solid@, old(gravity)@, shake_ticks),
        ),
        final(gravity)@ == loose_after(
            old(board)@,
            pull_of(player_pos, solid@, old(gravity)@, shake_ticks),
        ),
{
    let ghost g = board@;
    let ghost pull = pull_of(player_pos, solid@, gravity@, shake_ticks);
    gravity.shake_ticks = shake_ticks as u16;
    let stand: Flood = find_standing(board, player_pos, solid);
    let stay: Flood = find_staying(board, &stand, gravity, Ghost(pull));
    let fall: Vec<Vec<bool>> = find_falling(board, &stay, Ghost(pull));
    let ghost sinking = falling(g, pull);
    let list: Vec<Pos> = list_table(board, &fall);
    proof {
        lemma_board_addressable(board);
        lemma_listing(g, sinking);
        assert forall|i: int| 0 <= i < list@.len() implies (#[trigger] list@[i]).0 + 1 < g.len() && list@[i].1
            < board.width && sinking.contains(spot(list@[i])) by {
            assert(sinking.contains(spot(list@[i])));
            lemma_room_to_fall(g, pull, spot(list@[i]));
        }
        assert forall|p: Spot| #[trigger] sinking.contains(p) implies spots(list@).contains(p) by {
            assert(on_grid(g, p));
        }
    }
    let moved_cells: Vec<BlockMove> = list_moves(&list, Ghost(g.len()));
    let (prow, pcol): (usize, usize) = player_pos;
    let mut onto: Option<Cell> = None;
    if prow < board.depth_rows() && pcol < board.width() {
        assert(on_grid(g, pull.player));
        if prow > 0 {
            assert(g[prow - 1].len() == board.width);
            assert(fall@[prow - 1]@.len() == board.width);
            assert(table_set(g, fall@).contains(above(pull.player)) <==> fall@[prow - 1]@[pcol as int]);
            if fall[prow - 1][pcol] {
                onto = Some(board.cell(prow - 1, pcol));
            }
        }
    } else {
        assert(!on_grid(g, pull.player)) by {
            if on_grid(g, pull.player) {
                assert(g[prow as int].len() == board.width);
            }
        }
    }
    assert(onto == onto_player(g, pull));
    drop_blocks(board, &fall, player_pos);
    let ghost g1 = board@;
    assert(g1 == field_fallen(g, pull));
    assert forall|r: int| 0 <= r < g.len() implies (#[trigger] g[r]).len() == board.width by {
        assert(g1[r].len() == board.width);
    }
    let landed: Flood = find_standing(board, player_pos, solid);
    let ghost rest = field_landed(g, pull);
    let doomed: Vec<Vec<bool>> = find_vanishing(board, &list, &landed, Ghost(sinking), Ghost(rest));
    let gone: Vec<Pos> = list_table(board, &doomed);
    proof {
        lemma_board_addressable(board);
        lemma_listing(g1, field_vanishing(g, pull));
        assert(table_set(g1, doomed@) == field_vanishing(g, pull));
        assert forall|i: int| 0 <= i < gone@.len() implies on_grid(g1, spot(#[trigger] gone@[i])) by {}
    }
    let vanished_cells: Vec<(Pos, Cell)> = list_contents(board, &gone);
    let (colors, rocks): (usize, usize) = count_kinds(&vanished_cells);
    crate::groups::clear_cells(board, &gone);
    proof {
        let v = field_vanishing(g, pull);
        assert forall|p: Spot| spots(gone@).contains(p) <==> v.contains(p) by {
            if spots(gone@).contains(p) {
                let i = choose|i: int| 0 <= i < gone@.len() && #[trigger] spot(gone@[i]) == p;
                assert(v.contains(spot(gone@[i])));
            }
            if v.contains(p) {
                assert(table_set(g1, doomed@).contains(p));
            }
        }
        assert(spots(gone@) =~= v);
        assert(board@ == field_after(g, pull));
        assert forall|p: Spot| table_set(board@, landed.marks@).contains(p) <==> rest.contains(p) by {
            assert(table_set(g1, landed.marks@).contains(p) <==> rest.contains(p));
            if 0 <= p.0 < g1.len() {
                assert(board@[p.0].len() == g1[p.0].len());
            }
        }
        assert(table_set(board@, landed.marks@) =~= rest);
    }
    let waits: Vec<Wait> = find_waits(
        board,
        gravity,
        &fall,
        &stand,
        &landed,
        Ghost(g),
        Ghost(pull),
        Ghost(rest),
    );
    gravity.waits = waits;
    let mut items_collected: Vec<ItemEffect> = Vec::new();
    let mut oxygen_collected: usize = 0;
    let mut crushed: bool = false;
    match onto {
        Some(Cell::Oxygen) => {
            oxygen_collected = 1;
        },
        Some(Cell::Item(effect)) => {
            items_collected.push(effect);
        },
        Some(_) => {
            crushed = true;
        },
        None => {},
    }
    let outcome = GravityOutcome {
        moved_cells,
        auto_vanished_blocks: colors,
        auto_vanished_rock_blocks: rocks,
        crushed,
        oxygen_collected,
        items_collected,
        vanished_cells,
    };
    proof {
        match onto {
            Some(Cell::Item(effect)) => {
                assert(items_collected@ =~= seq![effect]);
            },
            _ => {
                assert(items_collected@ =~= Seq::empty());
            },
        }
    }
    outcome
}

} // verus!
