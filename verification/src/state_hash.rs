//! A digest of a game, by which the players of a match notice that their games
//! have drifted apart. What is only to be seen is not part of it.
use vstd::arithmetic::div_mod::lemma_fundamental_div_mod;
use vstd::arithmetic::power2::{lemma2_to64, lemma_pow2_unfold, pow2};
use vstd::prelude::*;

use crate::board::{Cell, ColorKind, Grid, ItemEffect};
use crate::bombs::{Bomb, IncomingRock};
use crate::bytes::{le_bytes, low_bytes};
use crate::game::{Game, World};
use crate::player::{Direction, Player};

verus! {

/// A running FNV-1a digest of 64 bits.
pub struct Fnv1a64(pub u64);

/// The digest of nothing.
pub const FNV_OFFSET_BASIS: u64 = 0xcbf29ce484222325;

pub const FNV_PRIME: u64 = 0x100000001b3;

/// The digest after one byte more.
pub open spec fn fnv_step(h: u64, byte: u8) -> u64 {
    vstd::wrapping::u64_specs::wrapping_mul(h ^ (byte as u64), FNV_PRIME)
}

/// The digest after some bytes more.
pub open spec fn fnv(h: u64, bytes: Seq<u8>) -> u64
    decreases bytes.len(),
{
    if bytes.len() == 0 {
        h
    } else {
        fnv_step(fnv(h, bytes.drop_last()), bytes.last())
    }
}

/// A digest can be taken in parts.
pub proof fn lemma_fnv_parts(h: u64, a: Seq<u8>, b: Seq<u8>)
    ensures
        fnv(h, a + b) == fnv(fnv(h, a), b),
    decreases b.len(),
{
    if b.len() == 0 {
        assert(a + b =~= a);
    } else {
        assert((a + b).drop_last() =~= a + b.drop_last());
        lemma_fnv_parts(h, a, b.drop_last());
    }
}

impl Fnv1a64 {
    /// The digest of nothing.
    pub fn new() -> (f: Self)
        ensures
            f.0 == FNV_OFFSET_BASIS,
    {
        Fnv1a64(FNV_OFFSET_BASIS)
    }

    /// Digests one byte.
    pub fn write_u8(&mut self, byte: u8)
        ensures
            final(self).0 == fnv(old(self).0, seq![byte]),
    {
        self.0 = (self.0 ^ (byte as u64)).wrapping_mul(FNV_PRIME);
        proof {
            reveal_with_fuel(fnv, 2);
            assert(seq![byte].drop_last() =~= Seq::<u8>::empty());
        }
    }

    /// Digests some bytes.
    pub fn write_bytes(&mut self, bytes: &[u8])
        ensures
            final(self).0 == fnv(old(self).0, bytes@),
    {
        let ghost h = self.0;
        let mut i: usize = 0;
        assert(bytes@.take(0) =~= Seq::<u8>::empty());
        while i < bytes.len()
            invariant
                i <= bytes@.len(),
                self.0 == fnv(h, bytes@.take(i as int)),
            decreases bytes@.len() - i,
        {
            proof {
                lemma_fnv_parts(h, bytes@.take(i as int), seq![bytes@[i as int]]);
                assert(bytes@.take(i + 1) =~= bytes@.take(i as int) + seq![bytes@[i as int]]);
            }
            self.write_u8(bytes[i]);
            i = i + 1;
        }
        assert(bytes@.take(bytes@.len() as int) =~= bytes@);
    }

    /// Digests a number of 32 bits.
    pub fn write_u32(&mut self, value: u32)
        ensures
            final(self).0 == fnv(old(self).0, le_bytes(value as nat, 4)),
    {
        let bytes: Vec<u8> = low_bytes(value as u64, 4);
        self.write_bytes(bytes.as_slice());
    }

    /// Digests a number of 64 bits.
    pub fn write_u64(&mut self, value: u64)
        ensures
            final(self).0 == fnv(old(self).0, le_bytes(value as nat, 8)),
    {
        let bytes: Vec<u8> = low_bytes(value, 8);
        self.write_bytes(bytes.as_slice());
    }

    /// Digests a size, as a number of 64 bits.
    pub fn write_usize(&mut self, value: usize)
        ensures
            final(self).0 == fnv(old(self).0, le_bytes(value as nat, 8)),
    {
        self.write_u64(value as u64);
    }

    /// The digest.
    pub fn finish(&self) -> (h: u64)
        ensures
            h == self.0,
    {
        self.0
    }
}

/// A colour as a byte.
pub open spec fn color_byte(color: ColorKind) -> u8 {
    match color {
        ColorKind::Red => 0,
        ColorKind::Blue => 1,
        ColorKind::Green => 2,
        ColorKind::Yellow => 3,
    }
}

/// An item as a byte.
pub open spec fn effect_byte(effect: ItemEffect) -> u8 {
    match effect {
        ItemEffect::ClearAbove => 0,
        ItemEffect::UnifyColors => 1,
        ItemEffect::StarifyScreen => 2,
    }
}

/// A direction as a byte.
pub open spec fn direction_byte(dir: Direction) -> u8 {
    match dir {
        Direction::Up => 0,
        Direction::Down => 1,
        Direction::Left => 2,
        Direction::Right => 3,
    }
}

/// A cell as bytes.
pub open spec fn cell_bytes(cell: Cell) -> Seq<u8> {
    match cell {
        Cell::Empty => seq![0u8],
        Cell::Color(color) => seq![1u8] + seq![color_byte(color)],
        Cell::Rock { hits } => seq![2u8] + seq![hits],
        Cell::Oxygen => seq![3u8],
        Cell::Diamond => seq![4u8],
        Cell::Star { visible_ms } => seq![5u8] + le_bytes(visible_ms as nat, 4),
        Cell::Item(effect) => seq![6u8] + seq![effect_byte(effect)],
    }
}

/// The first `c` cells of a row as bytes.
pub open spec fn row_bytes(row: Seq<Cell>, c: nat) -> Seq<u8>
    decreases c,
{
    if c == 0 {
        Seq::empty()
    } else {
        row_bytes(row, (c - 1) as nat) + cell_bytes(row[c - 1])
    }
}

/// The first `r` rows of a field as bytes.
pub open spec fn rows_bytes(g: Grid, r: nat) -> Seq<u8>
    decreases r,
{
    if r == 0 {
        Seq::empty()
    } else {
        rows_bytes(g, (r - 1) as nat) + row_bytes(g[r - 1], g[r - 1].len())
    }
}

/// One point of air, times two to the power of eleven: the largest gauge there
/// can be is then below two to the power of twenty-four.
pub const GAUGE_POINT: u128 = 2_048_000_000_000;

/// Two to the power of twenty-three, in that unit. Numbers from here up to the
/// double have as many binary digits as a single-precision number keeps.
pub const GAUGE_LOW: u128 = 17_179_869_184_000_000_000;

/// A gauge doubled until it has as many digits as a single-precision number
/// keeps, and how often it was doubled.
pub open spec fn lifted(x: nat, doublings: nat) -> (nat, nat)
    decreases 2 * GAUGE_LOW - x,
{
    if x == 0 || x >= GAUGE_LOW {
        (x, doublings)
    } else {
        lifted(2 * x, doublings + 1)
    }
}

/// The nearest number of points; of two that are as near, the even one.
pub open spec fn rounded(x: nat) -> nat {
    let whole = x / GAUGE_POINT as nat;
    let rest = x % GAUGE_POINT as nat;
    if 2 * rest > GAUGE_POINT || (2 * rest == GAUGE_POINT && whole % 2 == 1) {
        whole + 1
    } else {
        whole
    }
}

/// The bits of the single-precision number that is nearest to a gauge, in
/// points.
pub open spec fn gauge_bits(oxygen: u64) -> int {
    if oxygen == 0 {
        0
    } else {
        let (x, doublings) = lifted(oxygen as nat, 0);
        (160 - doublings) * 0x80_0000 + rounded(x)
    }
}

proof fn lemma_lifted(x: nat, doublings: nat)
    requires
        0 < x < 2 * GAUGE_LOW,
    ensures
        ({
            let (y, n) = lifted(x, doublings);
            &&& GAUGE_LOW <= y < 2 * GAUGE_LOW
            &&& n >= doublings
            &&& y == x * pow2((n - doublings) as nat)
        }),
    decreases 2 * GAUGE_LOW - x,
{
    if x >= GAUGE_LOW {
        lemma2_to64();
        assert(x * pow2(0) == x) by (nonlinear_arith)
            requires
                pow2(0) == 1,
        ;
    } else {
        lemma_lifted(2 * x, doublings + 1);
        let (y, n) = lifted(2 * x, doublings + 1);
        let rest = (n - doublings - 1) as nat;
        lemma_pow2_unfold(rest + 1);
        assert(2 * x * pow2(rest) == x * (2 * pow2(rest))) by (nonlinear_arith);
    }
}

/// What stands for a gauge in a digest is within half a unit of its last place.
/// The unit, in points, is two to the power of eleven less the doublings.
pub proof fn law_gauges_are_rounded(oxygen: u64)
    requires
        oxygen > 0,
    ensures
        ({
            let (x, doublings) = lifted(oxygen as nat, 0);
            &&& x == oxygen * pow2(doublings)
            &&& 0x80_0000 * GAUGE_POINT <= x < 0x100_0000 * GAUGE_POINT
            &&& -(GAUGE_POINT as int) <= 2 * (rounded(x) * GAUGE_POINT - x) <= GAUGE_POINT
            &&& gauge_bits(oxygen) == (160 - doublings) * 0x80_0000 + rounded(x)
        }),
{
    lemma_lifted(oxygen as nat, 0);
    let x = lifted(oxygen as nat, 0).0;
    lemma_fundamental_div_mod(x as int, GAUGE_POINT as int);
}

/// The bits of the single-precision number that is nearest to a gauge.
fn bits_of_gauge(oxygen: u64) -> (bits: u32)
    ensures
        bits == gauge_bits(oxygen),
{
    if oxygen == 0 {
        return 0;
    }
    let mut x: u128 = oxygen as u128;
    let mut doublings: u32 = 0;
    proof {
        lemma2_to64();
    }
    while x < GAUGE_LOW
        invariant
            0 < x < 2 * GAUGE_LOW,
            doublings <= 64,
            x >= pow2(doublings as nat),
            lifted(x as nat, doublings as nat) == lifted(oxygen as nat, 0),
        decreases 2 * GAUGE_LOW - x,
    {
        proof {
            lemma2_to64();
            lemma_pow2_unfold((doublings + 1) as nat);
            assert(doublings != 64);
        }
        x = 2 * x;
        doublings = doublings + 1;
    }
    let whole: u128 = x / GAUGE_POINT;
    let rest: u128 = x % GAUGE_POINT;
    let nearest: u128 = if 2 * rest > GAUGE_POINT || (2 * rest == GAUGE_POINT && whole % 2 == 1) {
        whole + 1
    } else {
        whole
    };
    (160 - doublings) * 0x80_0000 + nearest as u32
}

/// A player as bytes: place, direction, lives, depth, air and score.
pub open spec fn player_bytes(p: Player) -> Seq<u8> {
    le_bytes(p.row as nat, 8) + le_bytes(p.col as nat, 8) + seq![direction_byte(p.facing)] + seq![p.lives]
        + le_bytes((p.row + 1) as nat, 8) + le_bytes(gauge_bits(p.oxygen) as nat, 4) + le_bytes(
        p.score as nat,
        8,
    )
}

/// Bombs as bytes: place and time left.
pub open spec fn bombs_bytes(bombs: Seq<Bomb>) -> Seq<u8>
    decreases bombs.len(),
{
    if bombs.len() == 0 {
        Seq::empty()
    } else {
        let b = bombs.last();
        bombs_bytes(bombs.drop_last()) + (le_bytes(b.pos.0 as nat, 8) + le_bytes(b.pos.1 as nat, 8) + le_bytes(
            b.remaining_ms as nat,
            4,
        ))
    }
}

/// Announced rocks as bytes: place and time left.
pub open spec fn rocks_bytes(rocks: Seq<IncomingRock>) -> Seq<u8>
    decreases rocks.len(),
{
    if rocks.len() == 0 {
        Seq::empty()
    } else {
        let b = rocks.last();
        rocks_bytes(rocks.drop_last()) + (le_bytes(b.pos.0 as nat, 8) + le_bytes(b.pos.1 as nat, 8) + le_bytes(
            b.remaining_ms as nat,
            4,
        ))
    }
}

/// The bytes of a world that its digest is taken of.
pub open spec fn world_bytes(w: World) -> Seq<u8> {
    rows_bytes(w.grid, w.grid.len()) + player_bytes(w.player) + bombs_bytes(w.bombs) + le_bytes(
        w.core.item_top_up_frontier_row as nat,
        8,
    ) + le_bytes(w.core.attack_power_pending as nat, 4) + le_bytes(
        w.core.incoming_attack_power as nat,
        4,
    ) + rocks_bytes(w.rocks)
}

/// The digest of a world.
pub open spec fn digest(w: World) -> u64 {
    fnv(FNV_OFFSET_BASIS, world_bytes(w))
}

/// Players whom a digest does not tell apart: they stand in the same place,
/// face the same way, and have the same lives, air and score.
pub open spec fn alike(p: Player, q: Player) -> bool {
    &&& p.row == q.row
    &&& p.col == q.col
    &&& p.facing == q.facing
    &&& p.lives == q.lives
    &&& p.oxygen == q.oxygen
    &&& p.score == q.score
}

/// The bombs lie in the same places, with the same time left.
pub open spec fn bombs_alike(a: Seq<Bomb>, b: Seq<Bomb>) -> bool {
    &&& a.len() == b.len()
    &&& forall|i: int|
        0 <= i < a.len() ==> (#[trigger] a[i]).pos == b[i].pos && a[i].remaining_ms == b[i].remaining_ms
}

/// The announced rocks are for the same places, with the same time left.
pub open spec fn rocks_alike(a: Seq<IncomingRock>, b: Seq<IncomingRock>) -> bool {
    &&& a.len() == b.len()
    &&& forall|i: int|
        0 <= i < a.len() ==> (#[trigger] a[i]).pos == b[i].pos && a[i].remaining_ms == b[i].remaining_ms
}

proof fn lemma_bombs_alike(a: Seq<Bomb>, b: Seq<Bomb>)
    requires
        bombs_alike(a, b),
    ensures
        bombs_bytes(a) == bombs_bytes(b),
    decreases a.len(),
{
    if a.len() > 0 {
        assert(a.last() == a[a.len() - 1]);
        assert(forall|i: int| 0 <= i < a.len() - 1 ==> #[trigger] a.drop_last()[i] == a[i]);
        lemma_bombs_alike(a.drop_last(), b.drop_last());
    }
}

proof fn lemma_rocks_alike(a: Seq<IncomingRock>, b: Seq<IncomingRock>)
    requires
        rocks_alike(a, b),
    ensures
        rocks_bytes(a) == rocks_bytes(b),
    decreases a.len(),
{
    if a.len() > 0 {
        assert(a.last() == a[a.len() - 1]);
        assert(forall|i: int| 0 <= i < a.len() - 1 ==> #[trigger] a.drop_last()[i] == a[i]);
        lemma_rocks_alike(a.drop_last(), b.drop_last());
    }
}

/// What is only to be seen, clocks, settings and gravity do not count for the
/// digest; nor does more of the player than place, direction, lives, air and
/// score, or more of bombs and announced rocks than place and time left.
pub proof fn law_digest_of_what_counts(a: World, b: World)
    requires
        a.grid == b.grid,
        alike(a.player, b.player),
        bombs_alike(a.bombs, b.bombs),
        rocks_alike(a.rocks, b.rocks),
        a.core.item_top_up_frontier_row == b.core.item_top_up_frontier_row,
        a.core.attack_power_pending == b.core.attack_power_pending,
        a.core.incoming_attack_power == b.core.incoming_attack_power,
    ensures
        digest(a) == digest(b),
{
    lemma_bombs_alike(a.bombs, b.bombs);
    lemma_rocks_alike(a.rocks, b.rocks);
}

impl Fnv1a64 {
    fn write_cell(&mut self, cell: Cell)
        ensures
            final(self).0 == fnv(old(self).0, cell_bytes(cell)),
    {
        let ghost h = self.0;
        match cell {
            Cell::Empty => self.write_u8(0),
            Cell::Color(color) => {
                let byte: u8 = match color {
                    ColorKind::Red => 0,
                    ColorKind::Blue => 1,
                    ColorKind::Green => 2,
                    ColorKind::Yellow => 3,
                };
                self.write_u8(1);
                self.write_u8(byte);
                proof {
                    lemma_fnv_parts(h, seq![1u8], seq![byte]);
                }
            },
            Cell::Rock { hits } => {
                self.write_u8(2);
                self.write_u8(hits);
                proof {
                    lemma_fnv_parts(h, seq![2u8], seq![hits]);
                }
            },
            Cell::Oxygen => self.write_u8(3),
            Cell::Diamond => self.write_u8(4),
            Cell::Star { visible_ms } => {
                self.write_u8(5);
                self.write_u32(visible_ms);
                proof {
                    lemma_fnv_parts(h, seq![5u8], le_bytes(visible_ms as nat, 4));
                }
            },
            Cell::Item(effect) => {
                let byte: u8 = match effect {
                    ItemEffect::ClearAbove => 0,
                    ItemEffect::UnifyColors => 1,
                    ItemEffect::StarifyScreen => 2,
                };
                self.write_u8(6);
                self.write_u8(byte);
                proof {
                    lemma_fnv_parts(h, seq![6u8], seq![byte]);
                }
            },
        }
    }

    fn write_player(&mut self, p: &Player)
        requires
            p.row < usize::MAX,
        ensures
            final(self).0 == fnv(old(self).0, player_bytes(*p)),
    {
        let ghost h = self.0;
        let byte: u8 = match p.facing {
            Direction::Up => 0,
            Direction::Down => 1,
            Direction::Left => 2,
            Direction::Right => 3,
        };
        self.write_usize(p.row);
        self.write_usize(p.col);
        self.write_u8(byte);
        self.write_u8(p.lives);
        self.write_usize(p.depth_m());
        let gauge: u32 = bits_of_gauge(p.oxygen);
        self.write_u32(gauge);
        self.write_u64(p.score);
        proof {
            let a = le_bytes(p.row as nat, 8);
            let b = a + le_bytes(p.col as nat, 8);
            let c = b + seq![byte];
            let d = c + seq![p.lives];
            let e = d + le_bytes((p.row + 1) as nat, 8);
            let f = e + le_bytes(gauge as nat, 4);
            lemma_fnv_parts(h, a, le_bytes(p.col as nat, 8));
            lemma_fnv_parts(h, b, seq![byte]);
            lemma_fnv_parts(h, c, seq![p.lives]);
            lemma_fnv_parts(h, d, le_bytes((p.row + 1) as nat, 8));
            lemma_fnv_parts(h, e, le_bytes(gauge as nat, 4));
            lemma_fnv_parts(h, f, le_bytes(p.score as nat, 8));
        }
    }

    /// Digests a place and a time.
    fn write_entry(&mut self, row: usize, col: usize, remaining_ms: u32)
        ensures
            final(self).0 == fnv(
                old(self).0,
                le_bytes(row as nat, 8) + le_bytes(col as nat, 8) + le_bytes(remaining_ms as nat, 4),
            ),
    {
        let ghost h = self.0;
        self.write_usize(row);
        self.write_usize(col);
        self.write_u32(remaining_ms);
        proof {
            let a = le_bytes(row as nat, 8);
            let b = le_bytes(col as nat, 8);
            lemma_fnv_parts(h, a, b);
            lemma_fnv_parts(h, a + b, le_bytes(remaining_ms as nat, 4));
        }
    }

    fn write_bombs(&mut self, bombs: &Vec<Bomb>)
        ensures
            final(self).0 == fnv(old(self).0, bombs_bytes(bombs@)),
    {
        let ghost h = self.0;
        let mut i: usize = 0;
        assert(bombs@.take(0) =~= Seq::<Bomb>::empty());
        while i < bombs.len()
            invariant
                i <= bombs@.len(),
                self.0 == fnv(h, bombs_bytes(bombs@.take(i as int))),
            decreases bombs@.len() - i,
        {
            let b: Bomb = bombs[i];
            proof {
                let t = bombs@.take(i + 1);
                assert(t.drop_last() =~= bombs@.take(i as int));
                assert(t.last() == b);
                lemma_fnv_parts(
                    h,
                    bombs_bytes(bombs@.take(i as int)),
                    le_bytes(b.pos.0 as nat, 8) + le_bytes(b.pos.1 as nat, 8) + le_bytes(
                        b.remaining_ms as nat,
                        4,
                    ),
                );
            }
            self.write_entry(b.pos.0, b.pos.1, b.remaining_ms);
            i = i + 1;
        }
        assert(bombs@.take(bombs@.len() as int) =~= bombs@);
    }

    fn write_rocks(&mut self, rocks: &Vec<IncomingRock>)
        ensures
            final(self).0 == fnv(old(self).0, rocks_bytes(rocks@)),
    {
        let ghost h = self.0;
        let mut i: usize = 0;
        assert(rocks@.take(0) =~= Seq::<IncomingRock>::empty());
        while i < rocks.len()
            invariant
                i <= rocks@.len(),
                self.0 == fnv(h, rocks_bytes(rocks@.take(i as int))),
            decreases rocks@.len() - i,
        {
            let b: IncomingRock = rocks[i];
            proof {
                let t = rocks@.take(i + 1);
                assert(t.drop_last() =~= rocks@.take(i as int));
                assert(t.last() == b);
                lemma_fnv_parts(
                    h,
                    rocks_bytes(rocks@.take(i as int)),
                    le_bytes(b.pos.0 as nat, 8) + le_bytes(b.pos.1 as nat, 8) + le_bytes(
                        b.remaining_ms as nat,
                        4,
                    ),
                );
            }
            self.write_entry(b.pos.0, b.pos.1, b.remaining_ms);
            i = i + 1;
        }
        assert(rocks@.take(rocks@.len() as int) =~= rocks@);
    }
}

impl Game {
    /// The digest of the game.
    pub fn state_hash(&self) -> (h: u64)
        requires
            self.wf(),
        ensures
            h == digest(self@),
    {
        let ghost g = self@.grid;
        let ghost basis = FNV_OFFSET_BASIS;
        let mut f = Fnv1a64::new();
        let n: usize = self.board.depth_rows();
        let w: usize = self.board.width();
        let mut r: usize = 0;
        while r < n
            invariant
                self.wf(),
                g == self@.grid,
                n == g.len(),
                w == self.board.width,
                r <= n,
                f.0 == fnv(FNV_OFFSET_BASIS, rows_bytes(g, r as nat)),
            decreases n - r,
        {
            let ghost upper = rows_bytes(g, r as nat);
            let ghost row = g[r as int];
            assert(row.len() == w);
            let mut c: usize = 0;
            assert(upper + row_bytes(row, 0) =~= upper);
            while c < w
                invariant
                    self.wf(),
                    g == self@.grid,
                    n == g.len(),
                    w == self.board.width,
                    r < n,
                    row == g[r as int],
                    c <= w,
                    f.0 == fnv(FNV_OFFSET_BASIS, upper + row_bytes(row, c as nat)),
                decreases w - c,
            {
                let cell: Cell = self.board.cell(r, c);
                proof {
                    lemma_fnv_parts(FNV_OFFSET_BASIS, upper + row_bytes(row, c as nat), cell_bytes(cell));
                    assert(upper + row_bytes(row, (c + 1) as nat) =~= upper + row_bytes(row, c as nat) + cell_bytes(
                        cell,
                    ));
                }
                f.write_cell(cell);
                c = c + 1;
            }
            r = r + 1;
        }
        f.write_player(&self.player);
        f.write_bombs(&self.bombs);
        f.write_usize(self.core.item_top_up_frontier_row);
        f.write_u32(self.core.attack_power_pending);
        f.write_u32(self.core.incoming_attack_power);
        f.write_rocks(&self.incoming_rocks);
        proof {
            let a = rows_bytes(g, g.len());
            let b = a + player_bytes(self.player);
            let c = b + bombs_bytes(self@.bombs);
            let d = c + le_bytes(self.core.item_top_up_frontier_row as nat, 8);
            let e = d + le_bytes(self.core.attack_power_pending as nat, 4);
            let i = e + le_bytes(self.core.incoming_attack_power as nat, 4);
            lemma_fnv_parts(basis, a, player_bytes(self.player));
            lemma_fnv_parts(basis, b, bombs_bytes(self@.bombs));
            lemma_fnv_parts(basis, c, le_bytes(self.core.item_top_up_frontier_row as nat, 8));
            lemma_fnv_parts(basis, d, le_bytes(self.core.attack_power_pending as nat, 4));
            lemma_fnv_parts(basis, e, le_bytes(self.core.incoming_attack_power as nat, 4));
            lemma_fnv_parts(basis, i, rocks_bytes(self@.rocks));
        }
        f.finish()
    }
}

} // verus!
