//! What is written down of a game, told from the outside: what a digest tells
//! apart, in which order cells are listed, what the settings of a match come
//! from, and what the result of a tick says.
use vstd::prelude::*;

use crate::agreement::{config_for_ai, config_of};
use crate::battle::match_settings;
use crate::board::{Cell, Grid, Pos};
use crate::bombs::{Bomb, IncomingRock};
use crate::bytes::{le_bytes, lemma_le_bytes_len};
use crate::fall::{blocks_moved, cells_vanished, colors_among, onto_player, rocks_among, Pull};
use crate::flood::Spot;
use crate::game::{fresh_world, World};
use crate::keys::{actions_of, bound_action, edit_action, edits_of, Key, KeyPress, TextEditAction};
use crate::listing::{addressable, listing, row_listing, rows_listing};
use crate::physics::{result_tells, GravityTickResult};
use crate::player::Player;
use crate::screens::cycled;
use crate::settings::{core_set, factory_settings, settings_rates, Settings};
use crate::state_hash::{
    bombs_bytes, cell_bytes, digest, fnv, fnv_step, gauge_bits, player_bytes, rocks_bytes, row_bytes,
    rows_bytes, world_bytes,
};

verus! {

/// Multiplying by the prime of the digest loses nothing: it has an inverse.
proof fn lemma_prime_keeps_apart(x: u64, y: u64)
    requires
        (x as nat * 0x100000001b3nat) % 0x1_0000_0000_0000_0000nat == (y as nat * 0x100000001b3nat)
            % 0x1_0000_0000_0000_0000nat,
    ensures
        x == y,
{
    let m = 0x1_0000_0000_0000_0000int;
    let p = 0x100000001b3int;
    let q = 14_886_173_955_864_302_971int;
    let k = 887_285_111_055int;
    assert(p * q == 1 + k * m);
    let d = x as int - y as int;
    let t = (x as int * p) / m - (y as int * p) / m;
    assert(d * p == m * t) by (nonlinear_arith)
        requires
            d == x as int - y as int,
            m > 0,
            t == (x as int * p) / m - (y as int * p) / m,
            (x as int * p) % m == (y as int * p) % m,
    ;
    let s = t * q - d * k;
    assert(d == m * s) by (nonlinear_arith)
        requires
            d * p == m * t,
            p * q == 1 + k * m,
            s == t * q - d * k,
    ;
    assert(s == 0) by (nonlinear_arith)
        requires
            d == m * s,
            -m < d < m,
            m > 0,
    ;
}

/// One byte more keeps two digests apart, and so do two bytes more of which one
/// differs from the other.
proof fn lemma_step_keeps_apart(h: u64, k: u64, a: u8, b: u8)
    ensures
        h != k ==> fnv_step(h, a) != fnv_step(k, a),
        a != b ==> fnv_step(h, a) != fnv_step(h, b),
{
    if fnv_step(h, a) == fnv_step(k, a) {
        lemma_prime_keeps_apart(h ^ (a as u64), k ^ (a as u64));
        let x = a as u64;
        assert((h ^ x) == (k ^ x) ==> h == k) by (bit_vector);
    }
    if fnv_step(h, a) == fnv_step(h, b) {
        lemma_prime_keeps_apart(h ^ (a as u64), h ^ (b as u64));
        assert((h ^ (a as u64)) == (h ^ (b as u64)) ==> a == b) by (bit_vector);
    }
}

/// A digest goes on from byte to byte: the byte is mixed in, and the sum is
/// multiplied by the prime, of which the lowest sixty-four bits stay. It starts
/// from a number that is not zero.
pub proof fn law_digests_mix(h: u64, bytes: Seq<u8>, byte: u8, w: World)
    ensures
        fnv(h, Seq::empty()) == h,
        fnv(h, bytes.push(byte)) == ((fnv(h, bytes) ^ (byte as u64)) * 1_099_511_628_211)
            % 18_446_744_073_709_551_616,
        digest(w) == fnv(14_695_981_039_346_656_037, world_bytes(w)),
{
    assert(bytes.push(byte).drop_last() =~= bytes);
}

/// What has come apart does not come together again: the same bytes after two
/// digests that differ give two digests that differ.
pub proof fn law_digests_stay_apart(h: u64, k: u64, bytes: Seq<u8>)
    requires
        h != k,
    ensures
        fnv(h, bytes) != fnv(k, bytes),
    decreases bytes.len(),
{
    if bytes.len() > 0 {
        law_digests_stay_apart(h, k, bytes.drop_last());
        lemma_step_keeps_apart(
            fnv(h, bytes.drop_last()),
            fnv(k, bytes.drop_last()),
            bytes.last(),
            bytes.last(),
        );
    }
}

/// Every byte counts: another byte in one place gives another digest.
pub proof fn law_every_byte_counts(h: u64, bytes: Seq<u8>, i: int, byte: u8)
    requires
        0 <= i < bytes.len(),
        byte != bytes[i],
    ensures
        fnv(h, bytes.update(i, byte)) != fnv(h, bytes),
    decreases bytes.len(),
{
    let other = bytes.update(i, byte);
    if i == bytes.len() - 1 {
        assert(other.drop_last() =~= bytes.drop_last());
        lemma_step_keeps_apart(fnv(h, bytes.drop_last()), 0, byte, bytes.last());
    } else {
        law_every_byte_counts(h, bytes.drop_last(), i, byte);
        assert(other.drop_last() =~= bytes.drop_last().update(i, byte));
        lemma_step_keeps_apart(
            fnv(h, other.drop_last()),
            fnv(h, bytes.drop_last()),
            bytes.last(),
            bytes.last(),
        );
    }
}

/// What is left of a number without its `n` lowest bytes.
spec fn without_bytes(x: nat, n: nat) -> nat
    decreases n,
{
    if n == 0 {
        x
    } else {
        without_bytes(x / 256, (n - 1) as nat)
    }
}

/// Bytes tell numbers apart that have no more of them.
proof fn lemma_numbers_apart(x: nat, y: nat, n: nat)
    requires
        le_bytes(x, n) == le_bytes(y, n),
        without_bytes(x, n) == without_bytes(y, n),
    ensures
        x == y,
    decreases n,
{
    if n > 0 {
        let a = le_bytes(x, n);
        let b = le_bytes(y, n);
        assert(a[0] == (x % 256) as u8 && b[0] == (y % 256) as u8);
        let m = (n - 1) as nat;
        assert(a.drop_first() =~= le_bytes(x / 256, m));
        assert(b.drop_first() =~= le_bytes(y / 256, m));
        lemma_numbers_apart(x / 256, y / 256, m);
    }
}

proof fn lemma_eight_bytes(x: u64, y: u64)
    requires
        le_bytes(x as nat, 8) == le_bytes(y as nat, 8),
    ensures
        x == y,
{
    reveal_with_fuel(without_bytes, 9);
    lemma_numbers_apart(x as nat, y as nat, 8);
}

proof fn lemma_four_bytes(x: u32, y: u32)
    requires
        le_bytes(x as nat, 4) == le_bytes(y as nat, 4),
    ensures
        x == y,
{
    reveal_with_fuel(without_bytes, 5);
    lemma_numbers_apart(x as nat, y as nat, 4);
}

/// Two byte strings that begin with parts of the same length.
proof fn lemma_parts(a: Seq<u8>, s: Seq<u8>, b: Seq<u8>, t: Seq<u8>)
    requires
        a + s == b + t,
        a.len() == b.len(),
    ensures
        a == b,
        s == t,
{
    assert(a =~= (a + s).take(a.len() as int));
    assert(b =~= (b + t).take(a.len() as int));
    assert(s =~= (a + s).skip(a.len() as int));
    assert(t =~= (b + t).skip(a.len() as int));
}

/// The bytes of a cell tell what it holds and where the next one begins.
proof fn lemma_cells_apart(a: Cell, s: Seq<u8>, b: Cell, t: Seq<u8>)
    requires
        cell_bytes(a) + s == cell_bytes(b) + t,
    ensures
        a == b,
        s == t,
{
    let x = cell_bytes(a);
    let y = cell_bytes(b);
    assert(forall|n: nat| le_bytes(n, 4).len() == 4) by {
        assert forall|n: nat| le_bytes(n, 4).len() == 4 by {
            lemma_le_bytes_len(n, 4);
        }
    }
    assert((x + s)[0] == x[0] && (y + t)[0] == y[0]);
    assert(x.len() == y.len());
    lemma_parts(x, s, y, t);
    if x.len() == 2 {
        assert(x[1] == y[1]);
    }
    match (a, b) {
        (Cell::Star { visible_ms: u }, Cell::Star { visible_ms: v }) => {
            assert(x.drop_first() =~= le_bytes(u as nat, 4));
            assert(y.drop_first() =~= le_bytes(v as nat, 4));
            lemma_four_bytes(u, v);
        },
        _ => {},
    }
}

proof fn lemma_rows_of_cells_apart(a: Seq<Cell>, s: Seq<u8>, b: Seq<Cell>, t: Seq<u8>, c: nat)
    requires
        row_bytes(a, c) + s == row_bytes(b, c) + t,
    ensures
        forall|i: int| 0 <= i < c ==> a[i] == b[i],
        s == t,
    decreases c,
{
    if c == 0 {
        assert(row_bytes(a, c) + s =~= s);
        assert(row_bytes(b, c) + t =~= t);
    } else {
        let d = (c - 1) as nat;
        let x = cell_bytes(a[c - 1]);
        let y = cell_bytes(b[c - 1]);
        assert(row_bytes(a, c) + s =~= row_bytes(a, d) + (x + s));
        assert(row_bytes(b, c) + t =~= row_bytes(b, d) + (y + t));
        lemma_rows_of_cells_apart(a, x + s, b, y + t, d);
        lemma_cells_apart(a[c - 1], s, b[c - 1], t);
    }
}

proof fn lemma_fields_apart(a: Grid, s: Seq<u8>, b: Grid, t: Seq<u8>, r: nat)
    requires
        forall|i: int| 0 <= i < r ==> (#[trigger] a[i]).len() == b[i].len(),
        rows_bytes(a, r) + s == rows_bytes(b, r) + t,
    ensures
        forall|i: int| 0 <= i < r ==> a[i] == b[i],
        s == t,
    decreases r,
{
    if r == 0 {
        assert(rows_bytes(a, r) + s =~= s);
        assert(rows_bytes(b, r) + t =~= t);
    } else {
        let q = (r - 1) as nat;
        let x = row_bytes(a[r - 1], a[r - 1].len());
        let y = row_bytes(b[r - 1], b[r - 1].len());
        assert(rows_bytes(a, r) + s =~= rows_bytes(a, q) + (x + s));
        assert(rows_bytes(b, r) + t =~= rows_bytes(b, q) + (y + t));
        lemma_fields_apart(a, x + s, b, y + t, q);
        assert(a[r - 1].len() == b[r - 1].len());
        lemma_rows_of_cells_apart(a[r - 1], s, b[r - 1], t, a[r - 1].len());
        assert(a[r - 1] =~= b[r - 1]);
    }
}

proof fn lemma_players_apart(p: Player, q: Player)
    requires
        player_bytes(p) == player_bytes(q),
    ensures
        p.row == q.row,
        p.col == q.col,
        p.facing == q.facing,
        p.lives == q.lives,
        le_bytes(gauge_bits(p.oxygen) as nat, 4) == le_bytes(gauge_bits(q.oxygen) as nat, 4),
        p.score == q.score,
{
    let x = player_bytes(p);
    let y = player_bytes(q);
    lemma_le_bytes_len(p.row as nat, 8);
    lemma_le_bytes_len(p.col as nat, 8);
    lemma_le_bytes_len((p.row + 1) as nat, 8);
    lemma_le_bytes_len(gauge_bits(p.oxygen) as nat, 4);
    lemma_le_bytes_len(p.score as nat, 8);
    lemma_le_bytes_len(q.row as nat, 8);
    lemma_le_bytes_len(q.col as nat, 8);
    lemma_le_bytes_len((q.row + 1) as nat, 8);
    lemma_le_bytes_len(gauge_bits(q.oxygen) as nat, 4);
    lemma_le_bytes_len(q.score as nat, 8);
    assert(x.subrange(0, 8) =~= le_bytes(p.row as nat, 8));
    assert(y.subrange(0, 8) =~= le_bytes(q.row as nat, 8));
    lemma_eight_bytes(p.row as u64, q.row as u64);
    assert(x.subrange(8, 16) =~= le_bytes(p.col as nat, 8));
    assert(y.subrange(8, 16) =~= le_bytes(q.col as nat, 8));
    lemma_eight_bytes(p.col as u64, q.col as u64);
    assert(x[16] == y[16]);
    assert(x[17] == p.lives && y[17] == q.lives);
    assert(x.subrange(26, 30) =~= le_bytes(gauge_bits(p.oxygen) as nat, 4));
    assert(y.subrange(26, 30) =~= le_bytes(gauge_bits(q.oxygen) as nat, 4));
    assert(x.subrange(30, 38) =~= le_bytes(p.score as nat, 8));
    assert(y.subrange(30, 38) =~= le_bytes(q.score as nat, 8));
    lemma_eight_bytes(p.score as u64, q.score as u64);
}

/// A place and a time as bytes.
spec fn mark_bytes(pos: Pos, left_ms: u32) -> Seq<u8> {
    le_bytes(pos.0 as nat, 8) + le_bytes(pos.1 as nat, 8) + le_bytes(left_ms as nat, 4)
}

proof fn lemma_marks_apart(p: Pos, x: u32, s: Seq<u8>, q: Pos, y: u32, t: Seq<u8>)
    requires
        mark_bytes(p, x) + s == mark_bytes(q, y) + t,
    ensures
        p == q,
        x == y,
        s == t,
{
    lemma_le_bytes_len(p.0 as nat, 8);
    lemma_le_bytes_len(p.1 as nat, 8);
    lemma_le_bytes_len(x as nat, 4);
    lemma_le_bytes_len(q.0 as nat, 8);
    lemma_le_bytes_len(q.1 as nat, 8);
    lemma_le_bytes_len(y as nat, 4);
    let a = mark_bytes(p, x);
    let b = mark_bytes(q, y);
    lemma_parts(a, s, b, t);
    assert(a.subrange(0, 8) =~= le_bytes(p.0 as nat, 8));
    assert(b.subrange(0, 8) =~= le_bytes(q.0 as nat, 8));
    lemma_eight_bytes(p.0 as u64, q.0 as u64);
    assert(a.subrange(8, 16) =~= le_bytes(p.1 as nat, 8));
    assert(b.subrange(8, 16) =~= le_bytes(q.1 as nat, 8));
    lemma_eight_bytes(p.1 as u64, q.1 as u64);
    assert(a.subrange(16, 20) =~= le_bytes(x as nat, 4));
    assert(b.subrange(16, 20) =~= le_bytes(y as nat, 4));
    lemma_four_bytes(x, y);
}

proof fn lemma_bombs_apart(a: Seq<Bomb>, s: Seq<u8>, b: Seq<Bomb>, t: Seq<u8>)
    requires
        a.len() == b.len(),
        bombs_bytes(a) + s == bombs_bytes(b) + t,
    ensures
        forall|i: int|
            0 <= i < a.len() ==> (#[trigger] a[i]).pos == b[i].pos && a[i].remaining_ms == b[i].remaining_ms,
        s == t,
    decreases a.len(),
{
    if a.len() == 0 {
        assert(bombs_bytes(a) + s =~= s);
        assert(bombs_bytes(b) + t =~= t);
    } else {
        let x = mark_bytes(a.last().pos, a.last().remaining_ms);
        let y = mark_bytes(b.last().pos, b.last().remaining_ms);
        assert(bombs_bytes(a) + s =~= bombs_bytes(a.drop_last()) + (x + s));
        assert(bombs_bytes(b) + t =~= bombs_bytes(b.drop_last()) + (y + t));
        lemma_bombs_apart(a.drop_last(), x + s, b.drop_last(), y + t);
        lemma_marks_apart(a.last().pos, a.last().remaining_ms, s, b.last().pos, b.last().remaining_ms, t);
        assert forall|i: int| 0 <= i < a.len() implies (#[trigger] a[i]).pos == b[i].pos
            && a[i].remaining_ms == b[i].remaining_ms by {
            if i < a.len() - 1 {
                assert(a.drop_last()[i] == a[i] && b.drop_last()[i] == b[i]);
            }
        }
    }
}

proof fn lemma_rocks_apart(a: Seq<IncomingRock>, b: Seq<IncomingRock>)
    requires
        rocks_bytes(a) == rocks_bytes(b),
    ensures
        a == b,
    decreases a.len(),
{
    lemma_rocks_len(a);
    lemma_rocks_len(b);
    if a.len() == 0 {
        assert(a =~= b);
    } else {
        let x = mark_bytes(a.last().pos, a.last().remaining_ms);
        let y = mark_bytes(b.last().pos, b.last().remaining_ms);
        lemma_rocks_len(a.drop_last());
        lemma_rocks_len(b.drop_last());
        lemma_parts(rocks_bytes(a.drop_last()), x, rocks_bytes(b.drop_last()), y);
        lemma_rocks_apart(a.drop_last(), b.drop_last());
        lemma_marks_apart(
            a.last().pos,
            a.last().remaining_ms,
            Seq::empty(),
            b.last().pos,
            b.last().remaining_ms,
            Seq::empty(),
        );
        assert(a =~= a.drop_last().push(a.last()));
        assert(b =~= b.drop_last().push(b.last()));
    }
}

/// Twenty bytes stand for an announced rock.
proof fn lemma_rocks_len(a: Seq<IncomingRock>)
    ensures
        rocks_bytes(a).len() == 20 * a.len(),
    decreases a.len(),
{
    if a.len() > 0 {
        lemma_rocks_len(a.drop_last());
        lemma_le_bytes_len(a.last().pos.0 as nat, 8);
        lemma_le_bytes_len(a.last().pos.1 as nat, 8);
        lemma_le_bytes_len(a.last().remaining_ms as nat, 4);
    }
}

/// What the digest reads tells games apart: if it reads the same of two games
/// with fields of the same size and as many bombs, then the fields hold the
/// same, the players stand in the same place, face the same way and have the
/// same lives and score, the bombs and the announced rocks are for the same
/// places at the same time, and the same attacks are under way.
pub proof fn law_what_the_digest_reads(a: World, b: World)
    requires
        world_bytes(a) == world_bytes(b),
        a.grid.len() == b.grid.len(),
        forall|r: int| 0 <= r < a.grid.len() ==> (#[trigger] a.grid[r]).len() == b.grid[r].len(),
        a.bombs.len() == b.bombs.len(),
    ensures
        a.grid == b.grid,
        a.player.row == b.player.row && a.player.col == b.player.col,
        a.player.facing == b.player.facing,
        a.player.lives == b.player.lives,
        a.player.score == b.player.score,
        forall|i: int|
            0 <= i < a.bombs.len() ==> (#[trigger] a.bombs[i]).pos == b.bombs[i].pos
                && a.bombs[i].remaining_ms == b.bombs[i].remaining_ms,
        a.rocks == b.rocks,
        a.core.item_top_up_frontier_row == b.core.item_top_up_frontier_row,
        a.core.attack_power_pending == b.core.attack_power_pending,
        a.core.incoming_attack_power == b.core.incoming_attack_power,
{
    lemma_le_bytes_len(a.core.item_top_up_frontier_row as nat, 8);
    lemma_le_bytes_len(b.core.item_top_up_frontier_row as nat, 8);
    lemma_le_bytes_len(a.core.attack_power_pending as nat, 4);
    lemma_le_bytes_len(b.core.attack_power_pending as nat, 4);
    lemma_le_bytes_len(a.core.incoming_attack_power as nat, 4);
    lemma_le_bytes_len(b.core.incoming_attack_power as nat, 4);
    lemma_player_len(a.player);
    lemma_player_len(b.player);
    let s3 = le_bytes(a.core.incoming_attack_power as nat, 4) + rocks_bytes(a.rocks);
    let t3 = le_bytes(b.core.incoming_attack_power as nat, 4) + rocks_bytes(b.rocks);
    let s2 = le_bytes(a.core.attack_power_pending as nat, 4) + s3;
    let t2 = le_bytes(b.core.attack_power_pending as nat, 4) + t3;
    let s1 = le_bytes(a.core.item_top_up_frontier_row as nat, 8) + s2;
    let t1 = le_bytes(b.core.item_top_up_frontier_row as nat, 8) + t2;
    let s0 = bombs_bytes(a.bombs) + s1;
    let t0 = bombs_bytes(b.bombs) + t1;
    assert(world_bytes(a) =~= rows_bytes(a.grid, a.grid.len()) + (player_bytes(a.player) + s0));
    assert(world_bytes(b) =~= rows_bytes(b.grid, b.grid.len()) + (player_bytes(b.player) + t0));
    lemma_fields_apart(
        a.grid,
        player_bytes(a.player) + s0,
        b.grid,
        player_bytes(b.player) + t0,
        a.grid.len(),
    );
    assert(a.grid =~= b.grid);
    lemma_parts(player_bytes(a.player), s0, player_bytes(b.player), t0);
    lemma_players_apart(a.player, b.player);
    lemma_bombs_apart(a.bombs, s1, b.bombs, t1);
    lemma_parts(
        le_bytes(a.core.item_top_up_frontier_row as nat, 8),
        s2,
        le_bytes(b.core.item_top_up_frontier_row as nat, 8),
        t2,
    );
    lemma_eight_bytes(a.core.item_top_up_frontier_row as u64, b.core.item_top_up_frontier_row as u64);
    lemma_parts(
        le_bytes(a.core.attack_power_pending as nat, 4),
        s3,
        le_bytes(b.core.attack_power_pending as nat, 4),
        t3,
    );
    lemma_four_bytes(a.core.attack_power_pending, b.core.attack_power_pending);
    lemma_parts(
        le_bytes(a.core.incoming_attack_power as nat, 4),
        rocks_bytes(a.rocks),
        le_bytes(b.core.incoming_attack_power as nat, 4),
        rocks_bytes(b.rocks),
    );
    lemma_four_bytes(a.core.incoming_attack_power, b.core.incoming_attack_power);
    lemma_rocks_apart(a.rocks, b.rocks);
}

proof fn lemma_player_len(p: Player)
    ensures
        player_bytes(p).len() == 38,
{
    lemma_le_bytes_len(p.row as nat, 8);
    lemma_le_bytes_len(p.col as nat, 8);
    lemma_le_bytes_len((p.row + 1) as nat, 8);
    lemma_le_bytes_len(gauge_bits(p.oxygen) as nat, 4);
    lemma_le_bytes_len(p.score as nat, 8);
}

proof fn lemma_row_in_order(s: Set<Spot>, r: int, c: nat)
    requires
        0 <= r <= usize::MAX,
        c <= usize::MAX,
    ensures
        forall|i: int|
            0 <= i < row_listing(s, r, c).len() ==> {
                let p = #[trigger] row_listing(s, r, c)[i];
                p.0 == r && p.1 < c
            },
        forall|i: int, j: int|
            0 <= i < j < row_listing(s, r, c).len() ==> (#[trigger] row_listing(s, r, c)[i]).1 < (
            #[trigger] row_listing(s, r, c)[j]).1,
    decreases c,
{
    if c > 0 {
        let d = (c - 1) as nat;
        lemma_row_in_order(s, r, d);
        let rest = row_listing(s, r, d);
        let all = row_listing(s, r, c);
        assert forall|i: int| 0 <= i < all.len() implies {
            let p = #[trigger] all[i];
            p.0 == r && p.1 < c
        } by {
            if i < rest.len() {
                assert(all[i] == rest[i]);
            }
        }
        assert forall|i: int, j: int| 0 <= i < j < all.len() implies (#[trigger] all[i]).1 < (
        #[trigger] all[j]).1 by {
            assert(all[i] == rest[i]);
            if j < rest.len() {
                assert(all[j] == rest[j]);
            }
        }
    }
}

proof fn lemma_rows_in_order(g: Grid, s: Set<Spot>, r: nat)
    requires
        addressable(g),
        r <= g.len(),
    ensures
        forall|i: int| 0 <= i < rows_listing(g, s, r).len() ==> (#[trigger] rows_listing(g, s, r)[i]).0 < r,
        forall|i: int, j: int|
            0 <= i < j < rows_listing(g, s, r).len() ==> before(
                #[trigger] rows_listing(g, s, r)[i],
                #[trigger] rows_listing(g, s, r)[j],
            ),
    decreases r,
{
    if r > 0 {
        let q = (r - 1) as nat;
        lemma_rows_in_order(g, s, q);
        lemma_row_in_order(s, q as int, g[q as int].len());
        let up = rows_listing(g, s, q);
        let row = row_listing(s, q as int, g[q as int].len());
        let all = rows_listing(g, s, r);
        assert(all == up + row);
        assert forall|i: int| 0 <= i < all.len() implies (#[trigger] all[i]).0 < r by {
            if i < up.len() {
                assert(all[i] == up[i]);
            } else {
                assert(all[i] == row[i - up.len()]);
            }
        }
        assert forall|i: int, j: int| 0 <= i < j < all.len() implies before(
            #[trigger] all[i],
            #[trigger] all[j],
        ) by {
            if j < up.len() {
                assert(all[i] == up[i] && all[j] == up[j]);
            } else if i < up.len() {
                assert(all[i] == up[i] && all[j] == row[j - up.len()]);
            } else {
                assert(all[i] == row[i - up.len()] && all[j] == row[j - up.len()]);
            }
        }
    }
}

/// A cell comes before another on a page that is read row by row.
pub open spec fn before(a: Pos, b: Pos) -> bool {
    a.0 < b.0 || (a.0 == b.0 && a.1 < b.1)
}

/// Cells are listed as one reads: row by row from the top, and each row from
/// left to right.
pub proof fn law_cells_are_listed_as_one_reads(g: Grid, s: Set<Spot>, i: int, j: int)
    requires
        addressable(g),
        0 <= i < j < listing(g, s).len(),
    ensures
        before(listing(g, s)[i], listing(g, s)[j]),
{
    lemma_rows_in_order(g, s, g.len());
}

/// A host lays down for a match what the settings say: everyone then plays by
/// the settings of the host, on the course that was chosen.
pub proof fn law_hosts_set_the_rules(s: Settings, depth_goal_m: usize)
    requires
        s.field_width <= u32::MAX,
        depth_goal_m <= u32::MAX,
    ensures
        ({
            let config = config_of(s, depth_goal_m);
            let m = match_settings(config);
            &&& config.depth_goal_m == depth_goal_m
            &&& m.field_width == s.field_width
            &&& settings_rates(m) == settings_rates(s)
            &&& m.bomb_spawn_rate_percent == s.bomb_spawn_rate_percent
            &&& m.bomb_fuse_ms == s.bomb_fuse_ms
            &&& m.attack_blocks_per_rock == s.attack_blocks_per_rock
            &&& m.attack_rocks_per_wave_max == s.attack_rocks_per_wave_max
            &&& config.attack_blocks_per_bomb == s.attack_blocks_per_bomb
            &&& config.attack_bombs_per_wave_max == s.attack_bombs_per_wave_max
            &&& config.attack_bomb_ratio_percent == s.attack_bomb_ratio_percent
            &&& m.block_fall_tick_ms == s.block_fall_tick_ms
            &&& m.player_fall_tick_ms == s.player_fall_tick_ms
            &&& m.shake_duration_ms == s.shake_duration_ms
            &&& m.move_cooldown_ms == s.move_cooldown_ms
            &&& m.dodge_recovery_ms == s.dodge_recovery_ms
            &&& m.chain_vanish_interval_ms == s.chain_vanish_interval_ms
        }),
{
}

/// Computer players play by the values of the host that are meant for them; the
/// field, the goal and the reaction times are those of the people.
pub proof fn law_computers_have_their_own_rules(s: Settings, depth_goal_m: usize)
    requires
        s.field_width <= u32::MAX,
        depth_goal_m <= u32::MAX,
    ensures
        ({
            let config = config_for_ai(config_of(s, depth_goal_m));
            let m = match_settings(config);
            &&& config.depth_goal_m == depth_goal_m
            &&& m.field_width == s.field_width
            &&& m.rock_spawn_rate_percent == s.ai_rock_spawn_rate_percent
            &&& m.air_spawn_rate_percent == s.ai_air_spawn_rate_percent
            &&& m.star_spawn_rate_percent == s.ai_star_spawn_rate_percent
            &&& m.diamond_spawn_rate_percent == s.ai_diamond_spawn_rate_percent
            &&& m.item_clear_above_rate_percent == s.ai_item_clear_above_rate_percent
            &&& m.item_unify_colors_rate_percent == s.ai_item_unify_colors_rate_percent
            &&& m.item_starify_screen_rate_percent == s.ai_item_starify_screen_rate_percent
            &&& m.color_count == s.ai_color_count
            &&& m.color_cluster_rate_percent == s.ai_color_cluster_rate_percent
            &&& m.bomb_spawn_rate_percent == s.ai_bomb_spawn_rate_percent
            &&& m.bomb_fuse_ms == s.ai_bomb_fuse_ms
            &&& m.attack_blocks_per_rock == s.ai_attack_blocks_per_rock
            &&& m.attack_rocks_per_wave_max == s.ai_attack_rocks_per_wave_max
            &&& config.attack_blocks_per_bomb == s.ai_attack_blocks_per_bomb
            &&& config.attack_bombs_per_wave_max == s.ai_attack_bombs_per_wave_max
            &&& config.attack_bomb_ratio_percent == s.ai_attack_bomb_ratio_percent
            &&& m.block_fall_tick_ms == s.ai_block_fall_tick_ms
            &&& m.player_fall_tick_ms == s.ai_player_fall_tick_ms
            &&& m.shake_duration_ms == s.ai_shake_duration_ms
            &&& m.move_cooldown_ms == s.move_cooldown_ms
            &&& m.dodge_recovery_ms == s.dodge_recovery_ms
            &&& m.chain_vanish_interval_ms == s.ai_chain_vanish_interval_ms
        }),
{
}

/// The settings before anything is changed leave a new game as it is, and ask
/// for every kind of block at its usual rate, in four colours. The field is
/// twelve columns wide, and everything can be heard.
pub proof fn law_the_first_settings(seed: u64, lives: u8, width: usize, depth_goal_m: usize)
    ensures
        ({
            let s = factory_settings();
            let fresh = fresh_world(seed, lives, width, depth_goal_m);
            let rates = settings_rates(s);
            &&& core_set(fresh.core, s) == fresh.core
            &&& rates.rock == 100 && rates.air == 100 && rates.star == 100 && rates.diamond == 100
            &&& rates.item_clear_above == 100 && rates.item_unify_colors == 100
            &&& rates.item_starify_screen == 100 && rates.color_cluster == 100
            &&& rates.color_count == 4
            &&& s.field_width == 12 && s.last_course_depth_m == 1000 && s.rewind_stock_max == 5
            &&& s.music_enabled && s.music_volume_percent == 50 && s.se_enabled && !s.debug_log_enabled
        }),
{
}

/// The settings before anything is changed treat people and computer players
/// alike.
pub proof fn law_the_first_match_is_fair(depth_goal_m: usize)
    ensures
        ({
            let config = config_of(factory_settings(), depth_goal_m);
            config_for_ai(config) == config
        }),
{
}

/// In a ring of pieces of music one goes on to the next, and from the last to
/// the first; or back to the one before, and from the first to the last.
pub proof fn law_music_goes_round(selection: int, len: int)
    requires
        0 <= selection < len,
    ensures
        selection + 1 < len ==> cycled(selection, len, true) == selection + 1,
        selection + 1 == len ==> cycled(selection, len, true) == 0,
        selection > 0 ==> cycled(selection, len, false) == selection - 1,
        selection == 0 ==> cycled(selection, len, false) == len - 1,
{
    if selection + 1 < len {
        assert((selection + 1) % len == selection + 1) by (nonlinear_arith)
            requires
                0 <= selection,
                selection + 1 < len,
        ;
    } else {
        assert(len % len == 0) by (nonlinear_arith)
            requires
                len > 0,
        ;
    }
}

/// Keys are taken in the order in which they were pressed, each for what it
/// stands for, and none is lost.
pub proof fn law_keys_in_order(keys: Seq<Key>, more: Seq<Key>, i: int)
    requires
        0 <= i < keys.len(),
    ensures
        actions_of(keys).len() == keys.len(),
        actions_of(keys)[i] == bound_action(keys[i]),
        actions_of(keys + more) == actions_of(keys) + actions_of(more),
{
    assert(actions_of(keys + more) =~= actions_of(keys) + actions_of(more));
}

/// Edits are made in the order in which the keys were pressed: a press that is
/// an edit counts once, and one that is none is passed over.
pub proof fn law_edits_in_order(presses: Seq<KeyPress>, more: Seq<KeyPress>, press: KeyPress)
    ensures
        edits_of(seq![press]) == (match edit_action(press) {
            Some(edit) => seq![edit],
            None => Seq::<TextEditAction>::empty(),
        }),
        edits_of(presses + more) == edits_of(presses) + edits_of(more),
    decreases more.len(),
{
    let one = seq![press];
    assert(one.drop_last() =~= Seq::<KeyPress>::empty());
    assert(edits_of(one.drop_last()) =~= Seq::<TextEditAction>::empty());
    assert(Seq::<TextEditAction>::empty().push(press_edit(press)) =~= seq![press_edit(press)]);
    if more.len() == 0 {
        assert(presses + more =~= presses);
        assert(edits_of(presses) + edits_of(more) =~= edits_of(presses));
    } else {
        assert((presses + more).drop_last() =~= presses + more.drop_last());
        law_edits_in_order(presses, more.drop_last(), press);
        match edit_action(more.last()) {
            Some(edit) => {
                assert((edits_of(presses) + edits_of(more.drop_last())).push(edit) =~= edits_of(presses)
                    + edits_of(more.drop_last()).push(edit));
            },
            None => {},
        }
    }
}

/// The edit that a press stands for.
spec fn press_edit(press: KeyPress) -> TextEditAction {
    edit_action(press)->0
}

/// The result of a tick of gravity says what came down on the player: air is
/// one capsule, an item is that item, and anything else costs a life unless the
/// player cannot be hurt. It also says what moved and what vanished.
pub proof fn law_results_tell(r: GravityTickResult, g: Grid, pull: Pull, safe: bool)
    requires
        result_tells(r, g, pull, safe),
    ensures
        r.moved_cells@ == blocks_moved(g, pull),
        r.vanished_cells@ == cells_vanished(g, pull),
        r.auto_vanished_blocks == colors_among(r.vanished_cells@),
        r.auto_vanished_rock_blocks == rocks_among(r.vanished_cells@),
        onto_player(g, pull) is None ==> !r.life_lost_to_crush && r.oxygen_collected == 0
            && r.items_collected@.len() == 0,
        onto_player(g, pull) == Some(Cell::Oxygen) ==> !r.life_lost_to_crush && r.oxygen_collected == 1
            && r.items_collected@.len() == 0,
        onto_player(g, pull) matches Some(Cell::Item(effect)) ==> !r.life_lost_to_crush
            && r.oxygen_collected == 0 && r.items_collected@ == seq![effect],
        onto_player(g, pull) matches Some(cell) && !(cell is Oxygen || cell is Item)
            ==> r.life_lost_to_crush == !safe && r.oxygen_collected == 0 && r.items_collected@.len() == 0,
{
}

/// The record of the field reaches from twelve rows above the player to twenty
/// rows below, and leaves out nothing there but what is empty.
pub proof fn law_what_is_recorded(w: World, r: int, cell: Cell)
    requires
        0 <= r < w.grid.len() <= usize::MAX,
        w.player.row < w.grid.len(),
    ensures
        w.recorded_rows().takes(r, cell) <==> w.player.row - 12 <= r <= w.player.row + 20
            && cell != Cell::Empty,
{
}

} // verus!
