//! What is left to be seen of blocks that are gone: the flash of a vanished
//! block, and the fire of an explosion. Times are in nanoseconds.
use vstd::prelude::*;

use crate::board::{Cell, Pos};
use crate::constants::{least, minus};
use crate::flood::{adjacent, spot};

verus! {

/// The flash of one vanished block. A block that vanished while others were
/// still falling waits for them to arrive before it flashes.
#[derive(Debug, Clone, Copy, PartialEq, Eq)]
pub struct VanishedCell {
    pub pos: Pos,
    /// What the cell held, and is drawn as while it waits.
    pub kind: Cell,
    /// Time until the flash begins.
    pub delay: u64,
    /// Time that the flash still lasts, once it has begun.
    pub remaining: u64,
    /// The length of the whole flash.
    pub total: u64,
}

/// The fire of an explosion in one cell.
#[derive(Debug, Clone, Copy, PartialEq, Eq)]
pub struct Blaze {
    pub pos: Pos,
    pub remaining: u64,
    /// How far from the centre of the explosion the cell is.
    pub distance: u8,
}

/// A flash after some time: first the wait is used up, then the flash itself.
pub open spec fn flashed(v: VanishedCell, delta: u64) -> VanishedCell {
    VanishedCell {
        delay: minus(v.delay as int, delta as int) as u64,
        remaining: minus(v.remaining as int, minus(delta as int, v.delay as int)) as u64,
        ..v
    }
}

/// There is still something to be seen.
pub open spec fn lasts(v: VanishedCell) -> bool {
    v.delay > 0 || v.remaining > 0
}

/// The flashes that are left after some time.
pub open spec fn flashes_after(list: Seq<VanishedCell>, delta: u64) -> Seq<VanishedCell>
    decreases list.len(),
{
    if list.len() == 0 {
        Seq::empty()
    } else {
        let rest = flashes_after(list.drop_last(), delta);
        let v = flashed(list.last(), delta);
        if lasts(v) {
            rest.push(v)
        } else {
            rest
        }
    }
}

/// `a - b`, or zero where that is negative.
pub fn subtract(a: u64, b: u64) -> (r: u64)
    ensures
        r == minus(a as int, b as int),
{
    if a > b {
        a - b
    } else {
        0
    }
}

/// The flashes that are left after some time.
pub fn run_flashes(list: &Vec<VanishedCell>, delta: u64) -> (left: Vec<VanishedCell>)
    ensures
        left@ == flashes_after(list@, delta),
{
    let mut left: Vec<VanishedCell> = Vec::new();
    let mut i: usize = 0;
    assert(list@.take(0) =~= Seq::<VanishedCell>::empty());
    while i < list.len()
        invariant
            i <= list@.len(),
            left@ == flashes_after(list@.take(i as int), delta),
        decreases list@.len() - i,
    {
        proof {
            let t = list@.take(i + 1);
            assert(t.drop_last() =~= list@.take(i as int));
            assert(t.last() == list@[i as int]);
        }
        let v: VanishedCell = list[i];
        let rest: u64 = subtract(delta, v.delay);
        let after = VanishedCell {
            delay: subtract(v.delay, delta),
            remaining: subtract(v.remaining, rest),
            ..v
        };
        if after.delay > 0 || after.remaining > 0 {
            left.push(after);
        }
        i = i + 1;
    }
    assert(list@.take(list@.len() as int) =~= list@);
    left
}

/// The fires that are left after some time.
pub open spec fn blazes_after(list: Seq<Blaze>, delta: u64) -> Seq<Blaze>
    decreases list.len(),
{
    if list.len() == 0 {
        Seq::empty()
    } else {
        let rest = blazes_after(list.drop_last(), delta);
        let b = list.last();
        if b.remaining > delta {
            rest.push(Blaze { remaining: (b.remaining - delta) as u64, ..b })
        } else {
            rest
        }
    }
}

/// The fires that are left after some time.
pub fn run_blazes(list: &Vec<Blaze>, delta: u64) -> (left: Vec<Blaze>)
    ensures
        left@ == blazes_after(list@, delta),
{
    let mut left: Vec<Blaze> = Vec::new();
    let mut i: usize = 0;
    assert(list@.take(0) =~= Seq::<Blaze>::empty());
    while i < list.len()
        invariant
            i <= list@.len(),
            left@ == blazes_after(list@.take(i as int), delta),
        decreases list@.len() - i,
    {
        proof {
            let t = list@.take(i + 1);
            assert(t.drop_last() =~= list@.take(i as int));
            assert(t.last() == list@[i as int]);
        }
        let b: Blaze = list[i];
        if b.remaining > delta {
            left.push(Blaze { remaining: b.remaining - delta, ..b });
        }
        i = i + 1;
    }
    assert(list@.take(list@.len() as int) =~= list@);
    left
}

/// Entry `i` is the first of its cell that flashes already.
pub open spec fn first_lit(list: Seq<VanishedCell>, i: int) -> bool {
    &&& list[i].delay == 0
    &&& forall|j: int| 0 <= j < i ==> !((#[trigger] list[j]).delay == 0 && list[j].pos == list[i].pos)
}

/// A cell next to `p` is among those that are new.
pub open spec fn touched(fresh: Seq<(Pos, Cell)>, p: Pos) -> bool {
    exists|k: int| 0 <= k < fresh.len() && adjacent(spot(p), spot((#[trigger] fresh[k]).0))
}

/// The flash of a cell that has just vanished.
pub open spec fn new_flash(cell: (Pos, Cell), delay: u64, total: u64) -> VanishedCell {
    VanishedCell { pos: cell.0, kind: cell.1, delay, remaining: total, total }
}

/// The flashes after some cells have vanished. Flashes next to them that are
/// already lit last as long as the new ones, so that a chain is seen as one.
pub open spec fn flashes_with(
    list: Seq<VanishedCell>,
    fresh: Seq<(Pos, Cell)>,
    delay: u64,
    total: u64,
) -> Seq<VanishedCell> {
    Seq::new(
        list.len(),
        |i: int|
            if first_lit(list, i) && touched(fresh, list[i].pos) {
                VanishedCell { remaining: (delay + total) as u64, ..list[i] }
            } else {
                list[i]
            },
    ) + fresh.map_values(|cell: (Pos, Cell)| new_flash(cell, delay, total))
}

/// Whether two cells share an edge.
fn are_adjacent(p: Pos, q: Pos) -> (r: bool)
    ensures
        r == adjacent(spot(p), spot(q)),
{
    if p.0 == q.0 {
        if p.1 > q.1 {
            p.1 - q.1 == 1
        } else {
            q.1 - p.1 == 1
        }
    } else if p.1 == q.1 {
        if p.0 > q.0 {
            p.0 - q.0 == 1
        } else {
            q.0 - p.0 == 1
        }
    } else {
        false
    }
}

/// Whether a cell next to `p` is among those that are new.
fn is_touched(fresh: &Vec<(Pos, Cell)>, p: Pos) -> (r: bool)
    ensures
        r == touched(fresh@, p),
{
    let mut k: usize = 0;
    while k < fresh.len()
        invariant
            k <= fresh@.len(),
            forall|j: int| 0 <= j < k ==> !adjacent(spot(p), spot((#[trigger] fresh@[j]).0)),
        decreases fresh@.len() - k,
    {
        if are_adjacent(p, fresh[k].0) {
            return true;
        }
        k = k + 1;
    }
    false
}

/// Whether entry `i` is the first of its cell that flashes already.
fn is_first_lit(list: &Vec<VanishedCell>, i: usize) -> (r: bool)
    requires
        i < list@.len(),
    ensures
        r == first_lit(list@, i as int),
{
    if list[i].delay != 0 {
        return false;
    }
    let p: Pos = list[i].pos;
    let mut j: usize = 0;
    while j < i
        invariant
            i < list@.len(),
            j <= i,
            p == list@[i as int].pos,
            forall|k: int| 0 <= k < j ==> !((#[trigger] list@[k]).delay == 0 && list@[k].pos == p),
        decreases i - j,
    {
        let v: VanishedCell = list[j];
        if v.delay == 0 && v.pos.0 == p.0 && v.pos.1 == p.1 {
            return false;
        }
        j = j + 1;
    }
    true
}

/// Adds the flashes of cells that have just vanished.
pub fn add_flashes(list: &Vec<VanishedCell>, fresh: &Vec<(Pos, Cell)>, delay: u64, total: u64) -> (all: Vec<
    VanishedCell,
>)
    requires
        delay + total <= u64::MAX,
    ensures
        all@ == flashes_with(list@, fresh@, delay, total),
{
    let ghost want = flashes_with(list@, fresh@, delay, total);
    let mut all: Vec<VanishedCell> = Vec::new();
    let mut i: usize = 0;
    while i < list.len()
        invariant
            delay + total <= u64::MAX,
            want == flashes_with(list@, fresh@, delay, total),
            i <= list@.len(),
            all@.len() == i,
            forall|k: int| 0 <= k < i ==> #[trigger] all@[k] == want[k],
        decreases list@.len() - i,
    {
        let v: VanishedCell = list[i];
        if is_touched(fresh, v.pos) && is_first_lit(list, i) {
            all.push(VanishedCell { remaining: delay + total, ..v });
        } else {
            all.push(v);
        }
        i = i + 1;
    }
    let mut k: usize = 0;
    while k < fresh.len()
        invariant
            want == flashes_with(list@, fresh@, delay, total),
            k <= fresh@.len(),
            all@.len() == list@.len() + k,
            forall|j: int| 0 <= j < all@.len() ==> #[trigger] all@[j] == want[j],
        decreases fresh@.len() - k,
    {
        let (pos, kind): (Pos, Cell) = fresh[k];
        all.push(VanishedCell { pos, kind, delay, remaining: total, total });
        k = k + 1;
    }
    assert(all@ =~= want);
    all
}

/// How far something has come: `done` out of `total`.
#[derive(Debug, Clone, Copy, PartialEq, Eq, Structural)]
pub struct Progress {
    pub done: u64,
    pub total: u64,
}

/// So much of something that took `total` is over when `remaining` is left.
pub open spec fn progress_left(remaining: int, total: int) -> Progress {
    Progress { done: (total - least(remaining, total)) as u64, total: total as u64 }
}

/// So much of something that takes `total` is over after `elapsed`.
pub open spec fn progress_made(elapsed: int, total: int) -> Progress {
    Progress { done: least(elapsed, total) as u64, total: total as u64 }
}

impl Progress {
    /// Counts what is left of something that took `total`.
    pub fn left(remaining: u64, total: u64) -> (p: Progress)
        ensures
            p == progress_left(remaining as int, total as int),
            p.done <= p.total,
    {
        if remaining >= total {
            Progress { done: 0, total }
        } else {
            Progress { done: total - remaining, total }
        }
    }

    /// Counts what is over of something that takes `total`.
    pub fn made(elapsed: u64, total: u64) -> (p: Progress)
        ensures
            p == progress_made(elapsed as int, total as int),
            p.done <= p.total,
    {
        if elapsed >= total {
            Progress { done: total, total }
        } else {
            Progress { done: elapsed, total }
        }
    }
}

} // verus!
