//! Gravity: which blocks stand, which shake before they fall, which fall, and
//! what vanishes where they land.
use vstd::prelude::*;

use crate::board::{copy_list, Pos};
use crate::flood::{spot, Spot};

verus! {

/// How long one block has been without support.
#[derive(Debug, Clone, Copy, PartialEq, Eq)]
pub struct Wait {
    pub pos: Pos,
    /// Gravity ticks since the block lost its support.
    pub ticks: u16,
}

/// Which blocks are without support, and for how long.
#[derive(Debug)]
pub struct GravityState {
    pub waits: Vec<Wait>,
    /// The ticks a block shakes before it falls, as of the latest tick.
    pub shake_ticks: u16,
}

/// The mathematical gravity state.
pub struct Loose {
    /// For each block without support, the ticks it has been so.
    pub waits: Map<Spot, u16>,
    pub shake_ticks: u16,
}

/// The waits that a list of entries stands for.
pub open spec fn waits_of(list: Seq<Wait>) -> Map<Spot, u16> {
    Map::new(
        |p: Spot| exists|i: int| 0 <= i < list.len() && #[trigger] spot(list[i].pos) == p,
        |p: Spot| list[choose|i: int| 0 <= i < list.len() && #[trigger] spot(list[i].pos) == p].ticks,
    )
}

impl View for GravityState {
    type V = Loose;

    open spec fn view(&self) -> Loose {
        Loose { waits: waits_of(self.waits@), shake_ticks: self.shake_ticks }
    }
}

/// The ticks that the block at `p` has been without support.
pub open spec fn waited(waits: Map<Spot, u16>, p: Spot) -> u16 {
    if waits.dom().contains(p) {
        waits[p]
    } else {
        0
    }
}

/// The block at `p` shakes: it has lost its support but does not fall yet.
pub open spec fn shaking(s: Loose, p: Spot) -> bool {
    s.waits.dom().contains(p) && s.waits[p] <= s.shake_ticks
}

/// No position has two entries.
pub open spec fn distinct(list: Seq<Wait>) -> bool {
    forall|i: int, j: int|
        #![trigger list[i], list[j]]
        0 <= i < list.len() && 0 <= j < list.len() && i != j ==> spot(list[i].pos) != spot(list[j].pos)
}

/// An entry of a list without repetition gives the wait of its position.
proof fn lemma_wait_entry(list: Seq<Wait>, i: int)
    requires
        distinct(list),
        0 <= i < list.len(),
    ensures
        waits_of(list).dom().contains(spot(list[i].pos)),
        waits_of(list)[spot(list[i].pos)] == list[i].ticks,
{
    let p = spot(list[i].pos);
    let k = choose|k: int| 0 <= k < list.len() && #[trigger] spot(list[k].pos) == p;
    assert(spot(list[k].pos) == p);
    assert(k == i);
}

impl GravityState {
    /// No position has two entries.
    pub open spec fn wf(&self) -> bool {
        distinct(self.waits@)
    }

    /// Nothing is without support.
    pub fn new() -> (s: Self)
        ensures
            s.wf(),
            s@.waits =~= Map::<Spot, u16>::empty(),
            s@.shake_ticks == 0,
    {
        GravityState { waits: Vec::new(), shake_ticks: 0 }
    }

    /// The ticks that the block at `pos` has been without support.
    pub(crate) fn ticks_at(&self, pos: Pos) -> (t: Option<u16>)
        requires
            self.wf(),
        ensures
            t is Some <==> self@.waits.dom().contains(spot(pos)),
            t is Some ==> t == Some(self@.waits[spot(pos)]),
            waited(self@.waits, spot(pos)) == (match t { Some(x) => x, None => 0 }),
    {
        let mut i: usize = 0;
        while i < self.waits.len()
            invariant
                self.wf(),
                i <= self.waits@.len(),
                forall|k: int| 0 <= k < i ==> spot((#[trigger] self.waits@[k]).pos) != spot(pos),
            decreases self.waits@.len() - i,
        {
            let w: Wait = self.waits[i];
            if w.pos.0 == pos.0 && w.pos.1 == pos.1 {
                proof {
                    lemma_wait_entry(self.waits@, i as int);
                }
                return Some(w.ticks);
            }
            i = i + 1;
        }
        None
    }

    /// Whether the block at `pos` has lost its support but does not fall yet.
    pub fn is_shaking(&self, pos: Pos) -> (r: bool)
        requires
            self.wf(),
        ensures
            r == shaking(self@, spot(pos)),
    {
        match self.ticks_at(pos) {
            Some(t) => t <= self.shake_ticks,
            None => false,
        }
    }

    /// Forgets the blocks that still shake, so that each starts to shake anew
    /// if it is found without support again. Blocks that fall go on falling.
    pub fn reset_shake_progress(&mut self, shake_ticks: u8)
        requires
            old(self).wf(),
        ensures
            final(self).wf(),
            final(self)@ == shake_reset(old(self)@, shake_ticks as u16),
    {
        let ghost all = self.waits@;
        let limit: u16 = shake_ticks as u16;
        let mut kept: Vec<Wait> = Vec::new();
        let mut i: usize = 0;
        while i < self.waits.len()
            invariant
                all == self.waits@,
                distinct(all),
                i <= all.len(),
                kept@.len() <= i,
                distinct(kept@),
                forall|k: int|
                    0 <= k < kept@.len() ==> (#[trigger] kept@[k]).ticks > limit && exists|j: int|
                        0 <= j < i && #[trigger] all[j] == kept@[k],
                forall|j: int|
                    0 <= j < i && (#[trigger] all[j]).ticks > limit ==> exists|k: int|
                        0 <= k < kept@.len() && #[trigger] kept@[k] == all[j],
            decreases all.len() - i,
        {
            let w: Wait = self.waits[i];
            let ghost before = kept@;
            if w.ticks > limit {
                kept.push(w);
                proof {
                    assert forall|j: int|
                        0 <= j < i + 1 && (#[trigger] all[j]).ticks > limit implies exists|k: int|
                        0 <= k < kept@.len() && #[trigger] kept@[k] == all[j] by {
                        if j < i {
                            let k = choose|k: int| 0 <= k < before.len() && #[trigger] before[k] == all[j];
                            assert(kept@[k] == all[j]);
                        } else {
                            assert(kept@[kept@.len() - 1] == all[j]);
                        }
                    }
                    assert forall|k: int| 0 <= k < kept@.len() implies (#[trigger] kept@[k]).ticks > limit
                        && exists|j: int| 0 <= j < i + 1 && #[trigger] all[j] == kept@[k] by {
                        if k < before.len() {
                            assert(kept@[k] == before[k]);
                            let j = choose|j: int| 0 <= j < i && #[trigger] all[j] == before[k];
                            assert(all[j] == kept@[k]);
                        } else {
                            assert(all[i as int] == kept@[k]);
                        }
                    }
                    assert forall|a: int, b: int|
                        #![trigger kept@[a], kept@[b]]
                        0 <= a < kept@.len() && 0 <= b < kept@.len() && a != b implies spot(kept@[a].pos)
                        != spot(kept@[b].pos) by {
                        if a < before.len() && b < before.len() {
                            assert(kept@[a] == before[a] && kept@[b] == before[b]);
                        } else if a < before.len() {
                            let j = choose|j: int| 0 <= j < i && #[trigger] all[j] == before[a];
                            assert(all[j] == kept@[a] && all[i as int] == kept@[b]);
                        } else {
                            let j = choose|j: int| 0 <= j < i && #[trigger] all[j] == before[b];
                            assert(all[j] == kept@[b] && all[i as int] == kept@[a]);
                        }
                    }
                }
            }
            i = i + 1;
        }
        proof {
            let after = waits_of(kept@);
            let want = shake_reset(self@, limit).waits;
            assert forall|p: Spot| #[trigger] after.dom().contains(p) <==> want.dom().contains(p) by {
                if after.dom().contains(p) {
                    let k = choose|k: int| 0 <= k < kept@.len() && #[trigger] spot(kept@[k].pos) == p;
                    let j = choose|j: int| 0 <= j < all.len() && #[trigger] all[j] == kept@[k];
                    lemma_wait_entry(all, j);
                }
                if want.dom().contains(p) {
                    let j = choose|j: int| 0 <= j < all.len() && #[trigger] spot(all[j].pos) == p;
                    assert(spot(all[j].pos) == p);
                    lemma_wait_entry(all, j);
                    let k = choose|k: int| 0 <= k < kept@.len() && #[trigger] kept@[k] == all[j];
                    assert(spot(kept@[k].pos) == p);
                }
            }
            assert forall|p: Spot| #[trigger] after.dom().contains(p) implies after[p] == want[p] by {
                let k = choose|k: int| 0 <= k < kept@.len() && #[trigger] spot(kept@[k].pos) == p;
                assert(spot(kept@[k].pos) == p);
                lemma_wait_entry(kept@, k);
                let j = choose|j: int| 0 <= j < all.len() && #[trigger] all[j] == kept@[k];
                lemma_wait_entry(all, j);
            }
            assert(after =~= want);
        }
        self.waits = kept;
    }
}

impl Clone for GravityState {
    fn clone(&self) -> (copy: Self)
        ensures
            copy@ == self@,
            self.wf() ==> copy.wf(),
    {
        GravityState { waits: copy_list(&self.waits), shake_ticks: self.shake_ticks }
    }
}

/// The state without the blocks that still shake.
pub open spec fn shake_reset(s: Loose, shake_ticks: u16) -> Loose {
    Loose {
        waits: s.waits.restrict(Set::new(|p: Spot| s.waits.dom().contains(p) && s.waits[p] > shake_ticks)),
        ..s
    }
}

} // verus!
