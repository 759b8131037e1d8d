//! Bombs and the rocks of an opponent: things on the field that are no blocks.
use vstd::prelude::*;

use crate::board::Pos;
use crate::flood::{spot, spots, Spot};

verus! {

/// How far a bomb has come.
#[derive(Debug, Clone, Copy, PartialEq, Eq, Structural)]
pub enum BombPhase {
    Entering,
    Rolling,
    Settling,
    Ticking,
}

/// A bomb. Once it has come to rest it blocks its cell.
#[derive(Debug, Clone, Copy, PartialEq, Eq)]
pub struct Bomb {
    pub pos: Pos,
    /// Where it came onto the field.
    pub origin: Pos,
    pub phase: BombPhase,
    /// Milliseconds since the phase began.
    pub phase_elapsed_ms: u32,
    /// Milliseconds until it explodes.
    pub remaining_ms: u32,
    /// The side to which it bounces while it settles.
    pub settle_bounce_dir: i8,
}

/// A rock that an opponent sends and that is announced but not there yet.
#[derive(Debug, Clone, Copy, PartialEq, Eq)]
pub struct IncomingRock {
    pub pos: Pos,
    pub remaining_ms: u32,
}

/// The bomb has come to rest.
pub open spec fn at_rest(b: Bomb) -> bool {
    b.phase is Settling || b.phase is Ticking
}

/// Where the bombs lie that have come to rest, in the order of the list.
pub open spec fn resting_places(bombs: Seq<Bomb>) -> Seq<Pos>
    decreases bombs.len(),
{
    if bombs.len() == 0 {
        Seq::empty()
    } else {
        let rest = resting_places(bombs.drop_last());
        if at_rest(bombs.last()) {
            rest.push(bombs.last().pos)
        } else {
            rest
        }
    }
}

/// A bomb lies at `p`.
pub open spec fn bomb_rests_at(bombs: Seq<Bomb>, p: Spot) -> bool {
    exists|i: int| 0 <= i < bombs.len() && at_rest(#[trigger] bombs[i]) && spot(bombs[i].pos) == p
}

/// What blocks falling blocks, and what holds the player up, is the same: the
/// resting places are where a bomb lies.
pub proof fn law_resting_places(bombs: Seq<Bomb>, p: Spot)
    ensures
        spots(resting_places(bombs)).contains(p) <==> bomb_rests_at(bombs, p),
    decreases bombs.len(),
{
    if bombs.len() > 0 {
        let init = bombs.drop_last();
        law_resting_places(init, p);
        let rest = resting_places(init);
        let all = resting_places(bombs);
        if spots(all).contains(p) {
            let k = choose|k: int| 0 <= k < all.len() && #[trigger] spot(all[k]) == p;
            if k < rest.len() {
                assert(spot(rest[k]) == p);
                let i = choose|i: int| 0 <= i < init.len() && at_rest(#[trigger] init[i]) && spot(init[i].pos) == p;
                assert(bombs[i] == init[i]);
            } else {
                assert(at_rest(bombs[bombs.len() - 1]));
            }
        }
        if bomb_rests_at(bombs, p) {
            let i = choose|i: int| 0 <= i < bombs.len() && at_rest(#[trigger] bombs[i]) && spot(bombs[i].pos) == p;
            if i < init.len() {
                assert(init[i] == bombs[i]);
                let k = choose|k: int| 0 <= k < rest.len() && #[trigger] spot(rest[k]) == p;
                assert(spot(all[k]) == p);
            } else {
                assert(spot(all[all.len() - 1]) == p);
            }
        }
    }
}

/// Whether a bomb has come to rest.
fn is_at_rest(b: &Bomb) -> (r: bool)
    ensures
        r == at_rest(*b),
{
    matches!(b.phase, BombPhase::Settling | BombPhase::Ticking)
}

/// Where the bombs lie that have come to rest.
pub fn settled_positions(bombs: &Vec<Bomb>) -> (list: Vec<Pos>)
    ensures
        list@ == resting_places(bombs@),
{
    let mut list: Vec<Pos> = Vec::new();
    let mut i: usize = 0;
    assert(bombs@.take(0) =~= Seq::<Bomb>::empty());
    while i < bombs.len()
        invariant
            i <= bombs@.len(),
            list@ == resting_places(bombs@.take(i as int)),
        decreases bombs@.len() - i,
    {
        proof {
            let t = bombs@.take(i + 1);
            assert(t.drop_last() =~= bombs@.take(i as int));
            assert(t.last() == bombs@[i as int]);
        }
        if is_at_rest(&bombs[i]) {
            list.push(bombs[i].pos);
        }
        i = i + 1;
    }
    assert(bombs@.take(bombs@.len() as int) =~= bombs@);
    list
}

/// The first bomb of the list that lies at `p`.
pub open spec fn first_bomb_at(bombs: Seq<Bomb>, p: Spot, i: int) -> bool {
    &&& 0 <= i < bombs.len()
    &&& at_rest(bombs[i]) && spot(bombs[i].pos) == p
    &&& forall|j: int| 0 <= j < i ==> !(at_rest(#[trigger] bombs[j]) && spot(bombs[j].pos) == p)
}

/// Finds the first bomb that lies at `pos`.
pub fn find_bomb(bombs: &Vec<Bomb>, pos: Pos) -> (found: Option<usize>)
    ensures
        found is Some <==> bomb_rests_at(bombs@, spot(pos)),
        found matches Some(i) ==> first_bomb_at(bombs@, spot(pos), i as int),
{
    let mut i: usize = 0;
    while i < bombs.len()
        invariant
            i <= bombs@.len(),
            forall|j: int| 0 <= j < i ==> !(at_rest(#[trigger] bombs@[j]) && spot(bombs@[j].pos) == spot(pos)),
        decreases bombs@.len() - i,
    {
        if is_at_rest(&bombs[i]) && bombs[i].pos.0 == pos.0 && bombs[i].pos.1 == pos.1 {
            return Some(i);
        }
        i = i + 1;
    }
    None
}

} // verus!
