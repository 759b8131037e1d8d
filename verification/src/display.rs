//! What a screen needs to know beyond the field: how far effects and moves have
//! come. Fractions are given as how much is done out of how much.
use vstd::prelude::*;

use crate::board::{BlockMove, Cell, Pos};
use crate::constants::{
    least, millis, minus, ms, BOARD_SNAPSHOT_ROWS_ABOVE_PLAYER, BOARD_SNAPSHOT_ROWS_BELOW_PLAYER,
    BOARD_SNAPSHOT_TICK_INTERVAL, BOMB_EXPLOSION_FLASH_MS, CRUSH_ASCEND_MS, DODGE_SLIDE_MS,
    DRILL_ANIM_FRAME_MS, DRILL_ANIM_MS, NANOS_PER_MS,
};
use crate::flash::{progress_left, progress_made, subtract, Blaze, Progress, VanishedCell};
use crate::game::{DodgeStage, Game, World};
use crate::gravity::shaking;
use crate::sweep::{gather, haul, Sweep};

verus! {

/// The first flash of the list at `pos` that is lit, or that is not yet.
pub open spec fn flash_at(list: Seq<VanishedCell>, pos: Pos, lit: bool) -> Option<VanishedCell>
    decreases list.len(),
{
    if list.len() == 0 {
        None
    } else {
        match flash_at(list.drop_last(), pos, lit) {
            Some(v) => Some(v),
            None => if list.last().pos == pos && (list.last().delay == 0) == lit {
                Some(list.last())
            } else {
                None
            },
        }
    }
}

/// The first flash of the list at `pos`, lit or not.
pub open spec fn any_flash_at(list: Seq<VanishedCell>, pos: Pos) -> Option<VanishedCell>
    decreases list.len(),
{
    if list.len() == 0 {
        None
    } else {
        match any_flash_at(list.drop_last(), pos) {
            Some(v) => Some(v),
            None => if list.last().pos == pos {
                Some(list.last())
            } else {
                None
            },
        }
    }
}

/// The first fire of the list at `pos`.
pub open spec fn blaze_at(list: Seq<Blaze>, pos: Pos) -> Option<Blaze>
    decreases list.len(),
{
    if list.len() == 0 {
        None
    } else {
        match blaze_at(list.drop_last(), pos) {
            Some(b) => Some(b),
            None => if list.last().pos == pos {
                Some(list.last())
            } else {
                None
            },
        }
    }
}

/// Whether two positions are the same.
fn same_pos(a: Pos, b: Pos) -> (r: bool)
    ensures
        r == (a == b),
{
    a.0 == b.0 && a.1 == b.1
}

fn find_flash(list: &Vec<VanishedCell>, pos: Pos, lit: bool) -> (found: Option<VanishedCell>)
    ensures
        found == flash_at(list@, pos, lit),
{
    let mut found: Option<VanishedCell> = None;
    let mut i: usize = 0;
    assert(list@.take(0) =~= Seq::<VanishedCell>::empty());
    while i < list.len()
        invariant
            i <= list@.len(),
            found == flash_at(list@.take(i as int), pos, lit),
        decreases list@.len() - i,
    {
        proof {
            let t = list@.take(i + 1);
            assert(t.drop_last() =~= list@.take(i as int));
            assert(t.last() == list@[i as int]);
        }
        let v: VanishedCell = list[i];
        if found.is_none() && same_pos(v.pos, pos) && (v.delay == 0) == lit {
            found = Some(v);
        }
        i = i + 1;
    }
    assert(list@.take(list@.len() as int) =~= list@);
    found
}

fn find_any_flash(list: &Vec<VanishedCell>, pos: Pos) -> (found: Option<VanishedCell>)
    ensures
        found == any_flash_at(list@, pos),
{
    let mut found: Option<VanishedCell> = None;
    let mut i: usize = 0;
    assert(list@.take(0) =~= Seq::<VanishedCell>::empty());
    while i < list.len()
        invariant
            i <= list@.len(),
            found == any_flash_at(list@.take(i as int), pos),
        decreases list@.len() - i,
    {
        proof {
            let t = list@.take(i + 1);
            assert(t.drop_last() =~= list@.take(i as int));
            assert(t.last() == list@[i as int]);
        }
        let v: VanishedCell = list[i];
        if found.is_none() && same_pos(v.pos, pos) {
            found = Some(v);
        }
        i = i + 1;
    }
    assert(list@.take(list@.len() as int) =~= list@);
    found
}

fn find_blaze(list: &Vec<Blaze>, pos: Pos) -> (found: Option<Blaze>)
    ensures
        found == blaze_at(list@, pos),
{
    let mut found: Option<Blaze> = None;
    let mut i: usize = 0;
    assert(list@.take(0) =~= Seq::<Blaze>::empty());
    while i < list.len()
        invariant
            i <= list@.len(),
            found == blaze_at(list@.take(i as int), pos),
        decreases list@.len() - i,
    {
        proof {
            let t = list@.take(i + 1);
            assert(t.drop_last() =~= list@.take(i as int));
            assert(t.last() == list@[i as int]);
        }
        let b: Blaze = list[i];
        if found.is_none() && same_pos(b.pos, pos) {
            found = Some(b);
        }
        i = i + 1;
    }
    assert(list@.take(list@.len() as int) =~= list@);
    found
}

/// The length of a flash, of which there is always something.
pub open spec fn flash_length(v: VanishedCell) -> u64 {
    if v.total < NANOS_PER_MS {
        NANOS_PER_MS
    } else {
        v.total
    }
}

impl World {
    /// The rows that the record of the field covers.
    pub open spec fn recorded_rows(self) -> Sweep {
        Sweep::Everything {
            low: minus(self.player.row as int, BOARD_SNAPSHOT_ROWS_ABOVE_PLAYER as int) as usize,
            to: least(
                self.player.row + BOARD_SNAPSHOT_ROWS_BELOW_PLAYER + 1,
                self.grid.len() as int,
            ) as usize,
        }
    }
}

impl Game {
    /// How far the latest move has been drawn.
    pub fn move_anim_progress(&self) -> (p: Progress)
        requires
            self.wf(),
        ensures
            p == progress_made(
                self.core.render_anim_elapsed as int,
                self.core.render_anim_duration as int,
            ),
            p.done <= p.total,
            p.total > 0,
    {
        Progress::made(self.core.render_anim_elapsed, self.core.render_anim_duration)
    }

    /// Where the player was before their latest move.
    pub fn render_prev_position(&self) -> (p: (usize, usize))
        ensures
            p == self.core.render_prev_position,
    {
        self.core.render_prev_position
    }

    /// The blocks that the latest tick of gravity moved, each with where it is
    /// and where it was.
    pub fn recently_moved_blocks(&self) -> (moves: &[BlockMove])
        ensures
            moves@ == self@.moves,
    {
        self.last_block_moves.as_slice()
    }

    /// The number of the frame.
    pub fn debug_frame(&self) -> (n: u64)
        ensures
            n == self.core.frame_counter,
    {
        self.core.frame_counter
    }

    /// How far the flash of a vanished block has come, once it has begun.
    pub fn vanish_flash_progress(&self, pos: Pos) -> (p: Option<Progress>)
        ensures
            p == (match flash_at(self@.vanished, pos, true) {
                Some(v) => Some(progress_left(v.remaining as int, flash_length(v) as int)),
                None => None,
            }),
    {
        match find_flash(&self.recently_vanished, pos, true) {
            Some(v) => {
                let total: u64 = if v.total < NANOS_PER_MS { NANOS_PER_MS } else { v.total };
                Some(Progress::left(v.remaining, total))
            },
            None => None,
        }
    }

    /// What a cell held whose block has vanished but does not flash yet.
    pub fn pending_vanish_kind(&self, pos: Pos) -> (kind: Option<Cell>)
        ensures
            kind == (match flash_at(self@.vanished, pos, false) {
                Some(v) => Some(v.kind),
                None => None,
            }),
    {
        match find_flash(&self.recently_vanished, pos, false) {
            Some(v) => Some(v.kind),
            None => None,
        }
    }

    /// Milliseconds until nothing is left to be seen of a vanished block.
    pub fn recently_vanished_flash_remaining_ms(&self, pos: Pos) -> (left: Option<u64>)
        ensures
            left == (match any_flash_at(self@.vanished, pos) {
                Some(v) => Some(((v.delay + v.remaining) / NANOS_PER_MS as int) as u64),
                None => None,
            }),
    {
        match find_any_flash(&self.recently_vanished, pos) {
            Some(v) => {
                let nanos: u128 = v.delay as u128 + v.remaining as u128;
                Some((nanos / NANOS_PER_MS as u128) as u64)
            },
            None => None,
        }
    }

    /// How far the fire of an explosion has come, and how far from its centre
    /// the cell is.
    pub fn explosion_flash_progress(&self, pos: Pos) -> (p: Option<(Progress, u8)>)
        ensures
            p == (match blaze_at(self@.exploded, pos) {
                Some(b) => Some(
                    (
                        progress_left(b.remaining as int, ms(BOMB_EXPLOSION_FLASH_MS as int)),
                        b.distance,
                    ),
                ),
                None => None,
            }),
    {
        match find_blaze(&self.recently_exploded, pos) {
            Some(b) => Some((Progress::left(b.remaining, BOMB_EXPLOSION_FLASH_MS * NANOS_PER_MS), b.distance)),
            None => None,
        }
    }

    /// How far the blocks that the latest tick moved have come.
    pub fn block_fall_progress(&self) -> (p: Progress)
        requires
            self.wf(),
        ensures
            p == progress_made(self.core.fall_tick_accum as int, ms(self@.tick_ms())),
            p.done <= p.total,
            p.total > 0,
    {
        Progress::made(self.core.fall_tick_accum, millis(self.effective_block_fall_tick_ms()))
    }

    /// Whether the player is drawn squashed.
    pub fn crush_flash_active(&self) -> (r: bool)
        ensures
            r == (self.core.crush_flash_remaining > 0 || self@.dying()),
    {
        self.core.crush_flash_remaining > 0 || self.core.ascending_remaining.is_some()
    }

    /// The depth of the checkpoint whose banner is on show.
    pub fn checkpoint_flash_depth_m(&self) -> (depth: Option<usize>)
        ensures
            depth == (if self.core.checkpoint_flash_remaining > 0 {
                Some(self.core.checkpoint_flash_depth_m)
            } else {
                None
            }),
    {
        if self.core.checkpoint_flash_remaining > 0 {
            Some(self.core.checkpoint_flash_depth_m)
        } else {
            None
        }
    }

    /// Which of two pictures of the drill is on show, if any.
    pub fn drilling_frame(&self) -> (frame: Option<bool>)
        ensures
            frame == (if self.core.drill_flash_remaining == 0 {
                None
            } else {
                Some(
                    minus(
                        DRILL_ANIM_MS as int,
                        self.core.drill_flash_remaining as int / NANOS_PER_MS as int,
                    ) / DRILL_ANIM_FRAME_MS as int % 2 == 0,
                )
            }),
    {
        if self.core.drill_flash_remaining == 0 {
            return None;
        }
        let elapsed_ms: u64 = subtract(DRILL_ANIM_MS, self.core.drill_flash_remaining / NANOS_PER_MS);
        Some(elapsed_ms / DRILL_ANIM_FRAME_MS % 2 == 0)
    }

    /// Whether the player slides. While they get up they do not.
    pub fn is_dodge_sliding(&self) -> (r: bool)
        ensures
            r == (self.core.dodge_stage == DodgeStage::Sliding),
    {
        self.core.dodge_stage == DodgeStage::Sliding
    }

    /// How far the slide has come; not at all if the player does not slide.
    pub fn dodge_slide_progress(&self) -> (p: Progress)
        ensures
            p == (if self.core.dodge_stage == DodgeStage::Sliding {
                progress_left(self.core.dodge_stage_remaining as int, ms(DODGE_SLIDE_MS as int))
            } else {
                progress_made(0, ms(DODGE_SLIDE_MS as int))
            }),
            p.done <= p.total,
    {
        if self.core.dodge_stage == DodgeStage::Sliding {
            Progress::left(self.core.dodge_stage_remaining, DODGE_SLIDE_MS * NANOS_PER_MS)
        } else {
            Progress::made(0, DODGE_SLIDE_MS * NANOS_PER_MS)
        }
    }

    /// How far the player has risen to heaven; not at all if they live.
    pub fn ascend_progress(&self) -> (p: Progress)
        ensures
            p == (match self.core.ascending_remaining {
                Some(remaining) => progress_left(remaining as int, ms(CRUSH_ASCEND_MS as int)),
                None => progress_made(0, ms(CRUSH_ASCEND_MS as int)),
            }),
            p.done <= p.total,
    {
        match self.core.ascending_remaining {
            Some(remaining) => Progress::left(remaining, CRUSH_ASCEND_MS * NANOS_PER_MS),
            None => Progress::made(0, CRUSH_ASCEND_MS * NANOS_PER_MS),
        }
    }

    /// Whether the block at a cell shakes.
    pub fn is_cell_shaking(&self, row: usize, col: usize) -> (r: bool)
        requires
            self.wf(),
        ensures
            r == shaking(self@.gravity, (row as int, col as int)),
    {
        self.gravity_state.is_shaking((row, col))
    }

    /// What lies around the player, in the frames in which that is put on
    /// record.
    pub fn board_snapshot_if_due(&self) -> (cells: Option<Vec<(Pos, Cell)>>)
        requires
            self.wf(),
        ensures
            cells is Some <==> self.core.frame_counter % BOARD_SNAPSHOT_TICK_INTERVAL == 0,
            cells matches Some(list) ==> list@ == haul(self@.grid, self@.recorded_rows()),
    {
        if self.core.frame_counter % BOARD_SNAPSHOT_TICK_INTERVAL != 0 {
            return None;
        }
        let row: usize = self.player.row;
        let n: usize = self.board.depth_rows();
        let low: usize = if row > BOARD_SNAPSHOT_ROWS_ABOVE_PLAYER {
            row - BOARD_SNAPSHOT_ROWS_ABOVE_PLAYER
        } else {
            0
        };
        let to: usize = if n - row > BOARD_SNAPSHOT_ROWS_BELOW_PLAYER {
            row + BOARD_SNAPSHOT_ROWS_BELOW_PLAYER + 1
        } else {
            n
        };
        Some(gather(&self.board, Sweep::Everything { low, to }))
    }
}

} // verus!
