//! Input: stepping to the side, facing, and drilling.
use vstd::prelude::*;

use crate::board::{Cell, Pos};
use crate::bombs::{bomb_rests_at, find_bomb, first_bomb_at, resting_places, settled_positions, Bomb};
use crate::constants::{millis, ms, DRILL_ANIM_MS, INPUT_COOLDOWN_MS, MOVE_ANIM_DURATION_MS, NANOS_PER_MS};
use crate::flood::{at, on_grid, spot, spots, Spot};
use crate::game::{sound, Core, Game, GameEvent, GameStatus, InputAction, MissCause, Tale, World};
use crate::groups::Pickup;
use crate::mishaps::{item_used, missed};
use crate::physics::{
    climb_onto, climbed, drill_facing, drilled_facing, faced, faced_cell, is_climb_passable,
    is_falling_hazard, may_fall, move_lateral, passable, stepped, DrillOutcome, LateralOutcome,
};
use crate::player::{Direction, Player};

verus! {

impl World {
    /// A step is accepted: the game is on, the player reacts, and enough time
    /// is saved up.
    pub open spec fn may_step(self) -> bool {
        self.status == GameStatus::Playing && !self.frozen() && self.core.move_cooldown_accum >= ms(
            self.core.move_cooldown_ms as int,
        )
    }

    /// A step has used up its share of the time saved.
    pub open spec fn step_paid(self) -> World {
        self.with_core(
            Core {
                move_cooldown_accum: (self.core.move_cooldown_accum - ms(self.core.move_cooldown_ms as int)) as u64,
                ..self.core
            },
        )
    }

    /// A drill stroke is accepted.
    pub open spec fn may_drill(self) -> bool {
        self.status == GameStatus::Playing && !self.frozen() && self.core.drill_cooldown_accum >= ms(
            INPUT_COOLDOWN_MS as int,
        )
    }

    /// A drill stroke has used up its share of the time saved, and is drawn.
    pub open spec fn stroke_paid(self) -> World {
        self.with_core(
            Core {
                drill_cooldown_accum: (self.core.drill_cooldown_accum - ms(INPUT_COOLDOWN_MS as int)) as u64,
                drill_flash_remaining: ms(DRILL_ANIM_MS as int) as u64,
                ..self.core
            },
        )
    }

    /// The player faces another way, and has bumped into nothing, if they
    /// react.
    pub open spec fn turned(self, dir: Direction) -> World {
        if self.status == GameStatus::Playing && !self.frozen() {
            World { player: Player { facing: dir, bumped_direction: None, ..self.player }, ..self }
        } else {
            self
        }
    }

    /// Where the player stands.
    pub open spec fn here(self) -> Pos {
        (self.player.row, self.player.col)
    }

    /// The bombs without the first one that lies at `p`.
    pub open spec fn bombs_without(self, p: Spot) -> Seq<Bomb> {
        self.bombs.remove(choose|i: int| first_bomb_at(self.bombs, p, i))
    }

    /// The bombs once the first one that lies at `p` lies at `q`.
    pub open spec fn bombs_moved(self, p: Spot, q: Pos) -> Seq<Bomb> {
        let i = choose|i: int| first_bomb_at(self.bombs, p, i);
        self.bombs.update(i, Bomb { pos: q, ..self.bombs[i] })
    }

    /// A bomb can be pushed onto `q`: the cell is empty and holds no bomb.
    pub open spec fn room_for_bomb(self, q: Spot) -> bool {
        on_grid(self.grid, q) && at(self.grid, q) is Empty && !bomb_rests_at(self.bombs, q)
    }

    /// The player can climb onto what is beside them.
    pub open spec fn can_climb(self, dir: Direction) -> bool {
        let up = self.player.row - 1;
        let nc = self.player.col + dir.step().1;
        self.player.bumped_direction == Some(dir) && self.player.row > 0 && passable(
            at(self.grid, (up, self.player.col as int)),
        ) && passable(at(self.grid, (up, nc)))
    }
}

/// What a bomb beside the player makes of a step.
pub struct Shove {
    pub world: World,
    /// What was taken on a climb, if the step is settled with it.
    pub climb: Option<(Option<Pickup>, Option<Pickup>)>,
}

/// A bomb beside the player is pushed on if there is room behind it. If there
/// is none, it is an obstacle to bump into and to climb.
pub open spec fn shoved(w: World, dir: Direction) -> Shove {
    let row = w.player.row as int;
    let nc = w.player.col + dir.step().1;
    let beyond = (row, w.player.col + 2 * dir.step().1);
    let turned = Player { facing: dir, ..w.player };
    if !bomb_rests_at(w.bombs, (row, nc)) || nc < 0 || nc >= w.width {
        Shove { world: w, climb: None }
    } else if w.room_for_bomb(beyond) {
        Shove {
            world: World {
                bombs: w.bombs_moved((row, nc), (w.player.row, beyond.1 as usize)),
                ..w
            },
            climb: None,
        }
    } else if w.can_climb(dir) {
        let up = climbed(w.grid, turned, nc);
        Shove {
            world: (World { grid: up.grid, player: up.player, ..w }).moved_from(
                w.here(),
                ms(MOVE_ANIM_DURATION_MS as int) as u64,
            ),
            climb: Some((up.outcome->overhead, up.outcome->landing)),
        }
    } else {
        Shove {
            world: World { player: Player { bumped_direction: Some(dir), ..turned }, ..w },
            climb: Some((None, None)),
        }
    }
}

/// An item among what was taken has done what it does.
pub open spec fn pickup_used(t: Tale, pickup: Option<Pickup>) -> Tale {
    match pickup {
        Some(Pickup::Item(effect)) => item_used(t, effect),
        _ => t,
    }
}

/// What was taken on a climb is told and used. Two capsules are told once.
pub open spec fn pickups_used(t: Tale, first: Option<Pickup>, second: Option<Pickup>) -> Tale {
    let told = if first == Some(Pickup::Oxygen) || second == Some(Pickup::Oxygen) {
        (t.0, t.1.push(GameEvent::OxygenCollected))
    } else {
        t
    };
    pickup_used(pickup_used(told, first), second)
}

/// What a step to the side is told as.
pub open spec fn step_told(t: Tale, outcome: LateralOutcome) -> Tale {
    match outcome {
        LateralOutcome::MovedLevelAndCollectedOxygen => (t.0, t.1.push(GameEvent::OxygenCollected)),
        LateralOutcome::MovedLevelAndCollectedItem(effect) => item_used(t, effect),
        LateralOutcome::ClimbedStep { overhead, landing } => pickups_used(t, overhead, landing),
        _ => t,
    }
}

/// A step to the side: accepted only while the player stands on something.
pub open spec fn strolled(w: World, dir: Direction) -> Tale {
    if !w.may_step() {
        (w, Seq::empty())
    } else if !w.step_paid().on_ground() {
        (w.step_paid(), Seq::empty())
    } else {
        let shove = shoved(w.step_paid(), dir);
        match shove.climb {
            Some(taken) => pickups_used((shove.world, Seq::empty()), taken.0, taken.1),
            None => {
                let s = stepped(shove.world.grid, shove.world.width as int, shove.world.player, dir);
                step_told(
                    (
                        (World { grid: s.grid, player: s.player, ..shove.world }).moved_from(
                            w.here(),
                            ms(MOVE_ANIM_DURATION_MS as int) as u64,
                        ),
                        Seq::empty(),
                    ),
                    s.outcome,
                )
            },
        }
    }
}

/// A player who is out of air loses a life.
pub open spec fn air_checked(t: Tale) -> Tale {
    if t.0.status == GameStatus::Playing && t.0.player.oxygen == 0 {
        missed(t, MissCause::OxygenOut)
    } else {
        t
    }
}

/// What a stroke of the drill is told as, and what follows.
pub open spec fn stroke_told(t: Tale, outcome: DrillOutcome) -> Tale {
    match outcome {
        DrillOutcome::OutOfBounds | DrillOutcome::NoEffect | DrillOutcome::OxygenUntouchedByDrill
        | DrillOutcome::ItemUntouchedByDrill => t,
        DrillOutcome::RockHitIntact => (
            t.0,
            t.1.push(GameEvent::DrillImpact).push(GameEvent::RockHitIntact),
        ),
        DrillOutcome::RockDestroyed { blocks } => air_checked(
            (
                t.0.armed(blocks as int),
                t.1.push(GameEvent::DrillImpact).push(GameEvent::RockDestroyed { blocks }),
            ),
        ),
        DrillOutcome::ColorDestroyed { blocks } => (
            t.0.armed(blocks as int),
            t.1.push(GameEvent::DrillImpact).push(GameEvent::BlockDestroyed { blocks }),
        ),
        DrillOutcome::CollectedDiamond => (t.0, t.1.push(GameEvent::DiamondCollected)),
        DrillOutcome::StarDestroyed => (
            t.0.armed(1),
            t.1.push(GameEvent::DrillImpact).push(GameEvent::BlockDestroyed { blocks: 1 }),
        ),
        DrillOutcome::CrushedByUnstableOverhead => missed(t, MissCause::DrilledIntoFallingBlock),
    }
}

/// A stroke of the drill. A bomb that is faced is taken apart. The player does
/// not move.
pub open spec fn stroked(w: World) -> Tale {
    if !w.may_drill() {
        (w, Seq::empty())
    } else {
        let ready = w.stroke_paid();
        let target = faced(w.player);
        if on_grid(w.grid, target) && bomb_rests_at(w.bombs, target) {
            (
                World { bombs: ready.bombs_without(target), ..ready },
                seq![GameEvent::BlockDestroyed { blocks: 1 }],
            )
        } else {
            let d = drilled_facing(w.grid, w.player, w.gravity, spots(resting_places(w.bombs)));
            stroke_told((World { grid: d.grid, player: d.player, ..ready }, Seq::empty()), d.outcome)
        }
    }
}

/// What an input does. All but the five ways to move, face and drill leave the
/// game alone.
pub open spec fn acted(w: World, action: InputAction) -> Tale {
    match action {
        InputAction::MoveLeft => strolled(w, Direction::Left),
        InputAction::MoveRight => strolled(w, Direction::Right),
        InputAction::FaceUp => (w.turned(Direction::Up), Seq::empty()),
        InputAction::FaceDown => (w.turned(Direction::Down), Seq::empty()),
        InputAction::Drill => stroked(w),
        _ => (w, Seq::empty()),
    }
}

/// The first bomb at a place is the only first one.
proof fn lemma_first_bomb(bombs: Seq<Bomb>, p: Spot, i: int)
    requires
        first_bomb_at(bombs, p, i),
    ensures
        (choose|k: int| first_bomb_at(bombs, p, k)) == i,
{
    let k = choose|k: int| first_bomb_at(bombs, p, k);
    if k < i {
        assert(!(crate::bombs::at_rest(bombs[k]) && spot(bombs[k].pos) == p));
    }
    if i < k {
        assert(!(crate::bombs::at_rest(bombs[i]) && spot(bombs[i].pos) == p));
    }
}

impl Game {
    /// Where bombs lie.
    pub fn settled_bomb_positions(&self) -> (list: Vec<Pos>)
        ensures
            list@ == resting_places(self@.bombs),
    {
        settled_positions(&self.bombs)
    }

    /// Takes the share of a step out of the time saved up, if a step is
    /// accepted.
    fn consume_move_cooldown(&mut self) -> (accepted: bool)
        requires
            old(self).wf(),
        ensures
            final(self).wf(),
            accepted == old(self)@.may_step(),
            final(self)@ == (if accepted {
                old(self)@.step_paid()
            } else {
                old(self)@
            }),
    {
        if self.status != GameStatus::Playing || self.is_input_frozen() {
            return false;
        }
        let slot: u64 = millis(self.core.move_cooldown_ms);
        if self.core.move_cooldown_accum < slot {
            return false;
        }
        self.core.move_cooldown_accum = self.core.move_cooldown_accum - slot;
        true
    }

    /// Takes the share of a stroke out of the time saved up and starts to draw
    /// the stroke, if one is accepted.
    fn consume_drill_cooldown(&mut self) -> (accepted: bool)
        requires
            old(self).wf(),
        ensures
            final(self).wf(),
            accepted == old(self)@.may_drill(),
            final(self)@ == (if accepted {
                old(self)@.stroke_paid()
            } else {
                old(self)@
            }),
    {
        if self.status != GameStatus::Playing || self.is_input_frozen() {
            return false;
        }
        let slot: u64 = INPUT_COOLDOWN_MS * NANOS_PER_MS;
        if self.core.drill_cooldown_accum < slot {
            return false;
        }
        self.core.drill_cooldown_accum = self.core.drill_cooldown_accum - slot;
        self.core.drill_flash_remaining = DRILL_ANIM_MS * NANOS_PER_MS;
        true
    }

    /// Pushes a bomb beside the player, or bumps into it, or climbs it. Returns
    /// what was taken if the step is settled with that.
    fn push_bomb_in_the_way(&mut self, dir: Direction) -> (climb: Option<(Option<Pickup>, Option<Pickup>)>)
        requires
            old(self).wf(),
            dir == Direction::Left || dir == Direction::Right,
        ensures
            final(self).wf(),
            (Shove { world: final(self)@, climb }) == shoved(old(self)@, dir),
    {
        let w: usize = self.board.width();
        let row: usize = self.player.row;
        let col: usize = self.player.col;
        let left: bool = dir == Direction::Left;
        assert(self@.grid[row as int].len() == w);
        if left && col == 0 || !left && col >= w - 1 {
            return None;
        }
        let nc: usize = if left { col - 1 } else { col + 1 };
        let next: Pos = (row, nc);
        match find_bomb(&self.bombs, next) {
            None => None,
            Some(i) => {
                let ghost before = self@;
                proof {
                    lemma_first_bomb(self.bombs@, spot(next), i as int);
                }
                let edge: bool = left && nc == 0 || !left && nc >= w - 1;
                if !edge {
                    let beyond: usize = if left { nc - 1 } else { nc + 1 };
                    let free: bool = matches!(self.board.cell(row, beyond), Cell::Empty)
                        && !self.settled_bomb_at(row, beyond);
                    if free {
                        let moved = Bomb { pos: (row, beyond), ..self.bombs[i] };
                        self.bombs.set(i, moved);
                        assert(self@ =~= shoved(before, dir).world);
                        return None;
                    }
                }
                let was_bumped: bool = self.player.bumped_direction == Some(dir);
                self.player.facing = dir;
                if was_bumped && row > 0 {
                    let up: usize = row - 1;
                    assert(self@.grid[up as int].len() == w);
                    if is_climb_passable(self.board.cell(up, col)) && is_climb_passable(self.board.cell(up, nc)) {
                        let (overhead, landing) = climb_onto(&mut self.board, &mut self.player, nc);
                        self.note_possible_move((row, col));
                        return Some((overhead, landing));
                    }
                }
                self.player.bumped_direction = Some(dir);
                Some((None, None))
            },
        }
    }

    /// Tells and uses what was taken on a climb.
    fn use_climb_pickups(
        &mut self,
        first: Option<Pickup>,
        second: Option<Pickup>,
        events: &mut Vec<GameEvent>,
    )
        requires
            old(self).wf(),
        ensures
            final(self).wf(),
            (final(self)@, final(events)@) == pickups_used((old(self)@, old(events)@), first, second),
    {
        if first == Some(Pickup::Oxygen) || second == Some(Pickup::Oxygen) {
            events.push(GameEvent::OxygenCollected);
        }
        if let Some(Pickup::Item(effect)) = first {
            self.apply_item_effect(effect, events);
        }
        if let Some(Pickup::Item(effect)) = second {
            self.apply_item_effect(effect, events);
        }
    }

    /// Takes a step to the left.
    pub fn try_move_left(&mut self) -> (events: Vec<GameEvent>)
        requires
            old(self).wf(),
        ensures
            final(self).wf(),
            (final(self)@, events@) == strolled(old(self)@, Direction::Left),
    {
        self.try_lateral_move(Direction::Left)
    }

    /// Takes a step to the right.
    pub fn try_move_right(&mut self) -> (events: Vec<GameEvent>)
        requires
            old(self).wf(),
        ensures
            final(self).wf(),
            (final(self)@, events@) == strolled(old(self)@, Direction::Right),
    {
        self.try_lateral_move(Direction::Right)
    }

    /// Takes a step to the side. Nothing is drilled; capsules and items on the
    /// way are taken.
    fn try_lateral_move(&mut self, dir: Direction) -> (events: Vec<GameEvent>)
        requires
            old(self).wf(),
            dir == Direction::Left || dir == Direction::Right,
        ensures
            final(self).wf(),
            (final(self)@, events@) == strolled(old(self)@, dir),
    {
        let mut events: Vec<GameEvent> = Vec::new();
        if !self.consume_move_cooldown() {
            return events;
        }
        if !self.player_is_grounded() {
            return events;
        }
        let before: Pos = self.player.position();
        if let Some((overhead, landing)) = self.push_bomb_in_the_way(dir) {
            self.use_climb_pickups(overhead, landing, &mut events);
            return events;
        }
        let outcome: LateralOutcome = move_lateral(&mut self.board, &mut self.player, dir);
        self.note_possible_move(before);
        match outcome {
            LateralOutcome::MovedLevelAndCollectedOxygen => {
                events.push(GameEvent::OxygenCollected);
            },
            LateralOutcome::MovedLevelAndCollectedItem(effect) => {
                self.apply_item_effect(effect, &mut events);
            },
            LateralOutcome::ClimbedStep { overhead, landing } => {
                self.use_climb_pickups(overhead, landing, &mut events);
            },
            _ => {},
        }
        events
    }

    /// Faces up, and nothing else.
    pub fn face_up(&mut self)
        requires
            old(self).wf(),
        ensures
            final(self).wf(),
            final(self)@ == old(self)@.turned(Direction::Up),
    {
        if self.status == GameStatus::Playing && !self.is_input_frozen() {
            self.player.facing = Direction::Up;
            self.player.bumped_direction = None;
        }
    }

    /// Faces down, and nothing else.
    pub fn face_down(&mut self)
        requires
            old(self).wf(),
        ensures
            final(self).wf(),
            final(self)@ == old(self)@.turned(Direction::Down),
    {
        if self.status == GameStatus::Playing && !self.is_input_frozen() {
            self.player.facing = Direction::Down;
            self.player.bumped_direction = None;
        }
    }

    /// Takes apart the bomb that the player faces. Returns whether there was
    /// one.
    fn destroy_bomb_facing(&mut self) -> (done: bool)
        requires
            old(self).wf(),
        ensures
            final(self).wf(),
            done == (on_grid(old(self)@.grid, faced(old(self).player)) && bomb_rests_at(
                old(self)@.bombs,
                faced(old(self).player),
            )),
            final(self)@ == (if done {
                World { bombs: old(self)@.bombs_without(faced(old(self).player)), ..old(self)@ }
            } else {
                old(self)@
            }),
    {
        match faced_cell(&self.board, &self.player) {
            None => false,
            Some(target) => match find_bomb(&self.bombs, target) {
                None => false,
                Some(i) => {
                    proof {
                        lemma_first_bomb(self.bombs@, spot(target), i as int);
                    }
                    let gone: Bomb = self.bombs.remove(i);
                    true
                },
            },
        }
    }

    /// A player who is out of air loses a life, while the game is on.
    pub fn check_oxygen_zero(&mut self, events: &mut Vec<GameEvent>)
        requires
            old(self).wf(),
        ensures
            final(self).wf(),
            (final(self)@, final(events)@) == air_checked((old(self)@, old(events)@)),
    {
        if self.status != GameStatus::Playing {
            return;
        }
        if self.player.is_out_of_oxygen() {
            self.apply_miss(MissCause::OxygenOut, events);
        }
    }

    /// Tells what a stroke of the drill did, and sees to what follows.
    pub fn push_drill_outcome_events(&mut self, outcome: DrillOutcome, events: &mut Vec<GameEvent>)
        requires
            old(self).wf(),
        ensures
            final(self).wf(),
            (final(self)@, final(events)@) == stroke_told((old(self)@, old(events)@), outcome),
    {
        match outcome {
            DrillOutcome::OutOfBounds | DrillOutcome::NoEffect => {},
            DrillOutcome::RockHitIntact => {
                events.push(GameEvent::DrillImpact);
                events.push(GameEvent::RockHitIntact);
            },
            DrillOutcome::RockDestroyed { blocks } => {
                events.push(GameEvent::DrillImpact);
                events.push(GameEvent::RockDestroyed { blocks });
                self.add_attack_power(blocks);
                self.check_oxygen_zero(events);
            },
            DrillOutcome::ColorDestroyed { blocks } => {
                events.push(GameEvent::DrillImpact);
                events.push(GameEvent::BlockDestroyed { blocks });
                self.add_attack_power(blocks);
            },
            DrillOutcome::OxygenUntouchedByDrill => {},
            DrillOutcome::CollectedDiamond => {
                events.push(GameEvent::DiamondCollected);
            },
            DrillOutcome::StarDestroyed => {
                events.push(GameEvent::DrillImpact);
                events.push(GameEvent::BlockDestroyed { blocks: 1 });
                self.add_attack_power(1);
            },
            DrillOutcome::CrushedByUnstableOverhead => {
                self.apply_miss(MissCause::DrilledIntoFallingBlock, events);
            },
            DrillOutcome::ItemUntouchedByDrill => {},
        }
    }

    /// Drills at the cell that the player faces. They do not move.
    pub fn try_drill(&mut self) -> (events: Vec<GameEvent>)
        requires
            old(self).wf(),
        ensures
            final(self).wf(),
            (final(self)@, events@) == stroked(old(self)@),
    {
        let mut events: Vec<GameEvent> = Vec::new();
        if !self.consume_drill_cooldown() {
            return events;
        }
        if self.destroy_bomb_facing() {
            events.push(GameEvent::BlockDestroyed { blocks: 1 });
            assert(events@ =~= seq![GameEvent::BlockDestroyed { blocks: 1 }]);
            return events;
        }
        let solid: Vec<Pos> = self.settled_bomb_positions();
        let ghost before = self@;
        let outcome: DrillOutcome = drill_facing(&mut self.board, &mut self.player, &self.gravity_state, &solid);
        proof {
            lemma_drill_keeps(before, spots(solid@));
        }
        self.push_drill_outcome_events(outcome, &mut events);
        events
    }

    /// Does what an input asks for. All but the five ways to move, face and
    /// drill leave the game alone.
    pub fn apply_input(&mut self, action: InputAction) -> (events: Vec<GameEvent>)
        requires
            old(self).wf(),
        ensures
            final(self).wf(),
            (final(self)@, events@) == acted(old(self)@, action),
    {
        match action {
            InputAction::MoveLeft => self.try_move_left(),
            InputAction::MoveRight => self.try_move_right(),
            InputAction::FaceUp => {
                self.face_up();
                Vec::new()
            },
            InputAction::FaceDown => {
                self.face_down();
                Vec::new()
            },
            InputAction::Drill => self.try_drill(),
            _ => Vec::new(),
        }
    }

    /// Whether the block at a cell may come down. Off the field, nothing may.
    pub fn is_cell_unstable(&self, row: usize, col: usize) -> (r: bool)
        requires
            self.wf(),
        ensures
            r == (row < self@.grid.len() && col < self@.width && may_fall(
                self@.grid,
                self@.gravity,
                (row as int, col as int),
                spot(self@.here()),
                spots(resting_places(self@.bombs)),
            )),
    {
        if row >= self.board.depth_rows() || col >= self.board.width() {
            return false;
        }
        assert(self@.grid[row as int].len() == self@.width);
        let solid: Vec<Pos> = self.settled_bomb_positions();
        is_falling_hazard(&self.board, &self.gravity_state, (row, col), self.player.position(), &solid)
    }
}

/// Drilling does not move the player, nor does it change the shape of the
/// field.
pub proof fn lemma_drill_keeps(w: World, solid: Set<Spot>)
    requires
        sound(w),
    ensures
        ({
            let d = drilled_facing(w.grid, w.player, w.gravity, solid);
            &&& d.player.row == w.player.row
            &&& d.player.col == w.player.col
            &&& d.player.facing == w.player.facing
            &&& d.grid.len() == w.grid.len()
            &&& sound(World { grid: d.grid, player: d.player, ..w })
        }),
{
}

} // verus!
