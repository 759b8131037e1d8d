//! The player: where they are, how much air, how many lives and how many
//! points they have.
use vstd::prelude::*;

use crate::constants::{
    least, minus, plus64, FIELD_WIDTH_DEFAULT, LEVEL_STEP_M, LIVES_DEFAULT, OXYGEN_CAPSULE_RESTORE,
    OXYGEN_MAX, OXYGEN_ROCK_PENALTY, OXYGEN_UNIT, SCORE_PER_CAPSULE, SCORE_PER_DIAMOND,
    SCORE_PER_DRILLED_BLOCK, SCORE_PER_VANISHED_BLOCK,
};

verus! {

/// Where the player faces.
#[derive(Debug, Clone, Copy, PartialEq, Eq, Structural)]
pub enum Direction {
    Up,
    Down,
    Left,
    Right,
}

impl Direction {
    /// The row and column step of the direction.
    pub open spec fn step(self) -> (int, int) {
        match self {
            Direction::Up => (-1, 0),
            Direction::Down => (1, 0),
            Direction::Left => (0, -1),
            Direction::Right => (0, 1),
        }
    }

    /// The row and column step of the direction.
    pub fn delta(self) -> (d: (isize, isize))
        ensures
            d.0 == self.step().0,
            d.1 == self.step().1,
    {
        match self {
            Direction::Up => (-1, 0),
            Direction::Down => (1, 0),
            Direction::Left => (0, -1),
            Direction::Right => (0, 1),
        }
    }
}

/// The state of the player.
#[derive(Debug, Clone, Copy)]
pub struct Player {
    pub row: usize,
    pub col: usize,
    pub facing: Direction,
    /// The side on which the player has bumped into something with their
    /// latest step, if that step was stopped.
    pub bumped_direction: Option<Direction>,
    /// The air gauge, in `OXYGEN_UNIT`ths of a point.
    pub oxygen: u64,
    pub lives: u8,
    pub score: u64,
    pub oxygen_capsules_collected: u32,
    pub diamonds_collected: u32,
    /// The part of the score that diamonds brought.
    pub diamond_score: u64,
    /// The bonuses for reaching checkpoints in time.
    pub time_bonus_total: u64,
    /// Playing time in nanoseconds.
    pub elapsed_nanos: u64,
}

/// The level at a depth: one for every `LEVEL_STEP_M` metres begun.
pub open spec fn level_at(depth_m: int) -> int {
    (depth_m - 1) / LEVEL_STEP_M as int + 1
}

impl Player {
    /// A player at the surface, in the middle of a field of default width.
    pub open spec fn fresh(lives: u8) -> Player {
        Player {
            row: 0,
            col: (FIELD_WIDTH_DEFAULT / 2) as usize,
            facing: Direction::Down,
            bumped_direction: None,
            oxygen: OXYGEN_MAX,
            lives,
            score: 0,
            oxygen_capsules_collected: 0,
            diamonds_collected: 0,
            diamond_score: 0,
            time_bonus_total: 0,
            elapsed_nanos: 0,
        }
    }

    /// The score raised, up to the largest that can be counted.
    pub open spec fn scored(self, points: int) -> Player {
        Player { score: plus64(self.score as int, points) as u64, ..self }
    }

    /// The gauge raised, up to full.
    pub open spec fn breathed(self, amount: int) -> Player {
        Player { oxygen: least(self.oxygen + amount, OXYGEN_MAX as int) as u64, ..self }
    }

    /// The gauge lowered, down to empty.
    pub open spec fn drained(self, amount: int) -> Player {
        Player { oxygen: minus(self.oxygen as int, amount) as u64, ..self }
    }

    /// After taking an air capsule: the n-th one brings n times the score of
    /// the first.
    pub open spec fn capsule_taken(self) -> Player {
        let n = least(self.oxygen_capsules_collected + 1, u32::MAX as int);
        (Player { oxygen_capsules_collected: n as u32, ..self }).scored(
            n * SCORE_PER_CAPSULE,
        ).breathed(OXYGEN_CAPSULE_RESTORE as int)
    }

    /// After taking a diamond.
    pub open spec fn diamond_taken(self) -> Player {
        (Player {
            diamonds_collected: least(self.diamonds_collected + 1, u32::MAX as int) as u32,
            diamond_score: plus64(self.diamond_score as int, SCORE_PER_DIAMOND as int) as u64,
            ..self
        }).scored(SCORE_PER_DIAMOND as int)
    }

    /// After losing a life. The gauge is filled only if a life is left.
    pub open spec fn life_lost(self) -> Player {
        let lives = minus(self.lives as int, 1) as u8;
        Player { lives, oxygen: if lives == 0 { self.oxygen } else { OXYGEN_MAX }, ..self }
    }

    /// A player with the default number of lives.
    pub fn new() -> (p: Self)
        ensures
            p == Player::fresh(LIVES_DEFAULT),
    {
        Player::with_lives(LIVES_DEFAULT)
    }

    /// A player with a chosen number of lives.
    pub fn with_lives(lives: u8) -> (p: Self)
        ensures
            p == Player::fresh(lives),
    {
        Player {
            row: 0,
            col: FIELD_WIDTH_DEFAULT / 2,
            facing: Direction::Down,
            bumped_direction: None,
            oxygen: OXYGEN_MAX,
            lives,
            score: 0,
            oxygen_capsules_collected: 0,
            diamonds_collected: 0,
            diamond_score: 0,
            time_bonus_total: 0,
            elapsed_nanos: 0,
        }
    }

    /// Puts the player into the middle column of a field.
    pub fn recenter_for_width(&mut self, width: usize)
        ensures
            *final(self) == (Player { col: (width / 2) as usize, ..*old(self) }),
    {
        self.col = width / 2;
    }

    /// Row and column.
    pub fn position(&self) -> (p: (usize, usize))
        ensures
            p == (self.row, self.col),
    {
        (self.row, self.col)
    }

    /// The depth reached: the number of rows dug, so the first row counts as
    /// one metre.
    pub fn depth_m(&self) -> (d: usize)
        requires
            self.row < usize::MAX,
        ensures
            d == self.row + 1,
    {
        self.row + 1
    }

    /// The greatest depth reached. Nobody digs upwards, so it is the depth.
    pub fn max_depth_m(&self) -> (d: usize)
        requires
            self.row < usize::MAX,
        ensures
            d == self.row + 1,
    {
        self.depth_m()
    }

    /// The level at the player's depth.
    pub fn level(&self) -> (level: usize)
        requires
            self.row < usize::MAX,
        ensures
            level == level_at(self.row + 1),
            level >= 1,
    {
        self.row / LEVEL_STEP_M + 1
    }

    /// Fills the gauge by `amount`, up to full.
    pub fn add_oxygen(&mut self, amount: u64)
        ensures
            *final(self) == old(self).breathed(amount as int),
    {
        if amount >= OXYGEN_MAX || self.oxygen >= OXYGEN_MAX - amount {
            self.oxygen = OXYGEN_MAX;
        } else {
            self.oxygen = self.oxygen + amount;
        }
    }

    /// Lowers the gauge by so many points per second for `elapsed_nanos`, down
    /// to empty.
    pub fn decay_oxygen(&mut self, decay_per_sec: u64, elapsed_nanos: u64)
        ensures
            *final(self) == old(self).drained(decay_per_sec * elapsed_nanos),
    {
        proof {
            assert(decay_per_sec as u128 * elapsed_nanos as u128 <= u64::MAX as u128 * u64::MAX as u128)
                by (nonlinear_arith)
                requires
                    decay_per_sec <= u64::MAX,
                    elapsed_nanos <= u64::MAX,
            ;
        }
        let amount: u128 = decay_per_sec as u128 * elapsed_nanos as u128;
        if amount >= self.oxygen as u128 {
            self.oxygen = 0;
        } else {
            self.oxygen = self.oxygen - amount as u64;
        }
    }

    /// Whether the gauge is empty.
    pub fn is_out_of_oxygen(&self) -> (r: bool)
        ensures
            r == (self.oxygen == 0),
    {
        self.oxygen == 0
    }

    /// The gauge in whole points, for display.
    pub fn oxygen_display(&self) -> (points: u32)
        ensures
            points == least(self.oxygen as int / OXYGEN_UNIT as int, u32::MAX as int),
    {
        let points: u64 = self.oxygen / OXYGEN_UNIT;
        if points > u32::MAX as u64 {
            u32::MAX
        } else {
            points as u32
        }
    }

    /// The final score: depth times a factor, diamonds, and time bonuses.
    pub fn total_score(&self, depth_score_multiplier: u64) -> (score: u64)
        requires
            (self.row + 1) * depth_score_multiplier + self.diamond_score + self.time_bonus_total
                <= u64::MAX,
            self.row < usize::MAX,
            self.row < u64::MAX,
        ensures
            score == (self.row + 1) * depth_score_multiplier + self.diamond_score + self.time_bonus_total,
    {
        let depth: u64 = self.max_depth_m() as u64;
        proof {
            assert(depth == self.row + 1);
            assert((self.row + 1) * depth_score_multiplier >= 0) by (nonlinear_arith)
                requires
                    self.row >= 0,
                    depth_score_multiplier >= 0,
            ;
        }
        depth * depth_score_multiplier + self.diamond_score + self.time_bonus_total
    }

    fn add_score(&mut self, points: u64)
        ensures
            *final(self) == old(self).scored(points as int),
    {
        if points > u64::MAX - self.score {
            self.score = u64::MAX;
        } else {
            self.score = self.score + points;
        }
    }

    /// So many points each for so many blocks.
    fn add_block_score(&mut self, blocks: usize, each: u64)
        requires
            1 <= each <= 1000,
        ensures
            *final(self) == old(self).scored(blocks * each),
    {
        let n: u64 = blocks as u64;
        proof {
            assert(n * each <= u64::MAX * 1000) by (nonlinear_arith)
                requires
                    n <= u64::MAX,
                    each <= 1000,
            ;
        }
        let points: u128 = n as u128 * each as u128;
        if points > u64::MAX as u128 {
            self.add_score(u64::MAX);
        } else {
            self.add_score(points as u64);
        }
    }

    /// Scores blocks that a drill stroke destroyed.
    pub fn award_drill_score(&mut self, blocks: usize)
        ensures
            *final(self) == old(self).scored(blocks * SCORE_PER_DRILLED_BLOCK),
    {
        self.add_block_score(blocks, SCORE_PER_DRILLED_BLOCK);
    }

    /// Scores blocks that vanished by themselves.
    pub fn award_auto_vanish_score(&mut self, blocks: usize)
        ensures
            *final(self) == old(self).scored(blocks * SCORE_PER_VANISHED_BLOCK),
    {
        self.add_block_score(blocks, SCORE_PER_VANISHED_BLOCK);
    }

    /// Pays in air for breaking a rock.
    pub fn apply_rock_break_penalty(&mut self)
        ensures
            *final(self) == old(self).drained(OXYGEN_ROCK_PENALTY as int),
    {
        if self.oxygen <= OXYGEN_ROCK_PENALTY {
            self.oxygen = 0;
        } else {
            self.oxygen = self.oxygen - OXYGEN_ROCK_PENALTY;
        }
    }

    /// Takes a diamond.
    pub fn collect_diamond(&mut self)
        ensures
            *final(self) == old(self).diamond_taken(),
    {
        if self.diamonds_collected < u32::MAX {
            self.diamonds_collected = self.diamonds_collected + 1;
        }
        if self.diamond_score > u64::MAX - SCORE_PER_DIAMOND {
            self.diamond_score = u64::MAX;
        } else {
            self.diamond_score = self.diamond_score + SCORE_PER_DIAMOND;
        }
        self.add_score(SCORE_PER_DIAMOND);
    }

    /// Takes an air capsule.
    pub fn collect_oxygen_capsule(&mut self)
        ensures
            *final(self) == old(self).capsule_taken(),
    {
        if self.oxygen_capsules_collected < u32::MAX {
            self.oxygen_capsules_collected = self.oxygen_capsules_collected + 1;
        }
        let n: u64 = self.oxygen_capsules_collected as u64;
        self.add_score(n * SCORE_PER_CAPSULE);
        self.add_oxygen(OXYGEN_CAPSULE_RESTORE);
    }

    /// Loses a life. Returns whether it was the last; if not, the gauge is
    /// full again.
    pub fn lose_life(&mut self) -> (last: bool)
        ensures
            *final(self) == old(self).life_lost(),
            last == (final(self).lives == 0),
    {
        if self.lives > 0 {
            self.lives = self.lives - 1;
        }
        if self.lives == 0 {
            true
        } else {
            self.oxygen = OXYGEN_MAX;
            false
        }
    }
}

impl Default for Player {
    fn default() -> (p: Self)
        ensures
            p == Player::fresh(LIVES_DEFAULT),
    {
        Player::new()
    }
}

} // verus!
