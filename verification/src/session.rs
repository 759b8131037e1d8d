//! Around the game itself: pausing, the choice at the end, coming back, going
//! back in time, invincibility, and the helps of a developer.
use vstd::prelude::*;

use crate::board::copy_list;
use crate::constants::{
    least, minus, INVULNERABILITY_TICKS, LIVES_DEFAULT, LIVES_MAX, OXYGEN_MAX, REWIND_STOCK_INITIAL,
};
use crate::game::{Core, Game, GameOverChoice, GameStatus, World};
use crate::journey::one_up;
use crate::player::Player;

verus! {

impl World {
    /// The game is paused, or goes on. A game that has ended stays as it is.
    pub open spec fn paused_or_not(self) -> World {
        World {
            status: match self.status {
                GameStatus::Playing => GameStatus::Paused,
                GameStatus::Paused => GameStatus::Playing,
                other => other,
            },
            ..self
        }
    }

    /// The other choice at the end of a game.
    pub open spec fn other_choice(self) -> World {
        if self.status != GameStatus::GameOver {
            self
        } else {
            self.with_core(
                Core {
                    game_over_selection: match self.core.game_over_selection {
                        GameOverChoice::BackToTitle => GameOverChoice::Revive,
                        GameOverChoice::Revive => GameOverChoice::BackToTitle,
                    },
                    ..self.core
                },
            )
        }
    }

    /// The player goes on after the game was over, where they were, with the
    /// lives, the air and the rewinds of a new game.
    pub open spec fn revived(self) -> World {
        if self.status != GameStatus::GameOver {
            self
        } else {
            World {
                status: GameStatus::Playing,
                player: Player { lives: LIVES_DEFAULT, oxygen: OXYGEN_MAX, ..self.player },
                core: Core {
                    invulnerability_ticks_remaining: INVULNERABILITY_TICKS,
                    rewind_stock: least(
                        REWIND_STOCK_INITIAL as int,
                        self.core.rewind_stock_max as int,
                    ) as u8,
                    ..self.core
                },
                ..self
            }
        }
    }

    /// The world of `past`, except for what going back in time does not undo:
    /// the frame count, invincibility, the settings of rewinds and attacks, and
    /// the rewind itself, of which one less is in stock.
    pub open spec fn rewound(self, past: World) -> World {
        World {
            core: Core {
                frame_counter: self.core.frame_counter,
                invincible: self.core.invincible,
                misses_averted: self.core.misses_averted,
                rewind_stock: minus(self.core.rewind_stock as int, 1) as u8,
                rewind_stock_max: self.core.rewind_stock_max,
                attack_blocks_per_rock: self.core.attack_blocks_per_rock,
                attack_rocks_per_wave_max: self.core.attack_rocks_per_wave_max,
                ..past.core
            },
            ..past
        }
    }

    /// The player may go back in time.
    pub open spec fn may_rewind(self) -> bool {
        self.core.rewind_stock > 0 && (self.status == GameStatus::Playing || self.status
            == GameStatus::GameOver)
    }

    /// The moment is worth going back to: the player lives and plays.
    pub open spec fn worth_keeping(self) -> bool {
        self.status == GameStatus::Playing && !self.dying()
    }
}

impl Clone for Game {
    fn clone(&self) -> (copy: Self)
        ensures
            copy@ == self@,
            self.wf() ==> copy.wf(),
    {
        let copy = Game {
            board: self.board.clone(),
            player: self.player,
            status: self.status,
            gravity_state: self.gravity_state.clone(),
            last_block_moves: copy_list(&self.last_block_moves),
            recently_vanished: copy_list(&self.recently_vanished),
            recently_exploded: copy_list(&self.recently_exploded),
            bombs: copy_list(&self.bombs),
            incoming_rocks: copy_list(&self.incoming_rocks),
            core: self.core,
        };
        assert(copy@ =~= self@);
        copy
    }
}

impl Game {
    /// Pauses the game, or lets it go on. A game that has ended stays as it is.
    pub fn toggle_pause(&mut self)
        requires
            old(self).wf(),
        ensures
            final(self).wf(),
            final(self)@ == old(self)@.paused_or_not(),
    {
        self.status = match self.status {
            GameStatus::Playing => GameStatus::Paused,
            GameStatus::Paused => GameStatus::Playing,
            other => other,
        };
    }

    /// The choice at the end of the game.
    pub fn game_over_selection(&self) -> (choice: GameOverChoice)
        ensures
            choice == self.core.game_over_selection,
    {
        self.core.game_over_selection
    }

    /// Goes to the other choice at the end of the game.
    pub fn toggle_game_over_selection(&mut self)
        requires
            old(self).wf(),
        ensures
            final(self).wf(),
            final(self)@ == old(self)@.other_choice(),
    {
        if self.status != GameStatus::GameOver {
            return;
        }
        self.core.game_over_selection = match self.core.game_over_selection {
            GameOverChoice::BackToTitle => GameOverChoice::Revive,
            GameOverChoice::Revive => GameOverChoice::BackToTitle,
        };
    }

    /// Goes on where the game was over.
    pub fn revive(&mut self)
        requires
            old(self).wf(),
        ensures
            final(self).wf(),
            final(self)@ == old(self)@.revived(),
    {
        if self.status != GameStatus::GameOver {
            return;
        }
        self.player.lives = LIVES_DEFAULT;
        self.player.oxygen = OXYGEN_MAX;
        self.core.invulnerability_ticks_remaining = INVULNERABILITY_TICKS;
        self.status = GameStatus::Playing;
        self.core.rewind_stock = if self.core.rewind_stock_max < REWIND_STOCK_INITIAL {
            self.core.rewind_stock_max
        } else {
            REWIND_STOCK_INITIAL
        };
    }

    /// Makes the player invincible, or not.
    pub fn set_invincible(&mut self, on: bool)
        requires
            old(self).wf(),
        ensures
            final(self).wf(),
            final(self)@ == old(self)@.with_core(Core { invincible: on, ..old(self).core }),
    {
        self.core.invincible = on;
    }

    /// Whether the player is invincible.
    pub fn is_invincible(&self) -> (r: bool)
        ensures
            r == self.core.invincible,
    {
        self.core.invincible
    }

    /// How often the player would have lost a life if they were not invincible.
    pub fn misses_averted(&self) -> (n: u32)
        ensures
            n == self.core.misses_averted,
    {
        self.core.misses_averted
    }

    /// How often the player may still go back in time.
    pub fn rewind_stock(&self) -> (n: u8)
        ensures
            n == self.core.rewind_stock,
    {
        self.core.rewind_stock
    }

    /// How many rewinds there may be.
    pub fn rewind_stock_max(&self) -> (n: u8)
        ensures
            n == self.core.rewind_stock_max,
    {
        self.core.rewind_stock_max
    }

    /// Whether the player may go back in time.
    pub fn can_start_rewind(&self) -> (r: bool)
        ensures
            r == self@.may_rewind(),
    {
        self.core.rewind_stock > 0 && matches!(self.status, GameStatus::Playing | GameStatus::GameOver)
    }

    /// Whether the moment is worth going back to.
    pub fn is_rewind_capturable(&self) -> (r: bool)
        ensures
            r == self@.worth_keeping(),
    {
        self.status == GameStatus::Playing && !self.is_dying()
    }

    /// Goes back to a moment that was kept.
    pub fn restore_for_rewind(&mut self, snapshot: &Game)
        requires
            old(self).wf(),
            snapshot.wf(),
        ensures
            final(self).wf(),
            final(self)@ == old(self)@.rewound(snapshot@),
    {
        let now: Core = self.core;
        *self = snapshot.clone();
        self.core.frame_counter = now.frame_counter;
        self.core.invincible = now.invincible;
        self.core.misses_averted = now.misses_averted;
        self.core.rewind_stock = if now.rewind_stock > 0 { now.rewind_stock - 1 } else { 0 };
        self.core.rewind_stock_max = now.rewind_stock_max;
        self.core.attack_blocks_per_rock = now.attack_blocks_per_rock;
        self.core.attack_rocks_per_wave_max = now.attack_rocks_per_wave_max;
    }

    /// Puts the rules of attack into force, or not.
    pub fn set_attack_rules_enabled(&mut self, on: bool)
        requires
            old(self).wf(),
        ensures
            final(self).wf(),
            final(self)@ == old(self)@.with_core(Core { attack_rules_enabled: on, ..old(self).core }),
    {
        self.core.attack_rules_enabled = on;
    }

    /// The blocks destroyed that have not been sent to the opponent yet.
    pub fn attack_power_pending(&self) -> (n: u32)
        ensures
            n == self.core.attack_power_pending,
    {
        self.core.attack_power_pending
    }

    /// Gives the player one life more, while the game is on and they live.
    pub fn debug_add_life(&mut self)
        requires
            old(self).wf(),
        ensures
            final(self).wf(),
            final(self)@ == (if old(self).status == GameStatus::Playing && !old(self)@.dying() {
                World { player: one_up(old(self).player), ..old(self)@ }
            } else {
                old(self)@
            }),
    {
        if self.status == GameStatus::Playing && !self.is_dying() {
            self.player.lives = if self.player.lives >= LIVES_MAX { LIVES_MAX } else { self.player.lives + 1 };
        }
    }

    /// Fills the air gauge, while the game is on.
    pub fn debug_fill_air(&mut self)
        requires
            old(self).wf(),
        ensures
            final(self).wf(),
            final(self)@ == (if old(self).status == GameStatus::Playing {
                World { player: Player { oxygen: OXYGEN_MAX, ..old(self).player }, ..old(self)@ }
            } else {
                old(self)@
            }),
    {
        if self.status == GameStatus::Playing {
            self.player.oxygen = OXYGEN_MAX;
        }
    }
}

} // verus!
