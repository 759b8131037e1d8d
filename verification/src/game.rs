//! The state of a game, how a game starts, and what must hold of it.
//!
//! A game is a field, a player, the gravity state, what is still to be seen of
//! blocks that are gone, and a core of plain numbers: clocks, settings and
//! counters. Its mathematical counterpart is a `World`. Every operation says
//! which world it makes out of the world it finds.
use vstd::prelude::*;

use crate::board::{rectangular, BlockMove, Board, Grid, ItemEffect, Pos};
use crate::bombs::{Bomb, IncomingRock};
use crate::constants::{
    clamped, minus, ms, ATTACK_BLOCKS_PER_ROCK_DEFAULT, ATTACK_ROCKS_PER_WAVE_MAX_DEFAULT, BOMB_FUSE_MS,
    CHAIN_VANISH_INTERVAL_MS_DEFAULT, CHAIN_VANISH_INTERVAL_MS_MAX, CHECKPOINT_SAFE_ZONE_M,
    CHECKPOINT_STEP_M, DEBUG_FALL_TICK_MS_MAX, DEBUG_FALL_TICK_MS_MIN, DEBUG_SHAKE_DURATION_MS_MAX,
    DODGE_RECOVERY_MS_DEFAULT, DODGE_RECOVERY_MS_MAX, FALL_TICK_MS, FIELD_DEPTH_M, FIELD_WIDTH_DEFAULT,
    FIELD_WIDTH_MAX, FIELD_WIDTH_MIN, INPUT_COOLDOWN_ACCUM_CAP_MS, INPUT_COOLDOWN_MS, LIVES_DEFAULT,
    MOVE_ANIM_DURATION_MS, MOVE_COOLDOWN_MS_DEFAULT, MOVE_COOLDOWN_MS_MAX, MOVE_COOLDOWN_MS_MIN,
    NANOS_PER_MS, REWIND_STOCK_INITIAL, REWIND_STOCK_MAX_DEFAULT, SHAKE_DURATION_MS,
    SPAWN_RATE_PERCENT_DEFAULT,
};
use crate::dice::Dice;
use crate::flash::{Blaze, VanishedCell};
use crate::flood::Spot;
use crate::gravity::{GravityState, Loose};
use crate::player::{level_at, Player};
use crate::terrain::{field_of_seed, lemma_first_rows};

verus! {

/// What a key press asks for.
#[derive(Debug, Clone, Copy, PartialEq, Eq, Structural)]
pub enum InputAction {
    /// Face left and step there, or climb, without drilling.
    MoveLeft,
    /// Face right and step there, or climb, without drilling.
    MoveRight,
    /// Face up, and nothing else.
    FaceUp,
    /// Face down, and nothing else.
    FaceDown,
    /// Drill at the cell that is faced, without moving.
    Drill,
    TogglePause,
    /// Back to the title, or out of the program if that is on show.
    Quit,
    ToggleMusic,
    ToggleSe,
    DebugUnifyNearbyColors,
    DebugAddLife,
    DebugFillAir,
    DebugClearAbovePlayer,
    DebugStarifyVisibleScreen,
    DebugPlaceBomb,
    DebugReceiveOpponentAttack,
    DebugBlockFallSlower,
    DebugBlockFallFaster,
    DebugPlayerFallSlower,
    DebugPlayerFallFaster,
    DebugShakeDurationLonger,
    DebugShakeDurationShorter,
    DebugToggleAutopilot,
    DebugToggleInvincible,
    OpenSettings,
    OpenHelp,
    /// The enter key, which starts a game and confirms a choice.
    Confirm,
    /// A key that stands for nothing; it resumes a paused game.
    UnboundKey,
    /// Go back in time.
    Rewind,
    /// The host of a room starts the match.
    StartRoom,
    /// A match against the computer.
    StartAiBattle,
}

/// Where a game stands.
#[derive(Debug, Clone, Copy, PartialEq, Eq, Structural)]
pub enum GameStatus {
    Playing,
    Paused,
    GameOver,
    Cleared,
}

/// The stages of the slide after a narrow escape.
#[derive(Debug, Clone, Copy, PartialEq, Eq, Structural)]
pub enum DodgeStage {
    /// No slide.
    Idle,
    Sliding,
    /// Getting up after the slide.
    Recovering,
}

/// The choices once a game is over.
#[derive(Debug, Clone, Copy, PartialEq, Eq, Structural)]
pub enum GameOverChoice {
    BackToTitle,
    Revive,
}

/// What cost a life.
#[derive(Debug, Clone, Copy, PartialEq, Eq, Structural)]
pub enum MissCause {
    OxygenOut,
    CrushedByFallingBlock,
    DrilledIntoFallingBlock,
    BombBlast,
}

/// The name of a cause.
pub open spec fn cause_name(cause: MissCause) -> Seq<char> {
    match cause {
        MissCause::OxygenOut => "OxygenOut"@,
        MissCause::CrushedByFallingBlock => "CrushedByFallingBlock"@,
        MissCause::DrilledIntoFallingBlock => "DrilledIntoFallingBlock"@,
        MissCause::BombBlast => "BombBlast"@,
    }
}

impl MissCause {
    /// The name of the cause, for the record.
    pub fn as_str(self) -> (name: &'static str)
        ensures
            name@ == cause_name(self),
    {
        match self {
            MissCause::OxygenOut => "OxygenOut",
            MissCause::CrushedByFallingBlock => "CrushedByFallingBlock",
            MissCause::DrilledIntoFallingBlock => "DrilledIntoFallingBlock",
            MissCause::BombBlast => "BombBlast",
        }
    }
}

/// Something that happened, for sound and display to react to.
#[derive(Debug, Clone, Copy, PartialEq, Eq, Structural)]
pub enum GameEvent {
    /// The drill hit a block.
    DrillImpact,
    /// A rock was hit and still stands.
    RockHitIntact,
    /// So many blocks other than rocks are gone.
    BlockDestroyed { blocks: usize },
    /// So many rocks are gone.
    RockDestroyed { blocks: usize },
    /// A narrow escape.
    DodgeTriggered,
    OxygenCollected,
    DiamondCollected,
    /// Once a second while the air is low.
    OxygenWarningTick,
    LevelUp { level: usize },
    ExtraLifeAtLevel { level: usize },
    /// A life is lost and others are left.
    LifeLost { cause: MissCause },
    /// The player is back after losing a life.
    Revived,
    /// The last life is lost.
    GameOverMiss { cause: MissCause },
    /// The goal is reached.
    Cleared,
    ItemCollected(ItemEffect),
    BombExploded,
    BombFuseWarning,
    BombFuseTick,
    /// A checkpoint is reached, at this depth.
    Checkpoint100m { at_m: usize },
    /// Rocks of an opponent are on the field.
    IncomingRocksSpawned { rocks: usize },
    /// A life would be lost if the player were not invincible.
    MissAverted { cause: MissCause },
}

/// The plain numbers of a game. Times are in nanoseconds unless the name says
/// otherwise.
#[derive(Debug, Clone, Copy)]
pub struct Core {
    /// Time saved up towards the next tick of gravity.
    pub fall_tick_accum: u64,
    /// Time saved up towards the next tick of free fall.
    pub player_fall_tick_accum: u64,
    /// Time between two ticks of gravity at the surface, in milliseconds.
    pub block_fall_tick_ms: u64,
    /// How long a block shakes before it falls, in milliseconds.
    pub shake_duration_ms: u64,
    /// Time between two ticks of free fall, in milliseconds.
    pub player_fall_tick_ms: u64,
    /// Time between two steps, in milliseconds.
    pub move_cooldown_ms: u64,
    /// How long gravity rests after blocks have vanished, in milliseconds.
    pub chain_vanish_interval_ms: u64,
    pub chain_pause_remaining: u64,
    /// Time saved up towards the next step. What one step does not use up is
    /// kept for the next.
    pub move_cooldown_accum: u64,
    /// Time saved up towards the next drill stroke.
    pub drill_cooldown_accum: u64,
    pub oxygen_warning_accum: u64,
    /// Gravity ticks for which the player cannot be crushed.
    pub invulnerability_ticks_remaining: u32,
    pub last_level_reported: usize,
    pub last_checkpoint_reported: usize,
    pub crush_flash_remaining: u64,
    pub checkpoint_flash_remaining: u64,
    pub checkpoint_flash_depth_m: usize,
    /// While the player rises to heaven, the time until they are there.
    pub ascending_remaining: Option<u64>,
    pub drill_flash_remaining: u64,
    pub dodge_stage: DodgeStage,
    pub dodge_stage_remaining: u64,
    /// How long the player takes to get up, in milliseconds.
    pub dodge_recovery_ms: u64,
    /// The cell that the player has fled from, if something shook above it.
    pub dodge_watch_cell: Option<Pos>,
    pub dodge_watch_remaining: u64,
    /// Where the player was before their latest move.
    pub render_prev_position: Pos,
    /// Time since that move.
    pub render_anim_elapsed: u64,
    /// How long that move is drawn.
    pub render_anim_duration: u64,
    pub game_over_selection: GameOverChoice,
    pub frame_counter: u64,
    pub bomb_spawn_check_accum_ms: u64,
    pub bomb_spawn_rate_percent: u32,
    pub bomb_fuse_ms: u32,
    pub item_clear_above_rate_percent: u32,
    pub item_unify_colors_rate_percent: u32,
    pub item_starify_screen_rate_percent: u32,
    /// The rows before this one have had their chance of items.
    pub item_top_up_frontier_row: usize,
    pub rng: Dice,
    /// The depth at which the course ends.
    pub depth_goal_m: usize,
    /// Nothing costs a life.
    pub invincible: bool,
    pub misses_averted: u32,
    /// How often the player may still go back in time.
    pub rewind_stock: u8,
    pub rewind_stock_max: u8,
    pub attack_rules_enabled: bool,
    /// Blocks destroyed that have not been sent to the opponent yet.
    pub attack_power_pending: u32,
    /// What the opponent has sent and has not become rocks yet.
    pub incoming_attack_power: u32,
    /// How much of that makes one rock.
    pub attack_blocks_per_rock: u32,
    /// The most rocks that come at once.
    pub attack_rocks_per_wave_max: u32,
}

/// A game.
#[derive(Debug)]
pub struct Game {
    pub board: Board,
    pub player: Player,
    pub status: GameStatus,
    pub gravity_state: GravityState,
    /// The blocks that the latest tick of gravity moved.
    pub last_block_moves: Vec<BlockMove>,
    pub recently_vanished: Vec<VanishedCell>,
    pub recently_exploded: Vec<Blaze>,
    pub bombs: Vec<Bomb>,
    pub incoming_rocks: Vec<IncomingRock>,
    pub core: Core,
}

/// The mathematical state of a game.
#[verifier::ext_equal]
pub struct World {
    pub grid: Grid,
    pub width: usize,
    pub player: Player,
    pub status: GameStatus,
    pub gravity: Loose,
    pub moves: Seq<BlockMove>,
    pub vanished: Seq<VanishedCell>,
    pub exploded: Seq<Blaze>,
    pub bombs: Seq<Bomb>,
    pub rocks: Seq<IncomingRock>,
    pub core: Core,
}

/// A world, and what has happened on the way there.
pub type Tale = (World, Seq<GameEvent>);

impl View for Game {
    type V = World;

    open spec fn view(&self) -> World {
        World {
            grid: self.board@,
            width: self.board.width,
            player: self.player,
            status: self.status,
            gravity: self.gravity_state@,
            moves: self.last_block_moves@,
            vanished: self.recently_vanished@,
            exploded: self.recently_exploded@,
            bombs: self.bombs@,
            rocks: self.incoming_rocks@,
            core: self.core,
        }
    }
}

/// The settings lie in their ranges.
pub open spec fn tuned(c: Core) -> bool {
    &&& DEBUG_FALL_TICK_MS_MIN <= c.block_fall_tick_ms <= DEBUG_FALL_TICK_MS_MAX
    &&& DEBUG_FALL_TICK_MS_MIN <= c.player_fall_tick_ms <= DEBUG_FALL_TICK_MS_MAX
    &&& MOVE_COOLDOWN_MS_MIN <= c.move_cooldown_ms <= MOVE_COOLDOWN_MS_MAX
    &&& c.shake_duration_ms <= DEBUG_SHAKE_DURATION_MS_MAX
    &&& c.chain_vanish_interval_ms <= CHAIN_VANISH_INTERVAL_MS_MAX
    &&& c.dodge_recovery_ms <= DODGE_RECOVERY_MS_MAX
}

/// The most time that can be saved up towards the next step.
pub open spec fn move_accum_cap(c: Core) -> int {
    ms(c.move_cooldown_ms + c.move_cooldown_ms as int / 2)
}

/// What holds of every world: the field is rectangular, the player is on it,
/// settings and clocks lie in their ranges, and no more rewinds are in stock
/// than there may be.
pub open spec fn sound(w: World) -> bool {
    &&& rectangular(w.grid, w.width as nat)
    &&& 0 < w.width <= usize::MAX / 4
    &&& w.player.row < w.grid.len() <= usize::MAX
    &&& w.player.col < w.width
    &&& tuned(w.core)
    &&& w.core.move_cooldown_accum <= ms(MOVE_COOLDOWN_MS_MAX + MOVE_COOLDOWN_MS_MAX as int / 2)
    &&& w.core.drill_cooldown_accum <= ms(INPUT_COOLDOWN_ACCUM_CAP_MS as int)
    &&& w.core.render_anim_duration > 0
    &&& w.core.rewind_stock <= w.core.rewind_stock_max
    &&& w.core.last_checkpoint_reported < usize::MAX
}

impl Game {
    /// What holds of every game.
    pub open spec fn wf(&self) -> bool {
        &&& self.gravity_state.wf()
        &&& sound(self@)
    }
}

/// The checkpoint that a depth lies past: its ground is dug through.
pub open spec fn checkpoint_at(depth_m: int) -> int {
    minus(depth_m, CHECKPOINT_SAFE_ZONE_M + 1) / CHECKPOINT_STEP_M as int
}

/// The checkpoint that a depth lies past: the ground of a checkpoint counts as
/// passed once it is dug through, not when it is touched.
pub fn checkpoint_index_for_depth(depth_m: usize) -> (index: usize)
    ensures
        index == checkpoint_at(depth_m as int),
        index * CHECKPOINT_STEP_M <= depth_m,
{
    if depth_m > CHECKPOINT_SAFE_ZONE_M + 1 {
        (depth_m - (CHECKPOINT_SAFE_ZONE_M + 1)) / CHECKPOINT_STEP_M
    } else {
        0
    }
}

/// The numbers at the start of a game.
pub open spec fn fresh_core(seed: u64, start: Pos, depth_goal_m: usize) -> Core {
    Core {
        fall_tick_accum: 0,
        player_fall_tick_accum: 0,
        block_fall_tick_ms: FALL_TICK_MS,
        shake_duration_ms: SHAKE_DURATION_MS,
        player_fall_tick_ms: FALL_TICK_MS,
        move_cooldown_ms: MOVE_COOLDOWN_MS_DEFAULT,
        chain_vanish_interval_ms: CHAIN_VANISH_INTERVAL_MS_DEFAULT,
        chain_pause_remaining: 0,
        move_cooldown_accum: ms(MOVE_COOLDOWN_MS_DEFAULT as int) as u64,
        drill_cooldown_accum: ms(INPUT_COOLDOWN_MS as int) as u64,
        oxygen_warning_accum: 0,
        invulnerability_ticks_remaining: 0,
        last_level_reported: level_at(start.0 + 1) as usize,
        last_checkpoint_reported: checkpoint_at(start.0 + 1) as usize,
        crush_flash_remaining: 0,
        checkpoint_flash_remaining: 0,
        checkpoint_flash_depth_m: 0,
        ascending_remaining: None,
        drill_flash_remaining: 0,
        dodge_stage: DodgeStage::Idle,
        dodge_stage_remaining: 0,
        dodge_recovery_ms: DODGE_RECOVERY_MS_DEFAULT,
        dodge_watch_cell: None,
        dodge_watch_remaining: 0,
        render_prev_position: start,
        render_anim_elapsed: ms(MOVE_ANIM_DURATION_MS as int) as u64,
        render_anim_duration: ms(MOVE_ANIM_DURATION_MS as int) as u64,
        game_over_selection: GameOverChoice::BackToTitle,
        frame_counter: 0,
        bomb_spawn_check_accum_ms: 0,
        bomb_spawn_rate_percent: SPAWN_RATE_PERCENT_DEFAULT,
        bomb_fuse_ms: BOMB_FUSE_MS,
        item_clear_above_rate_percent: SPAWN_RATE_PERCENT_DEFAULT,
        item_unify_colors_rate_percent: SPAWN_RATE_PERCENT_DEFAULT,
        item_starify_screen_rate_percent: SPAWN_RATE_PERCENT_DEFAULT,
        item_top_up_frontier_row: 0,
        rng: Dice::seeded(!seed),
        depth_goal_m,
        invincible: false,
        misses_averted: 0,
        rewind_stock: REWIND_STOCK_INITIAL,
        rewind_stock_max: REWIND_STOCK_MAX_DEFAULT,
        attack_rules_enabled: false,
        attack_power_pending: 0,
        incoming_attack_power: 0,
        attack_blocks_per_rock: ATTACK_BLOCKS_PER_ROCK_DEFAULT,
        attack_rocks_per_wave_max: ATTACK_ROCKS_PER_WAVE_MAX_DEFAULT,
    }
}

/// The width that a field gets when `width` is asked for.
pub open spec fn field_width(width: usize) -> usize {
    clamped(width as int, FIELD_WIDTH_MIN as int, FIELD_WIDTH_MAX as int) as usize
}

/// The world at the start of a game.
pub open spec fn fresh_world(seed: u64, lives: u8, width: usize, depth_goal_m: usize) -> World {
    let w = field_width(width);
    let player = Player { col: (w / 2) as usize, ..Player::fresh(lives) };
    World {
        grid: field_of_seed(seed, depth_goal_m as nat, w),
        width: w,
        player,
        status: GameStatus::Playing,
        gravity: Loose { waits: Map::<Spot, u16>::empty(), shake_ticks: 0 },
        moves: Seq::empty(),
        vanished: Seq::empty(),
        exploded: Seq::empty(),
        bombs: Seq::empty(),
        rocks: Seq::empty(),
        core: fresh_core(seed, (player.row, player.col), depth_goal_m),
    }
}

impl Game {
    /// A game on the normal course with the default lives and width.
    pub fn new(seed: u64) -> (game: Game)
        ensures
            game.wf(),
            game@ == fresh_world(seed, LIVES_DEFAULT, FIELD_WIDTH_DEFAULT, FIELD_DEPTH_M),
    {
        Game::new_with_lives(seed, LIVES_DEFAULT)
    }

    /// A game on the normal course with the default width.
    pub fn new_with_lives(seed: u64, lives: u8) -> (game: Game)
        ensures
            game.wf(),
            game@ == fresh_world(seed, lives, FIELD_WIDTH_DEFAULT, FIELD_DEPTH_M),
    {
        Game::new_with_lives_and_width(seed, lives, FIELD_WIDTH_DEFAULT)
    }

    /// A game with the default lives.
    pub fn new_with_width(seed: u64, width: usize, depth_goal_m: usize) -> (game: Game)
        ensures
            game.gravity_state.wf(),
            depth_goal_m > 0 ==> game.wf(),
            game@ == fresh_world(seed, LIVES_DEFAULT, width, depth_goal_m),
    {
        Game::new_with_lives_and_width_and_depth_goal(seed, LIVES_DEFAULT, width, depth_goal_m)
    }

    /// A game on the normal course.
    pub fn new_with_lives_and_width(seed: u64, lives: u8, width: usize) -> (game: Game)
        ensures
            game.wf(),
            game@ == fresh_world(seed, lives, width, FIELD_DEPTH_M),
    {
        Game::new_with_lives_and_width_and_depth_goal(seed, lives, width, FIELD_DEPTH_M)
    }

    /// A game with a seed, lives, a width, which is brought into the range of
    /// widths, and a goal. On a course without any depth there is no cell for
    /// the player to stand in, and nothing can be done with the game.
    pub fn new_with_lives_and_width_and_depth_goal(
        seed: u64,
        lives: u8,
        width: usize,
        depth_goal_m: usize,
    ) -> (game: Game)
        ensures
            game.gravity_state.wf(),
            depth_goal_m > 0 ==> game.wf(),
            game@ == fresh_world(seed, lives, width, depth_goal_m),
    {
        let w: usize = if width < FIELD_WIDTH_MIN {
            FIELD_WIDTH_MIN
        } else if width > FIELD_WIDTH_MAX {
            FIELD_WIDTH_MAX
        } else {
            width
        };
        let mut player = Player::with_lives(lives);
        player.recenter_for_width(w);
        let gravity_state = GravityState::new();
        let board = Board::generate(seed, depth_goal_m, w);
        let core = Core {
            fall_tick_accum: 0,
            player_fall_tick_accum: 0,
            block_fall_tick_ms: FALL_TICK_MS,
            shake_duration_ms: SHAKE_DURATION_MS,
            player_fall_tick_ms: FALL_TICK_MS,
            move_cooldown_ms: MOVE_COOLDOWN_MS_DEFAULT,
            chain_vanish_interval_ms: CHAIN_VANISH_INTERVAL_MS_DEFAULT,
            chain_pause_remaining: 0,
            move_cooldown_accum: MOVE_COOLDOWN_MS_DEFAULT * NANOS_PER_MS,
            drill_cooldown_accum: INPUT_COOLDOWN_MS * NANOS_PER_MS,
            oxygen_warning_accum: 0,
            invulnerability_ticks_remaining: 0,
            last_level_reported: player.level(),
            last_checkpoint_reported: checkpoint_index_for_depth(player.depth_m()),
            crush_flash_remaining: 0,
            checkpoint_flash_remaining: 0,
            checkpoint_flash_depth_m: 0,
            ascending_remaining: None,
            drill_flash_remaining: 0,
            dodge_stage: DodgeStage::Idle,
            dodge_stage_remaining: 0,
            dodge_recovery_ms: DODGE_RECOVERY_MS_DEFAULT,
            dodge_watch_cell: None,
            dodge_watch_remaining: 0,
            render_prev_position: player.position(),
            render_anim_elapsed: MOVE_ANIM_DURATION_MS * NANOS_PER_MS,
            render_anim_duration: MOVE_ANIM_DURATION_MS * NANOS_PER_MS,
            game_over_selection: GameOverChoice::BackToTitle,
            frame_counter: 0,
            bomb_spawn_check_accum_ms: 0,
            bomb_spawn_rate_percent: SPAWN_RATE_PERCENT_DEFAULT,
            bomb_fuse_ms: BOMB_FUSE_MS,
            item_clear_above_rate_percent: SPAWN_RATE_PERCENT_DEFAULT,
            item_unify_colors_rate_percent: SPAWN_RATE_PERCENT_DEFAULT,
            item_starify_screen_rate_percent: SPAWN_RATE_PERCENT_DEFAULT,
            item_top_up_frontier_row: 0,
            rng: Dice::new(!seed),
            depth_goal_m,
            invincible: false,
            misses_averted: 0,
            rewind_stock: REWIND_STOCK_INITIAL,
            rewind_stock_max: REWIND_STOCK_MAX_DEFAULT,
            attack_rules_enabled: false,
            attack_power_pending: 0,
            incoming_attack_power: 0,
            attack_blocks_per_rock: ATTACK_BLOCKS_PER_ROCK_DEFAULT,
            attack_rocks_per_wave_max: ATTACK_ROCKS_PER_WAVE_MAX_DEFAULT,
        };
        let game = Game {
            board,
            player,
            status: GameStatus::Playing,
            gravity_state,
            last_block_moves: Vec::new(),
            recently_vanished: Vec::new(),
            recently_exploded: Vec::new(),
            bombs: Vec::new(),
            incoming_rocks: Vec::new(),
            core,
        };
        proof {
            lemma_first_rows(Dice::seeded(seed), depth_goal_m as nat, w);
            assert(game@ =~= fresh_world(seed, lives, width, depth_goal_m));
        }
        game
    }
}

} // verus!
