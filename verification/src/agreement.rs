//! What two or more players of a match must agree on: the settings that decide
//! how a game goes, the moves they send each other, and the wire version.
use vstd::prelude::*;

use vstd::std_specs::convert::FromSpecImpl;

use crate::game::InputAction;
use crate::settings::Settings;

verus! {

/// The settings of a match. They are those of the host; a single difference
/// would let the games of the players drift apart. The values that begin with
/// `ai_` hold for computer players.
#[derive(Debug, Clone, Copy, PartialEq, Eq, Structural)]
pub struct BattleConfig {
    /// The depth at which the course ends.
    pub depth_goal_m: u32,
    pub field_width: u32,
    pub rock_spawn_rate_percent: u32,
    pub air_spawn_rate_percent: u32,
    pub star_spawn_rate_percent: u32,
    pub diamond_spawn_rate_percent: u32,
    pub item_clear_above_rate_percent: u32,
    pub item_unify_colors_rate_percent: u32,
    pub item_starify_screen_rate_percent: u32,
    pub color_count: u8,
    pub color_cluster_rate_percent: u32,
    pub bomb_spawn_rate_percent: u32,
    pub bomb_fuse_ms: u32,
    pub attack_blocks_per_rock: u32,
    pub attack_rocks_per_wave_max: u32,
    pub attack_blocks_per_bomb: u32,
    pub attack_bombs_per_wave_max: u32,
    pub attack_bomb_ratio_percent: u32,
    pub block_fall_tick_ms: u64,
    pub player_fall_tick_ms: u64,
    pub shake_duration_ms: u64,
    pub move_cooldown_ms: u64,
    pub dodge_recovery_ms: u64,
    pub chain_vanish_interval_ms: u64,
    pub ai_rock_spawn_rate_percent: u32,
    pub ai_air_spawn_rate_percent: u32,
    pub ai_star_spawn_rate_percent: u32,
    pub ai_diamond_spawn_rate_percent: u32,
    pub ai_item_clear_above_rate_percent: u32,
    pub ai_item_unify_colors_rate_percent: u32,
    pub ai_item_starify_screen_rate_percent: u32,
    pub ai_color_count: u8,
    pub ai_color_cluster_rate_percent: u32,
    pub ai_bomb_spawn_rate_percent: u32,
    pub ai_bomb_fuse_ms: u32,
    pub ai_attack_blocks_per_rock: u32,
    pub ai_attack_rocks_per_wave_max: u32,
    pub ai_attack_blocks_per_bomb: u32,
    pub ai_attack_bombs_per_wave_max: u32,
    pub ai_attack_bomb_ratio_percent: u32,
    pub ai_block_fall_tick_ms: u64,
    pub ai_player_fall_tick_ms: u64,
    pub ai_shake_duration_ms: u64,
    pub ai_chain_vanish_interval_ms: u64,
}

/// The settings of a match that a host with settings `s` starts on a course.
pub open spec fn config_of(s: Settings, depth_goal_m: usize) -> BattleConfig {
    BattleConfig {
        depth_goal_m: depth_goal_m as u32,
        field_width: s.field_width as u32,
        rock_spawn_rate_percent: s.rock_spawn_rate_percent,
        air_spawn_rate_percent: s.air_spawn_rate_percent,
        star_spawn_rate_percent: s.star_spawn_rate_percent,
        diamond_spawn_rate_percent: s.diamond_spawn_rate_percent,
        item_clear_above_rate_percent: s.item_clear_above_rate_percent,
        item_unify_colors_rate_percent: s.item_unify_colors_rate_percent,
        item_starify_screen_rate_percent: s.item_starify_screen_rate_percent,
        color_count: s.color_count,
        color_cluster_rate_percent: s.color_cluster_rate_percent,
        bomb_spawn_rate_percent: s.bomb_spawn_rate_percent,
        bomb_fuse_ms: s.bomb_fuse_ms,
        attack_blocks_per_rock: s.attack_blocks_per_rock,
        attack_rocks_per_wave_max: s.attack_rocks_per_wave_max,
        attack_blocks_per_bomb: s.attack_blocks_per_bomb,
        attack_bombs_per_wave_max: s.attack_bombs_per_wave_max,
        attack_bomb_ratio_percent: s.attack_bomb_ratio_percent,
        block_fall_tick_ms: s.block_fall_tick_ms,
        player_fall_tick_ms: s.player_fall_tick_ms,
        shake_duration_ms: s.shake_duration_ms,
        move_cooldown_ms: s.move_cooldown_ms,
        dodge_recovery_ms: s.dodge_recovery_ms,
        chain_vanish_interval_ms: s.chain_vanish_interval_ms,
        ai_rock_spawn_rate_percent: s.ai_rock_spawn_rate_percent,
        ai_air_spawn_rate_percent: s.ai_air_spawn_rate_percent,
        ai_star_spawn_rate_percent: s.ai_star_spawn_rate_percent,
        ai_diamond_spawn_rate_percent: s.ai_diamond_spawn_rate_percent,
        ai_item_clear_above_rate_percent: s.ai_item_clear_above_rate_percent,
        ai_item_unify_colors_rate_percent: s.ai_item_unify_colors_rate_percent,
        ai_item_starify_screen_rate_percent: s.ai_item_starify_screen_rate_percent,
        ai_color_count: s.ai_color_count,
        ai_color_cluster_rate_percent: s.ai_color_cluster_rate_percent,
        ai_bomb_spawn_rate_percent: s.ai_bomb_spawn_rate_percent,
        ai_bomb_fuse_ms: s.ai_bomb_fuse_ms,
        ai_attack_blocks_per_rock: s.ai_attack_blocks_per_rock,
        ai_attack_rocks_per_wave_max: s.ai_attack_rocks_per_wave_max,
        ai_attack_blocks_per_bomb: s.ai_attack_blocks_per_bomb,
        ai_attack_bombs_per_wave_max: s.ai_attack_bombs_per_wave_max,
        ai_attack_bomb_ratio_percent: s.ai_attack_bomb_ratio_percent,
        ai_block_fall_tick_ms: s.ai_block_fall_tick_ms,
        ai_player_fall_tick_ms: s.ai_player_fall_tick_ms,
        ai_shake_duration_ms: s.ai_shake_duration_ms,
        ai_chain_vanish_interval_ms: s.ai_chain_vanish_interval_ms,
    }
}

/// The settings of a match as they hold for a computer player: the values
/// meant for it stand where those for people stood. The field, the goal and
/// the reaction times are the same for all.
pub open spec fn config_for_ai(c: BattleConfig) -> BattleConfig {
    BattleConfig {
        rock_spawn_rate_percent: c.ai_rock_spawn_rate_percent,
        air_spawn_rate_percent: c.ai_air_spawn_rate_percent,
        star_spawn_rate_percent: c.ai_star_spawn_rate_percent,
        diamond_spawn_rate_percent: c.ai_diamond_spawn_rate_percent,
        item_clear_above_rate_percent: c.ai_item_clear_above_rate_percent,
        item_unify_colors_rate_percent: c.ai_item_unify_colors_rate_percent,
        item_starify_screen_rate_percent: c.ai_item_starify_screen_rate_percent,
        color_count: c.ai_color_count,
        color_cluster_rate_percent: c.ai_color_cluster_rate_percent,
        bomb_spawn_rate_percent: c.ai_bomb_spawn_rate_percent,
        bomb_fuse_ms: c.ai_bomb_fuse_ms,
        attack_blocks_per_rock: c.ai_attack_blocks_per_rock,
        attack_rocks_per_wave_max: c.ai_attack_rocks_per_wave_max,
        attack_blocks_per_bomb: c.ai_attack_blocks_per_bomb,
        attack_bombs_per_wave_max: c.ai_attack_bombs_per_wave_max,
        attack_bomb_ratio_percent: c.ai_attack_bomb_ratio_percent,
        block_fall_tick_ms: c.ai_block_fall_tick_ms,
        player_fall_tick_ms: c.ai_player_fall_tick_ms,
        shake_duration_ms: c.ai_shake_duration_ms,
        chain_vanish_interval_ms: c.ai_chain_vanish_interval_ms,
        ..c
    }
}

impl BattleConfig {
    /// The settings of a match on a course that was just chosen, which need
    /// not be the one that the settings remember.
    pub fn from_settings(settings: &Settings, depth_goal_m: usize) -> (config: Self)
        ensures
            config == config_of(*settings, depth_goal_m),
    {
        BattleConfig {
            depth_goal_m: depth_goal_m as u32,
            field_width: settings.field_width as u32,
            rock_spawn_rate_percent: settings.rock_spawn_rate_percent,
            air_spawn_rate_percent: settings.air_spawn_rate_percent,
            star_spawn_rate_percent: settings.star_spawn_rate_percent,
            diamond_spawn_rate_percent: settings.diamond_spawn_rate_percent,
            item_clear_above_rate_percent: settings.item_clear_above_rate_percent,
            item_unify_colors_rate_percent: settings.item_unify_colors_rate_percent,
            item_starify_screen_rate_percent: settings.item_starify_screen_rate_percent,
            color_count: settings.color_count,
            color_cluster_rate_percent: settings.color_cluster_rate_percent,
            bomb_spawn_rate_percent: settings.bomb_spawn_rate_percent,
            bomb_fuse_ms: settings.bomb_fuse_ms,
            attack_blocks_per_rock: settings.attack_blocks_per_rock,
            attack_rocks_per_wave_max: settings.attack_rocks_per_wave_max,
            attack_blocks_per_bomb: settings.attack_blocks_per_bomb,
            attack_bombs_per_wave_max: settings.attack_bombs_per_wave_max,
            attack_bomb_ratio_percent: settings.attack_bomb_ratio_percent,
            block_fall_tick_ms: settings.block_fall_tick_ms,
            player_fall_tick_ms: settings.player_fall_tick_ms,
            shake_duration_ms: settings.shake_duration_ms,
            move_cooldown_ms: settings.move_cooldown_ms,
            dodge_recovery_ms: settings.dodge_recovery_ms,
            chain_vanish_interval_ms: settings.chain_vanish_interval_ms,
            ai_rock_spawn_rate_percent: settings.ai_rock_spawn_rate_percent,
            ai_air_spawn_rate_percent: settings.ai_air_spawn_rate_percent,
            ai_star_spawn_rate_percent: settings.ai_star_spawn_rate_percent,
            ai_diamond_spawn_rate_percent: settings.ai_diamond_spawn_rate_percent,
            ai_item_clear_above_rate_percent: settings.ai_item_clear_above_rate_percent,
            ai_item_unify_colors_rate_percent: settings.ai_item_unify_colors_rate_percent,
            ai_item_starify_screen_rate_percent: settings.ai_item_starify_screen_rate_percent,
            ai_color_count: settings.ai_color_count,
            ai_color_cluster_rate_percent: settings.ai_color_cluster_rate_percent,
            ai_bomb_spawn_rate_percent: settings.ai_bomb_spawn_rate_percent,
            ai_bomb_fuse_ms: settings.ai_bomb_fuse_ms,
            ai_attack_blocks_per_rock: settings.ai_attack_blocks_per_rock,
            ai_attack_rocks_per_wave_max: settings.ai_attack_rocks_per_wave_max,
            ai_attack_blocks_per_bomb: settings.ai_attack_blocks_per_bomb,
            ai_attack_bombs_per_wave_max: settings.ai_attack_bombs_per_wave_max,
            ai_attack_bomb_ratio_percent: settings.ai_attack_bomb_ratio_percent,
            ai_block_fall_tick_ms: settings.ai_block_fall_tick_ms,
            ai_player_fall_tick_ms: settings.ai_player_fall_tick_ms,
            ai_shake_duration_ms: settings.ai_shake_duration_ms,
            ai_chain_vanish_interval_ms: settings.ai_chain_vanish_interval_ms,
        }
    }

    /// The settings as they hold for a computer player.
    pub fn with_ai_values(&self) -> (config: Self)
        ensures
            config == config_for_ai(*self),
    {
        BattleConfig {
            rock_spawn_rate_percent: self.ai_rock_spawn_rate_percent,
            air_spawn_rate_percent: self.ai_air_spawn_rate_percent,
            star_spawn_rate_percent: self.ai_star_spawn_rate_percent,
            diamond_spawn_rate_percent: self.ai_diamond_spawn_rate_percent,
            item_clear_above_rate_percent: self.ai_item_clear_above_rate_percent,
            item_unify_colors_rate_percent: self.ai_item_unify_colors_rate_percent,
            item_starify_screen_rate_percent: self.ai_item_starify_screen_rate_percent,
            color_count: self.ai_color_count,
            color_cluster_rate_percent: self.ai_color_cluster_rate_percent,
            bomb_spawn_rate_percent: self.ai_bomb_spawn_rate_percent,
            bomb_fuse_ms: self.ai_bomb_fuse_ms,
            attack_blocks_per_rock: self.ai_attack_blocks_per_rock,
            attack_rocks_per_wave_max: self.ai_attack_rocks_per_wave_max,
            attack_blocks_per_bomb: self.ai_attack_blocks_per_bomb,
            attack_bombs_per_wave_max: self.ai_attack_bombs_per_wave_max,
            attack_bomb_ratio_percent: self.ai_attack_bomb_ratio_percent,
            block_fall_tick_ms: self.ai_block_fall_tick_ms,
            player_fall_tick_ms: self.ai_player_fall_tick_ms,
            shake_duration_ms: self.ai_shake_duration_ms,
            chain_vanish_interval_ms: self.ai_chain_vanish_interval_ms,
            ..*self
        }
    }
}

/// Taking the values for computer players twice changes nothing more.
pub proof fn law_ai_values_idempotent(c: BattleConfig)
    ensures
        config_for_ai(config_for_ai(c)) == config_for_ai(c),
{
}

/// A move as it is sent to the other players.
#[derive(Debug, Clone, Copy, PartialEq, Eq, Structural)]
pub enum NetAction {
    /// No move.
    Nothing,
    MoveLeft,
    MoveRight,
    FaceUp,
    FaceDown,
    Drill,
}

/// The input that a move of another player stands for.
pub open spec fn input_of(action: NetAction) -> Option<InputAction> {
    match action {
        NetAction::Nothing => None,
        NetAction::MoveLeft => Some(InputAction::MoveLeft),
        NetAction::MoveRight => Some(InputAction::MoveRight),
        NetAction::FaceUp => Some(InputAction::FaceUp),
        NetAction::FaceDown => Some(InputAction::FaceDown),
        NetAction::Drill => Some(InputAction::Drill),
    }
}

/// The move that an input is sent as. Only the five ways to move, face and
/// drill are sent.
pub open spec fn move_of(action: InputAction) -> Option<NetAction> {
    match action {
        InputAction::MoveLeft => Some(NetAction::MoveLeft),
        InputAction::MoveRight => Some(NetAction::MoveRight),
        InputAction::FaceUp => Some(NetAction::FaceUp),
        InputAction::FaceDown => Some(NetAction::FaceDown),
        InputAction::Drill => Some(NetAction::Drill),
        _ => None,
    }
}

impl FromSpecImpl<NetAction> for Option<InputAction> {
    open spec fn obeys_from_spec() -> bool {
        true
    }

    open spec fn from_spec(action: NetAction) -> Self {
        input_of(action)
    }
}

impl From<NetAction> for Option<InputAction> {
    /// The input that a move of another player stands for.
    fn from(action: NetAction) -> Self {
        match action {
            NetAction::Nothing => None,
            NetAction::MoveLeft => Some(InputAction::MoveLeft),
            NetAction::MoveRight => Some(InputAction::MoveRight),
            NetAction::FaceUp => Some(InputAction::FaceUp),
            NetAction::FaceDown => Some(InputAction::FaceDown),
            NetAction::Drill => Some(InputAction::Drill),
        }
    }
}

impl FromSpecImpl<InputAction> for Option<NetAction> {
    open spec fn obeys_from_spec() -> bool {
        true
    }

    open spec fn from_spec(action: InputAction) -> Self {
        move_of(action)
    }
}

impl From<InputAction> for Option<NetAction> {
    /// The move that an input is sent as.
    fn from(action: InputAction) -> Self {
        match action {
            InputAction::MoveLeft => Some(NetAction::MoveLeft),
            InputAction::MoveRight => Some(NetAction::MoveRight),
            InputAction::FaceUp => Some(NetAction::FaceUp),
            InputAction::FaceDown => Some(NetAction::FaceDown),
            InputAction::Drill => Some(NetAction::Drill),
            _ => None,
        }
    }
}

/// Sending an input and reading it back gives the same input, and the other
/// way round, wherever there is one.
pub proof fn law_moves_are_read_back(input: InputAction, action: NetAction)
    ensures
        move_of(input) matches Some(sent) ==> input_of(sent) == Some(input),
        input_of(action) matches Some(read) ==> move_of(read) == Some(action),
{
}

/// The version of the messages that are exchanged over a connection.
pub const PROTOCOL_VERSION: u32 = 1;

/// What kind of fault a message has.
#[derive(Debug, Clone, Copy, PartialEq, Eq, Structural)]
pub enum ErrorKind {
    /// The message makes no sense here.
    InvalidData,
    /// The message ends too early.
    UnexpectedEof,
}

/// A message that was being waited for.
#[derive(Debug, Clone, Copy, PartialEq, Eq, Structural)]
pub enum Expected {
    Hello,
    JoinRoom,
    StartConfig,
    SeedAgree,
}

/// What is wrong with a message.
#[derive(Debug, Clone, Copy, PartialEq, Eq, Structural)]
pub enum NetError {
    /// The other side speaks another version.
    VersionMismatch { peer: u32 },
    /// Something else was being waited for.
    UnexpectedMessage { expected: Expected },
    /// The message is longer than any message may be.
    TooLong { length: usize },
    /// The message ends too early.
    Truncated,
}

/// The kind of a fault.
pub open spec fn kind_of(error: NetError) -> ErrorKind {
    match error {
        NetError::Truncated => ErrorKind::UnexpectedEof,
        _ => ErrorKind::InvalidData,
    }
}

impl NetError {
    /// The kind of the fault.
    pub fn kind(&self) -> (kind: ErrorKind)
        ensures
            kind == kind_of(*self),
    {
        match self {
            NetError::Truncated => ErrorKind::UnexpectedEof,
            _ => ErrorKind::InvalidData,
        }
    }
}

/// Checks that the other side speaks this version.
pub fn check_protocol_version(peer_version: u32) -> (r: Result<(), NetError>)
    ensures
        r == (if peer_version == PROTOCOL_VERSION {
            Ok::<(), NetError>(())
        } else {
            Err(NetError::VersionMismatch { peer: peer_version })
        }),
{
    if peer_version == PROTOCOL_VERSION {
        Ok(())
    } else {
        Err(NetError::VersionMismatch { peer: peer_version })
    }
}

} // verus!
