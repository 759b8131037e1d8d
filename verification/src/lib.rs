//! The rules of a falling-block digging game: field, gravity, player, timing,
//! and the messages that two or more players exchange.
pub mod agreement;
pub mod battle;
pub mod board;
pub mod bombs;
pub mod bytes;
pub mod chance_laws;
pub mod constants;
pub mod controls;
pub mod dice;
pub mod discovery;
pub mod display;
pub mod effects;
pub mod fall;
pub mod field_laws;
pub mod flash;
pub mod flood;
pub mod frame;
pub mod game;
pub mod gravity;
pub mod gravity_laws;
pub mod groups;
pub mod journey;
pub mod keys;
pub mod laws;
pub mod listing;
pub mod lobby;
pub mod lobby_laws;
pub mod lockstep;
pub mod messages;
pub mod mishaps;
pub mod physics;
pub mod play_laws;
pub mod player;
pub mod player_laws;
pub mod record_laws;
pub mod replay;
pub mod screens;
pub mod session;
pub mod session_laws;
pub mod settings;
pub mod state_hash;
pub mod sweep;
pub mod terrain;
pub mod time_laws;
pub mod tuning;
pub mod wire;

