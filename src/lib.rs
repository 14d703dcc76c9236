//! A relay and matchmaking server for two-player minesweeper: the wire protocol, the
//! session registry with its matchmaking, and the turn coordination around the
//! `minesweeper_multiplayer` turn authority.

pub mod codec;
pub mod game;
pub mod json;
pub mod messages;
pub mod registry;
pub mod server;
pub mod turn;
