//! Session and round engine of a shared-room geography guessing game.
//!
//! Players join one room, are shown a place by name, guess its position and
//! are awarded points by how close they came. This crate holds the rules:
//! the scoring function, the store of players and guesses, the join
//! protocol, the round cycle and the removal of idle players. Transport,
//! timers and geometry are left to the caller.

pub mod cli;
mod clock;
pub mod datasource;
pub mod game;
pub mod history;
pub mod packets;
pub mod server;
pub mod state;
pub mod utils;
mod walk;
