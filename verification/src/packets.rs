//! Messages exchanged with clients, as plain values.

use crate::datasource::City;
use crate::state::{player_views, Player, PlayerView, Sid};
use std::collections::HashMap;
use vstd::prelude::*;

verus! {

/// A guessed position. Each coordinate is carried as the bit pattern of a
/// single-precision number of degrees; the engine stores and returns the
/// patterns and never computes with them.
#[derive(Clone, Copy, Debug, PartialEq, Eq, Structural)]
pub struct GuessPacket {
    pub lat: u32,
    pub long: u32,
}

/// What a client is told when it has been admitted: how long the two windows
/// of a round last, in seconds.
#[derive(Clone, Copy, Debug, PartialEq, Eq, Structural)]
pub struct GameMetadataMessage {
    pub guess_time: u64,
    pub showcase_time: u64,
}

/// The notice sent to a client just before its connection is closed.
#[derive(Debug, PartialEq, Eq)]
pub struct DisconnectPacket {
    pub message: String,
}

/// What is announced when a round is over: where the place was, what was
/// guessed and how everybody stands.
#[derive(Debug)]
pub struct SolutionPacket {
    pub location: City,
    pub guesses: HashMap<Sid, GuessPacket>,
    pub leaderboard: HashMap<Sid, Player>,
}

impl SolutionPacket {
    /// The guesses of the round, by connection.
    pub open spec fn guesses_view(&self) -> Map<Sid, GuessPacket> {
        self.guesses@
    }

    /// The standing of every player, by connection.
    pub open spec fn leaderboard_view(&self) -> Map<Sid, PlayerView> {
        player_views(self.leaderboard@)
    }
}

} // verus!
