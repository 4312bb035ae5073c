//! The store of players and pending guesses.
//!
//! One value of [`GameState`] holds everything that connection handlers and
//! the round driver share. Every operation takes the store as a whole, so a
//! caller that guards it with one lock gets operations that are atomic; reads
//! hand out copies that stay valid after the lock is gone.

use crate::clock::now_millis;
use crate::game::GameOptions;
use crate::packets::GuessPacket;
use std::collections::HashMap;
use vstd::prelude::*;
use vstd::std_specs::iter::IteratorSpec;

verus! {

broadcast use vstd::std_specs::hash::group_hash_axioms;

/// Identity of one live connection: the sixteen bytes of its session id read
/// as one number.
pub type Sid = u128;

/// A joined player.
#[derive(Debug, PartialEq, Eq)]
pub struct Player {
    pub username: String,
    pub score: u64,
    /// When the player was last heard from, in milliseconds since the epoch.
    pub last_packet: i64,
}

/// What a player is, as mathematics.
pub struct PlayerView {
    pub username: Seq<char>,
    pub score: nat,
    pub last_packet: int,
}

impl View for Player {
    type V = PlayerView;

    open spec fn view(&self) -> PlayerView {
        PlayerView {
            username: self.username@,
            score: self.score as nat,
            last_packet: self.last_packet as int,
        }
    }
}

impl Clone for Player {
    fn clone(&self) -> (copy: Self)
        ensures
            copy == *self,
    {
        Player {
            username: self.username.clone(),
            score: self.score,
            last_packet: self.last_packet,
        }
    }
}

impl PlayerView {
    /// A player as they are when they join at time `now`: no points yet.
    pub open spec fn joined(username: Seq<char>, now: int) -> PlayerView {
        PlayerView { username, score: 0, last_packet: now }
    }

    /// The same player, last heard from at time `now`.
    pub open spec fn touched(self, now: int) -> PlayerView {
        PlayerView { last_packet: now, ..self }
    }
}

impl Player {
    /// A new player without points whose last activity is the given time.
    pub fn new_at(username: String, now: i64) -> (player: Player)
        ensures
            player@ == PlayerView::joined(username@, now as int),
    {
        Player { username, score: 0, last_packet: now }
    }

    /// A new player without points whose last activity is the time at which
    /// the call was made.
    pub fn new(username: String) -> (player: Player)
        ensures
            exists|now: i64| player@ == PlayerView::joined(username@, now as int),
    {
        let now = now_millis();
        Player::new_at(username, now)
    }
}

/// The views of the players of a map, connection by connection.
pub open spec fn player_views(players: Map<Sid, Player>) -> Map<Sid, PlayerView> {
    players.map_values(|player: Player| player@)
}

/// Whether some player of `players` goes by exactly the name `wanted`.
pub open spec fn username_taken(players: Map<Sid, PlayerView>, wanted: Seq<char>) -> bool {
    exists|sid: Sid| #[trigger] players.contains_key(sid) && players[sid].username == wanted
}

/// The players after the connection `sid` was heard from at time `now`: its
/// player, if it has one, is marked with that time.
pub open spec fn touch_player(players: Map<Sid, PlayerView>, sid: Sid, now: int) -> Map<
    Sid,
    PlayerView,
> {
    if players.contains_key(sid) {
        players.insert(sid, players[sid].touched(now))
    } else {
        players
    }
}

/// Everything the connection handlers and the round driver share.
#[derive(Debug)]
pub struct GameState {
    guesses: HashMap<Sid, GuessPacket>,
    players: HashMap<Sid, Player>,
    options: GameOptions,
}

/// What the store holds, as mathematics.
pub struct GameStateView {
    /// The pending guess of each connection that has one.
    pub guesses: Map<Sid, GuessPacket>,
    /// The player of each connection that has joined.
    pub players: Map<Sid, PlayerView>,
    pub options: GameOptions,
}

impl View for GameState {
    type V = GameStateView;

    closed spec fn view(&self) -> GameStateView {
        GameStateView {
            guesses: self.guesses@,
            players: player_views(self.players@),
            options: self.options,
        }
    }
}

impl GameState {
    /// An empty store.
    pub fn new(options: GameOptions) -> (state: GameState)
        ensures
            state@.guesses == Map::<Sid, GuessPacket>::empty(),
            state@.players == Map::<Sid, PlayerView>::empty(),
            state@.options == options,
    {
        let state = GameState { guesses: HashMap::new(), players: HashMap::new(), options };
        assert(state@.players =~= Map::<Sid, PlayerView>::empty());
        state
    }

    /// The lengths of the two windows of a round.
    pub fn options(&self) -> (options: GameOptions)
        ensures
            options == self@.options,
    {
        self.options
    }

    /// A copy of the pending guesses.
    pub fn get_guesses(&self) -> (guesses: HashMap<Sid, GuessPacket>)
        ensures
            guesses@ == self@.guesses,
    {
        self.guesses.clone()
    }

    /// Drops every pending guess.
    pub fn clear_guesses(&mut self)
        ensures
            final(self)@.guesses == Map::<Sid, GuessPacket>::empty(),
            final(self)@.players == old(self)@.players,
            final(self)@.options == old(self)@.options,
    {
        self.guesses.clear();
    }

    /// Records the guess of a connection in place of any earlier one.
    pub fn insert_guess(&mut self, sid: Sid, guess: GuessPacket)
        ensures
            final(self)@.guesses == old(self)@.guesses.insert(sid, guess),
            final(self)@.players == old(self)@.players,
            final(self)@.options == old(self)@.options,
    {
        self.guesses.insert(sid, guess);
    }

    /// A copy of the players.
    pub fn get_players(&self) -> (players: HashMap<Sid, Player>)
        ensures
            player_views(players@) == self@.players,
    {
        self.players.clone()
    }

    /// Stores a player under a connection in place of any earlier one.
    pub fn insert_player(&mut self, sid: Sid, player: Player)
        ensures
            final(self)@.players == old(self)@.players.insert(sid, player@),
            final(self)@.guesses == old(self)@.guesses,
            final(self)@.options == old(self)@.options,
    {
        self.players.insert(sid, player);
        assert(final(self)@.players =~= old(self)@.players.insert(sid, player@));
    }

    /// A copy of the player of a connection, if it has one.
    pub fn get_player(&self, sid: Sid) -> (found: Option<Player>)
        ensures
            match found {
                Some(player) => self@.players.contains_key(sid) && player@ == self@.players[sid],
                None => !self@.players.contains_key(sid),
            },
    {
        match self.players.get(&sid) {
            Some(player) => Some(player.clone()),
            None => None,
        }
    }

    /// Forgets the player of a connection. Nothing happens if it has none.
    pub fn remove_player(&mut self, sid: Sid)
        ensures
            final(self)@.players == old(self)@.players.remove(sid),
            final(self)@.guesses == old(self)@.guesses,
            final(self)@.options == old(self)@.options,
    {
        self.players.remove(&sid);
        assert(final(self)@.players =~= old(self)@.players.remove(sid));
    }

    /// Whether some player already goes by exactly this name.
    pub fn is_username_taken(&self, wanted: &String) -> (taken: bool)
        ensures
            taken == username_taken(self@.players, wanted@),
    {
        let mut taken = false;
        let ghost entries = self.players.iter().remaining();
        for entry in it: self.players.iter()
            invariant
                it.seq() == entries,
                taken == exists|i: int|
                    0 <= i < it.index() && (#[trigger] entries[i]).1.username@ == wanted@,
        {
            if entry.1.username == *wanted {
                taken = true;
            }
        }
        proof {
            if taken {
                let i = choose|i: int|
                    0 <= i < entries.len() && (#[trigger] entries[i]).1.username@ == wanted@;
                assert(self.players@.contains_key(*entries[i].0));
                assert(self@.players.contains_key(*entries[i].0));
            }
            if username_taken(self@.players, wanted@) {
                let sid = choose|sid: Sid| #[trigger]
                    self@.players.contains_key(sid) && self@.players[sid].username == wanted@;
                assert(entries.contains((&sid, &self.players@[sid])));
                let i = choose|i: int|
                    0 <= i < entries.len() && entries[i] == (&sid, &self.players@[sid]);
                assert(entries[i].1.username@ == wanted@);
            }
        }
        taken
    }

    /// Notes that a connection was heard from at the given time. Nothing
    /// happens if it has no player.
    pub fn update_last_packet_at(&mut self, sid: Sid, now: i64)
        ensures
            final(self)@.players == touch_player(old(self)@.players, sid, now as int),
            final(self)@.guesses == old(self)@.guesses,
            final(self)@.options == old(self)@.options,
    {
        let found = self.get_player(sid);
        if let Some(mut player) = found {
            player.last_packet = now;
            self.insert_player(sid, player);
        }
    }

    /// Notes that a connection was heard from at the time of the call.
    /// Nothing happens if it has no player.
    pub fn update_last_packet(&mut self, sid: Sid)
        ensures
            exists|now: i64|
                final(self)@.players == #[trigger] touch_player(
                    old(self)@.players,
                    sid,
                    now as int,
                ),
            final(self)@.guesses == old(self)@.guesses,
            final(self)@.options == old(self)@.options,
    {
        let now = now_millis();
        self.update_last_packet_at(sid, now);
    }
}

} // verus!
