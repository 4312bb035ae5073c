//! The rules of play: who may join, how a round runs and who is removed.

use crate::clock::now_millis;
use crate::datasource::{AnonymizedCity, City, Datasource};
use crate::packets::{DisconnectPacket, GameMetadataMessage, GuessPacket, SolutionPacket};
use crate::state::{
    player_views, touch_player, username_taken, GameState, Player, PlayerView, Sid,
};
use crate::utils::{calculate_score, score};
use crate::walk::{keys_before, lemma_walk_end, lemma_walk_step, walks};
use std::collections::HashMap;
use vstd::arithmetic::div_mod::{lemma_mod_self_0, lemma_small_mod};
use vstd::prelude::*;
use vstd::std_specs::iter::IteratorSpec;
use vstd::string::StrSliceExecFns;
use vstd::string::StringExecFns;

verus! {

broadcast use vstd::std_specs::hash::group_hash_axioms;

/// How long the two windows of a round last, in seconds.
#[derive(Clone, Copy, Debug, PartialEq, Eq, Structural)]
pub struct GameOptions {
    /// Seconds during which guesses are taken.
    pub guess_time: u64,
    /// Seconds during which the solution is shown.
    pub showcase_time: u64,
}

/// The longest username, in characters.
pub const MAX_USERNAME_LEN: usize = 32;

/// Whether a character may stand in a username: a letter of the Latin
/// alphabet without accent, a digit, a space, an underscore or a hyphen.
pub open spec fn is_username_char(c: char) -> bool {
    ||| 'A' <= c <= 'Z'
    ||| 'a' <= c <= 'z'
    ||| '0' <= c <= '9'
    ||| c == ' '
    ||| c == '_'
    ||| c == '-'
}

/// Whether a name may be used as a username: between one and
/// `MAX_USERNAME_LEN` characters, each of them allowed.
pub open spec fn valid_username(name: Seq<char>) -> bool {
    &&& 1 <= name.len() <= MAX_USERNAME_LEN
    &&& forall|i: int| 0 <= i < name.len() ==> is_username_char(#[trigger] name[i])
}

fn username_char(c: char) -> (allowed: bool)
    ensures
        allowed == is_username_char(c),
{
    (c >= 'A' && c <= 'Z') || (c >= 'a' && c <= 'z') || (c >= '0' && c <= '9') || c == ' '
        || c == '_' || c == '-'
}

/// Checks a name against the rules for usernames.
pub fn is_valid_username(name: &String) -> (valid: bool)
    ensures
        valid == valid_username(name@),
{
    let text = name.as_str();
    let len = text.unicode_len();
    if len < 1 || len > MAX_USERNAME_LEN {
        return false;
    }
    let mut i: usize = 0;
    while i < len
        invariant
            i <= len,
            len == text@.len(),
            text@ == name@,
            forall|j: int| 0 <= j < i ==> is_username_char(#[trigger] name@[j]),
        decreases len - i,
    {
        if !username_char(text.get_char(i)) {
            return false;
        }
        i += 1;
    }
    true
}

/// Why a join was refused.
#[derive(Clone, Copy, Debug, PartialEq, Eq, Structural)]
pub enum JoinError {
    /// The name breaks the rules for usernames.
    BadUsername,
    /// Another player already goes by that name.
    UsernameTaken,
}

impl JoinError {
    /// The text that tells a client why it was refused.
    pub open spec fn message_text(self) -> Seq<char> {
        match self {
            JoinError::BadUsername => "Bad username"@,
            JoinError::UsernameTaken => "Username taken"@,
        }
    }

    /// The notice to send before the refused connection is closed.
    pub fn kick(&self) -> (notice: DisconnectPacket)
        ensures
            notice.message@ == self.message_text(),
    {
        match self {
            JoinError::BadUsername => DisconnectPacket {
                message: String::from_str("Bad username"),
            },
            JoinError::UsernameTaken => DisconnectPacket {
                message: String::from_str("Username taken"),
            },
        }
    }
}

/// How a request to join under `username` is answered when the players are
/// `players`: the rules for names are checked first, then whether the name is
/// free. `None` means that the request is granted.
pub open spec fn join_refusal(players: Map<Sid, PlayerView>, username: Seq<char>) -> Option<
    JoinError,
> {
    if !valid_username(username) {
        Some(JoinError::BadUsername)
    } else if username_taken(players, username) {
        Some(JoinError::UsernameTaken)
    } else {
        None
    }
}

/// The players after the connection `sid` asked at time `now` to join under
/// `username`: one more if the request is granted, the same otherwise.
pub open spec fn players_after_join(
    players: Map<Sid, PlayerView>,
    sid: Sid,
    username: Seq<char>,
    now: int,
) -> Map<Sid, PlayerView> {
    if join_refusal(players, username) is None {
        players.insert(sid, PlayerView::joined(username, now))
    } else {
        players
    }
}

/// Answers the request of a connection to join under a username, made at the
/// time `now`.
///
/// A granted request adds the player, without points and last heard from at
/// `now`, and is answered with the lengths of the two windows. A refused
/// request changes nothing.
pub fn join_at(state: &mut GameState, sid: Sid, username: String, now: i64) -> (answer: Result<
    GameMetadataMessage,
    JoinError,
>)
    ensures
        match answer {
            Ok(metadata) => {
                &&& join_refusal(old(state)@.players, username@) is None
                &&& metadata.guess_time == old(state)@.options.guess_time
                &&& metadata.showcase_time == old(state)@.options.showcase_time
            },
            Err(error) => join_refusal(old(state)@.players, username@) == Some(error),
        },
        final(state)@.players == players_after_join(
            old(state)@.players,
            sid,
            username@,
            now as int,
        ),
        final(state)@.guesses == old(state)@.guesses,
        final(state)@.options == old(state)@.options,
{
    if !is_valid_username(&username) {
        return Err(JoinError::BadUsername);
    }
    if state.is_username_taken(&username) {
        return Err(JoinError::UsernameTaken);
    }
    state.insert_player(sid, Player::new_at(username, now));
    let options = state.options();
    Ok(
        GameMetadataMessage {
            guess_time: options.guess_time,
            showcase_time: options.showcase_time,
        },
    )
}

/// A request to join under a name that a player already goes by is refused,
/// whoever asks and whenever, and leaves the players as they were. If the
/// name is otherwise valid, the reason given is that it is taken.
pub proof fn taken_username_is_refused(
    players: Map<Sid, PlayerView>,
    sid: Sid,
    username: Seq<char>,
    now: int,
)
    requires
        username_taken(players, username),
    ensures
        join_refusal(players, username) is Some,
        valid_username(username) ==> join_refusal(players, username) == Some(
            JoinError::UsernameTaken,
        ),
        players_after_join(players, sid, username, now) == players,
{
}

/// Answers the request of a connection to join under a username, made at the
/// time of the call. It is [`join_at`] with the reading of the clock.
pub fn join(state: &mut GameState, sid: Sid, username: String) -> (answer: Result<
    GameMetadataMessage,
    JoinError,
>)
    ensures
        match answer {
            Ok(metadata) => {
                &&& join_refusal(old(state)@.players, username@) is None
                &&& metadata.guess_time == old(state)@.options.guess_time
                &&& metadata.showcase_time == old(state)@.options.showcase_time
            },
            Err(error) => join_refusal(old(state)@.players, username@) == Some(error),
        },
        exists|now: i64|
            final(state)@.players == #[trigger] players_after_join(
                old(state)@.players,
                sid,
                username@,
                now as int,
            ),
        final(state)@.guesses == old(state)@.guesses,
        final(state)@.options == old(state)@.options,
{
    let now = now_millis();
    join_at(state, sid, username, now)
}

/// Takes the guess that a connection sent at the time `now`: it replaces any
/// earlier guess of that connection, and the connection's player, if it has
/// one, counts as heard from at `now`.
pub fn guess_at(state: &mut GameState, sid: Sid, guess: GuessPacket, now: i64)
    ensures
        final(state)@.guesses == old(state)@.guesses.insert(sid, guess),
        final(state)@.players == touch_player(old(state)@.players, sid, now as int),
        final(state)@.options == old(state)@.options,
{
    state.insert_guess(sid, guess);
    state.update_last_packet_at(sid, now);
}

/// Takes the guess that a connection sent at the time of the call. It is
/// [`guess_at`] with the reading of the clock.
pub fn guess(state: &mut GameState, sid: Sid, guess: GuessPacket)
    ensures
        final(state)@.guesses == old(state)@.guesses.insert(sid, guess),
        exists|now: i64|
            final(state)@.players == #[trigger] touch_player(
                old(state)@.players,
                sid,
                now as int,
            ),
        final(state)@.options == old(state)@.options,
{
    let now = now_millis();
    guess_at(state, sid, guess, now);
}

/// How long a player may stay silent before being removed, in milliseconds:
/// three minutes.
pub const INACTIVITY_LIMIT_MILLIS: i64 = 180_000;

/// Whether a player last heard from at `last_packet` has, at the time `now`,
/// been silent for longer than the limit.
pub open spec fn is_inactive(last_packet: int, now: int) -> bool {
    now - last_packet > INACTIVITY_LIMIT_MILLIS
}

/// The players that, at the time `now`, have not been silent for longer than
/// the limit.
pub open spec fn active_players(players: Map<Sid, PlayerView>, now: int) -> Map<Sid, PlayerView> {
    Map::new(
        |sid: Sid| players.contains_key(sid) && !is_inactive(players[sid].last_packet, now),
        |sid: Sid| players[sid],
    )
}

/// A player who has been silent for longer than the limit is not among the
/// players that stay; a player who has not is among them, unchanged.
pub proof fn exactly_the_silent_are_removed(players: Map<Sid, PlayerView>, now: int, sid: Sid)
    requires
        players.contains_key(sid),
    ensures
        is_inactive(players[sid].last_packet, now) ==> !active_players(players, now).contains_key(
            sid,
        ),
        !is_inactive(players[sid].last_packet, now) ==> active_players(players, now).contains_key(
            sid,
        ) && active_players(players, now)[sid] == players[sid],
{
}

/// Whether the player has, at the time `now`, been silent for longer than the
/// limit.
pub fn inactive(player: &Player, now: i64) -> (idle: bool)
    ensures
        idle == is_inactive(player@.last_packet, now as int),
{
    (now as i128) - (player.last_packet as i128) > (INACTIVITY_LIMIT_MILLIS as i128)
}

/// The notice for a player who is removed for having been silent too long.
pub fn inactivity_kick() -> (notice: DisconnectPacket)
    ensures
        notice.message@ == "Automatically removed due to inactivity"@,
{
    DisconnectPacket { message: String::from_str("Automatically removed due to inactivity") }
}

/// Removes from the store every player who, at the time `now`, has been
/// silent for longer than the limit, and names their connections, each once,
/// so that they can be told and closed. Everybody else stays as they are.
pub fn evict_inactive(state: &mut GameState, now: i64) -> (evicted: Vec<Sid>)
    ensures
        final(state)@.players == active_players(old(state)@.players, now as int),
        final(state)@.guesses == old(state)@.guesses,
        final(state)@.options == old(state)@.options,
        evicted@.no_duplicates(),
        forall|sid: Sid|
            evicted@.contains(sid) <==> old(state)@.players.contains_key(sid) && is_inactive(
                old(state)@.players[sid].last_packet,
                now as int,
            ),
{
    let mut evicted: Vec<Sid> = Vec::new();
    let players = state.get_players();
    let ghost before = state@.players;
    let walk = players.iter();
    let ghost entries = walk.remaining();
    for entry in it: walk
        invariant
            it.seq() == entries,
            walks(entries, players@),
            player_views(players@) == before,
            state@.guesses == old(state)@.guesses,
            state@.options == old(state)@.options,
            state@.players == before.remove_keys(evicted@.to_set()),
            evicted@.no_duplicates(),
            forall|sid: Sid|
                evicted@.contains(sid) <==> keys_before(entries, it.index()).contains(sid)
                    && is_inactive(before[sid].last_packet, now as int),
    {
        let ghost n = it.index();
        let ghost named = evicted@;
        let sid = *entry.0;
        proof {
            lemma_walk_step(entries, players@, n);
            assert(entries[n] == entry);
            assert(before.contains_key(sid) && before[sid] == entry.1@);
        }
        if inactive(entry.1, now) {
            state.remove_player(sid);
            evicted.push(sid);
            proof {
                assert(!named.contains(sid));
                assert(evicted@ == named.push(sid));
                assert forall|other: Sid|
                    evicted@.contains(other) <==> other == sid || named.contains(other) by {
                    if other == sid {
                        assert(evicted@[named.len() as int] == sid);
                    }
                    if named.contains(other) {
                        let k = choose|k: int| 0 <= k < named.len() && named[k] == other;
                        assert(evicted@[k] == other);
                    }
                    if evicted@.contains(other) {
                        let k = choose|k: int| 0 <= k < evicted@.len() && evicted@[k] == other;
                        if k < named.len() {
                            assert(named[k] == other);
                        }
                    }
                }
                assert(state@.players =~= before.remove_keys(evicted@.to_set()));
                assert forall|other: Sid|
                    evicted@.contains(other) <==> keys_before(entries, n + 1).contains(other)
                        && is_inactive(before[other].last_packet, now as int) by {
                    assert(named.contains(other) <==> keys_before(entries, n).contains(other)
                        && is_inactive(before[other].last_packet, now as int));
                }
            }
        } else {
            proof {
                assert forall|other: Sid|
                    evicted@.contains(other) <==> keys_before(entries, n + 1).contains(other)
                        && is_inactive(before[other].last_packet, now as int) by {
                    assert(named.contains(other) <==> keys_before(entries, n).contains(other)
                        && is_inactive(before[other].last_packet, now as int));
                }
            }
        }
    }
    proof {
        lemma_walk_end(entries, players@);
        assert(state@.players =~= active_players(before, now as int));
    }
    evicted
}

/// The score of a player who held `held` points and is awarded `points`
/// more. A score stops at the largest value it can hold.
pub open spec fn add_points(held: nat, points: nat) -> nat {
    if held + points > u64::MAX {
        u64::MAX as nat
    } else {
        held + points
    }
}

/// The distances that count in a round: those of connections that have a
/// pending guess.
pub open spec fn scored_distances(
    guesses: Map<Sid, GuessPacket>,
    distances: Map<Sid, u64>,
) -> Map<Sid, u64> {
    distances.restrict(guesses.dom())
}

/// The players after a round in which the guess of each connection in
/// `scored` came that many whole kilometres close to the target: each of
/// these players is awarded the points for that distance, and nobody else
/// changes.
pub open spec fn players_after_scoring(
    players: Map<Sid, PlayerView>,
    scored: Map<Sid, u64>,
) -> Map<Sid, PlayerView> {
    Map::new(
        |sid: Sid| players.contains_key(sid),
        |sid: Sid|
            if scored.contains_key(sid) {
                PlayerView {
                    score: add_points(players[sid].score, score(scored[sid] as nat)),
                    ..players[sid]
                }
            } else {
                players[sid]
            },
    )
}

/// Scoring adds nobody and removes nobody, and it never lowers a score.
pub proof fn scoring_never_lowers_a_score(
    players: Map<Sid, PlayerView>,
    scored: Map<Sid, u64>,
    sid: Sid,
)
    requires
        players.contains_key(sid),
        players[sid].score <= u64::MAX,
    ensures
        players_after_scoring(players, scored).dom() == players.dom(),
        players_after_scoring(players, scored)[sid].score >= players[sid].score,
        players_after_scoring(players, scored)[sid].score <= u64::MAX,
{
    assert(players_after_scoring(players, scored).dom() =~= players.dom());
}

/// Awards the points of a round. `distances` gives, by connection, how many
/// whole kilometres a guess was away from the target. A distance counts if
/// its connection has a pending guess; a guess without a distance, and a
/// guess whose connection has no player any more, is passed over.
pub fn score_guesses(state: &mut GameState, distances: &HashMap<Sid, u64>)
    ensures
        final(state)@.players == players_after_scoring(
            old(state)@.players,
            scored_distances(old(state)@.guesses, distances@),
        ),
        final(state)@.guesses == old(state)@.guesses,
        final(state)@.options == old(state)@.options,
{
    let guesses = state.get_guesses();
    let ghost before = state@.players;
    let ghost scored = scored_distances(guesses@, distances@);
    let walk = guesses.iter();
    let ghost entries = walk.remaining();
    assert(state@.players =~= players_after_scoring(
        before,
        scored.restrict(keys_before(entries, 0)),
    ));
    for entry in it: walk
        invariant
            it.seq() == entries,
            walks(entries, guesses@),
            scored == scored_distances(guesses@, distances@),
            state@.guesses == old(state)@.guesses,
            state@.options == old(state)@.options,
            state@.players == players_after_scoring(
                before,
                scored.restrict(keys_before(entries, it.index())),
            ),
    {
        let ghost n = it.index();
        let sid = *entry.0;
        proof {
            lemma_walk_step(entries, guesses@, n);
        }
        if let Some(kilometers) = distances.get(&sid) {
            let points = calculate_score(*kilometers);
            if let Some(mut player) = state.get_player(sid) {
                player.score = player.score.saturating_add(points);
                state.insert_player(sid, player);
            }
        }
        proof {
            assert(state@.players =~= players_after_scoring(
                before,
                scored.restrict(keys_before(entries, n + 1)),
            ));
        }
    }
    proof {
        lemma_walk_end(entries, guesses@);
        assert(scored.restrict(guesses@.dom()) =~= scored);
    }
}

/// The two windows of a round.
#[derive(Clone, Copy, Debug, PartialEq, Eq, Structural)]
pub enum Phase {
    /// A target has been announced and guesses are being taken.
    Guessing,
    /// No round is open: before the first round, and while a solution is
    /// shown.
    Showcasing,
}

/// The index that follows `index` in a cycle through `len` places.
pub open spec fn next_index(index: int, len: int) -> int {
    if index + 1 >= len {
        0
    } else {
        index + 1
    }
}

/// The cycle goes on by one and starts over after the last place.
pub proof fn next_index_wraps(index: int, len: int)
    requires
        0 <= index < len,
    ensures
        0 <= next_index(index, len) < len,
        next_index(index, len) == (index + 1) % len,
{
    if index + 1 < len {
        lemma_small_mod((index + 1) as nat, len as nat);
    } else {
        lemma_mod_self_0(len);
    }
}

/// What the round driver knows, as mathematics.
pub struct RoundView {
    /// The places, in the order in which they are played.
    pub cities: Seq<City>,
    /// Where in `cities` the next target stands.
    pub index: int,
    /// The target of the round that was opened last, if any was.
    pub target: Option<City>,
    pub phase: Phase,
}

/// The driver of the rounds: it walks through the places in a cycle and
/// alternates between the two windows.
#[derive(Debug)]
pub struct RoundDriver {
    cities: Vec<City>,
    index: usize,
    target: Option<City>,
    phase: Phase,
}

/// What has to be done when a round opens.
#[derive(Debug)]
pub struct RoundStart {
    /// The target, as it is announced to everybody.
    pub target: AnonymizedCity,
    /// The connections whose players were removed for silence; each is to be
    /// told and closed.
    pub evicted: Vec<Sid>,
}

impl View for RoundDriver {
    type V = RoundView;

    closed spec fn view(&self) -> RoundView {
        RoundView {
            cities: self.cities@,
            index: self.index as int,
            target: self.target,
            phase: self.phase,
        }
    }
}

impl RoundView {
    /// What holds of every driver: there is a place to play, the index
    /// points at one, and an open round has a target.
    pub open spec fn wf(self) -> bool {
        &&& 0 <= self.index < self.cities.len()
        &&& self.phase == Phase::Guessing ==> self.target is Some
    }
}

impl RoundDriver {
    #[verifier::type_invariant]
    spec fn inv(&self) -> bool {
        self@.wf()
    }

    /// A driver that starts before the first round and plays the places of
    /// the datasource in their order. There is none for a datasource
    /// without places.
    pub fn new(datasource: Datasource) -> (driver: Option<RoundDriver>)
        ensures
            match driver {
                Some(driver) => {
                    &&& datasource.cities@.len() > 0
                    &&& driver@ == (RoundView {
                        cities: datasource.cities@,
                        index: 0,
                        target: None,
                        phase: Phase::Showcasing,
                    })
                },
                None => datasource.cities@.len() == 0,
            },
            driver matches Some(driver) ==> driver@.wf(),
    {
        if datasource.cities.len() == 0 {
            return None;
        }
        Some(
            RoundDriver {
                cities: datasource.cities,
                index: 0,
                target: None,
                phase: Phase::Showcasing,
            },
        )
    }

    /// The window that the game is in.
    pub fn phase(&self) -> (phase: Phase)
        ensures
            phase == self@.phase,
    {
        self.phase
    }

    /// A copy of the target of the round that was opened last, if any was.
    pub fn target(&self) -> (target: Option<City>)
        ensures
            target == self@.target,
    {
        match &self.target {
            Some(city) => Some(city.clone()),
            None => None,
        }
    }

    /// How many seconds the window that the game is in lasts: the time for
    /// guessing while a round is open, the time for showing the solution
    /// otherwise.
    pub fn window_seconds(&self, options: GameOptions) -> (seconds: u64)
        ensures
            seconds == match self@.phase {
                Phase::Guessing => options.guess_time,
                Phase::Showcasing => options.showcase_time,
            },
    {
        match self.phase {
            Phase::Guessing => options.guess_time,
            Phase::Showcasing => options.showcase_time,
        }
    }

    /// Opens a round at the time `now`, unless one is open already.
    ///
    /// The next place in the cycle becomes the target, every pending guess is
    /// dropped and the players who have been silent for too long are
    /// removed. The answer holds what to announce and whom to close. While a
    /// round is open the answer is `None` and nothing changes.
    pub fn start_round_at(&mut self, state: &mut GameState, now: i64) -> (start: Option<
        RoundStart,
    >)
        ensures
            final(self)@.wf(),
            old(self)@.phase == Phase::Guessing ==> {
                &&& start is None
                &&& final(self)@ == old(self)@
                &&& final(state)@ == old(state)@
            },
            old(self)@.phase == Phase::Showcasing ==> {
                &&& start matches Some(start)
                &&& start.target@ == old(self)@.cities[old(self)@.index]@.anonymize()
                &&& start.evicted@.no_duplicates()
                &&& forall|sid: Sid|
                    start.evicted@.contains(sid) <==> old(state)@.players.contains_key(sid)
                        && is_inactive(old(state)@.players[sid].last_packet, now as int)
                &&& final(self)@ == (RoundView {
                    cities: old(self)@.cities,
                    index: next_index(old(self)@.index, old(self)@.cities.len() as int),
                    target: Some(old(self)@.cities[old(self)@.index]),
                    phase: Phase::Guessing,
                })
                &&& final(state)@.guesses == Map::<Sid, GuessPacket>::empty()
                &&& final(state)@.players == active_players(old(state)@.players, now as int)
                &&& final(state)@.options == old(state)@.options
            },
    {
        proof {
            use_type_invariant(&*self);
        }
        match self.phase {
            Phase::Guessing => None,
            Phase::Showcasing => {
                let len = self.cities.len();
                let city = self.cities[self.index].clone();
                let next = if self.index + 1 >= len {
                    0
                } else {
                    self.index + 1
                };
                self.index = next;
                state.clear_guesses();
                self.target = Some(city.clone());
                let evicted = evict_inactive(state, now);
                self.phase = Phase::Guessing;
                Some(RoundStart { target: city.anonymize(), evicted })
            },
        }
    }

    /// Opens a round at the time of the call, unless one is open already. It
    /// is [`RoundDriver::start_round_at`] with the reading of the clock.
    pub fn start_round(&mut self, state: &mut GameState) -> (start: Option<RoundStart>)
        ensures
            final(self)@.wf(),
            old(self)@.phase == Phase::Guessing ==> {
                &&& start is None
                &&& final(self)@ == old(self)@
                &&& final(state)@ == old(state)@
            },
            old(self)@.phase == Phase::Showcasing ==> {
                &&& start matches Some(start)
                &&& start.target@ == old(self)@.cities[old(self)@.index]@.anonymize()
                &&& start.evicted@.no_duplicates()
                &&& final(self)@ == (RoundView {
                    cities: old(self)@.cities,
                    index: next_index(old(self)@.index, old(self)@.cities.len() as int),
                    target: Some(old(self)@.cities[old(self)@.index]),
                    phase: Phase::Guessing,
                })
                &&& final(state)@.guesses == Map::<Sid, GuessPacket>::empty()
                &&& final(state)@.options == old(state)@.options
                &&& exists|now: i64|
                    {
                        &&& final(state)@.players == #[trigger] active_players(
                            old(state)@.players,
                            now as int,
                        )
                        &&& forall|sid: Sid|
                            start.evicted@.contains(sid) <==> old(state)@.players.contains_key(sid)
                                && is_inactive(old(state)@.players[sid].last_packet, now as int)
                    }
            },
    {
        let now = now_millis();
        self.start_round_at(state, now)
    }

    /// Closes the open round, if there is one.
    ///
    /// `distances` gives, by connection, how many whole kilometres a guess
    /// was away from the target. The points are awarded as by
    /// [`score_guesses`], and the answer holds what to announce: the target
    /// with its position, the guesses of the round and the standing of every
    /// player after the award. While no round is open the answer is `None`
    /// and nothing changes, so that no guess is ever counted twice.
    pub fn finish_round(&mut self, state: &mut GameState, distances: &HashMap<Sid, u64>) -> (solution:
        Option<SolutionPacket>)
        ensures
            final(self)@.wf(),
            old(self)@.phase == Phase::Showcasing ==> {
                &&& solution is None
                &&& final(self)@ == old(self)@
                &&& final(state)@ == old(state)@
            },
            old(self)@.phase == Phase::Guessing ==> {
                &&& solution matches Some(solution)
                &&& Some(solution.location) == old(self)@.target
                &&& solution.guesses_view() == old(state)@.guesses
                &&& solution.leaderboard_view() == final(state)@.players
                &&& final(self)@ == (RoundView { phase: Phase::Showcasing, ..old(self)@ })
                &&& final(state)@.players == players_after_scoring(
                    old(state)@.players,
                    scored_distances(old(state)@.guesses, distances@),
                )
                &&& final(state)@.guesses == old(state)@.guesses
                &&& final(state)@.options == old(state)@.options
            },
    {
        proof {
            use_type_invariant(&*self);
        }
        match self.phase {
            Phase::Showcasing => None,
            Phase::Guessing => {
                let location = match &self.target {
                    Some(city) => city.clone(),
                    None => {
                        return None;
                    },
                };
                score_guesses(state, distances);
                self.phase = Phase::Showcasing;
                Some(
                    SolutionPacket {
                        location,
                        guesses: state.get_guesses(),
                        leaderboard: state.get_players(),
                    },
                )
            },
        }
    }
}

} // verus!
