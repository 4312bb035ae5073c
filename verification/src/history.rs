//! What holds over whole runs of the game: sequences of joins and
//! departures, and sequences of rounds.

use crate::game::{
    active_players, add_points, join_refusal, players_after_join, players_after_scoring,
    scored_distances, valid_username,
};
use crate::packets::GuessPacket;
use crate::state::{touch_player, username_taken, PlayerView, Sid};
use crate::utils::score;
use vstd::prelude::*;

verus! {

/// Something that changes who is in the room.
pub enum RoomEvent {
    /// A connection asks to join under a username.
    Join { sid: Sid, username: Seq<char>, now: int },
    /// A connection is closed.
    Leave { sid: Sid },
}

impl RoomEvent {
    /// Whether this is the request of the connection `sid` to join.
    pub open spec fn is_join_of(self, sid: Sid) -> bool {
        self matches RoomEvent::Join { sid: joining, .. } && joining == sid
    }

    /// Whether this is a request to join under the name `username`.
    pub open spec fn is_join_as(self, username: Seq<char>) -> bool {
        self matches RoomEvent::Join { username: wanted, .. } && wanted == username
    }

    /// Whether this is the closing of the connection `sid`.
    pub open spec fn is_leave_of(self, sid: Sid) -> bool {
        self == (RoomEvent::Leave { sid })
    }
}

/// The players after one event: a join is answered by the join protocol, a
/// closed connection loses its player.
pub open spec fn players_after_event(players: Map<Sid, PlayerView>, event: RoomEvent) -> Map<
    Sid,
    PlayerView,
> {
    match event {
        RoomEvent::Join { sid, username, now } => players_after_join(players, sid, username, now),
        RoomEvent::Leave { sid } => players.remove(sid),
    }
}

/// The players after a sequence of events, taken in order.
pub open spec fn players_after_events(players: Map<Sid, PlayerView>, events: Seq<RoomEvent>) -> Map<
    Sid,
    PlayerView,
>
    decreases events.len(),
{
    if events.len() == 0 {
        players
    } else {
        players_after_event(players_after_events(players, events.drop_last()), events.last())
    }
}

/// How many of the events are requests to join.
pub open spec fn count_joins(events: Seq<RoomEvent>) -> nat
    decreases events.len(),
{
    if events.len() == 0 {
        0
    } else {
        count_joins(events.drop_last()) + if events.last() is Join {
            1nat
        } else {
            0nat
        }
    }
}

/// How many of the events are closed connections.
pub open spec fn count_leaves(events: Seq<RoomEvent>) -> nat
    decreases events.len(),
{
    if events.len() == 0 {
        0
    } else {
        count_leaves(events.drop_last()) + if events.last() is Leave {
            1nat
        } else {
            0nat
        }
    }
}

/// A run in which every connection joins at most once, under a valid name
/// that nobody else in the run asks for, and in which a connection is closed
/// at most once and only after it has joined.
pub open spec fn orderly(events: Seq<RoomEvent>) -> bool {
    &&& forall|i: int|
        0 <= i < events.len() ==> (#[trigger] events[i] matches RoomEvent::Join { username, .. }
            ==> valid_username(username))
    &&& forall|i: int, j: int, username: Seq<char>|
        0 <= i < j < events.len() && #[trigger] events[i].is_join_as(username)
            ==> !#[trigger] events[j].is_join_as(username)
    &&& forall|i: int, j: int, sid: Sid|
        0 <= i < j < events.len() && #[trigger] events[i].is_join_of(sid)
            ==> !#[trigger] events[j].is_join_of(sid)
    &&& forall|i: int, j: int, sid: Sid|
        0 <= i < j < events.len() && #[trigger] events[i].is_leave_of(sid)
            ==> !#[trigger] events[j].is_leave_of(sid)
    &&& forall|j: int, sid: Sid|
        0 <= j < events.len() && #[trigger] events[j].is_leave_of(sid) ==> joined_before(
            events,
            j,
            sid,
        )
}

/// Whether the connection `sid` asks to join among the first `n` events.
pub open spec fn joined_before(events: Seq<RoomEvent>, n: int, sid: Sid) -> bool {
    exists|i: int| 0 <= i < n && #[trigger] events[i].is_join_of(sid)
}

/// Whether the connection `sid` is closed among the first `n` events.
pub open spec fn left_before(events: Seq<RoomEvent>, n: int, sid: Sid) -> bool {
    exists|i: int| 0 <= i < n && #[trigger] events[i].is_leave_of(sid)
}

/// Whether somebody asks to join as `username` among the first `n` events.
pub open spec fn name_asked_before(events: Seq<RoomEvent>, n: int, username: Seq<char>) -> bool {
    exists|i: int| 0 <= i < n && #[trigger] events[i].is_join_as(username)
}

/// What an orderly run has led to after its first `n` events, from an empty
/// room: the players are the connections that have joined and not left, each
/// under a name that was asked for, and they are as many as there were joins
/// less departures.
spec fn room_matches_run(events: Seq<RoomEvent>, n: int) -> bool {
    let players = players_after_events(Map::<Sid, PlayerView>::empty(), events.take(n));
    &&& players.dom().finite()
    &&& players.len() + count_leaves(events.take(n)) == count_joins(events.take(n))
    &&& forall|sid: Sid| #[trigger]
        players.contains_key(sid) <==> joined_before(events, n, sid) && !left_before(
            events,
            n,
            sid,
        )
    &&& forall|sid: Sid| #[trigger]
        players.contains_key(sid) ==> name_asked_before(events, n, players[sid].username)
}

/// What has happened among the first `n` events is what had happened among
/// the first `n - 1` and what the event after them brings.
proof fn lemma_one_more_event(events: Seq<RoomEvent>, n: int, sid: Sid, username: Seq<char>)
    requires
        0 < n <= events.len(),
    ensures
        joined_before(events, n, sid) <==> joined_before(events, n - 1, sid) || events[n
            - 1].is_join_of(sid),
        left_before(events, n, sid) <==> left_before(events, n - 1, sid) || events[n
            - 1].is_leave_of(sid),
        name_asked_before(events, n, username) <==> name_asked_before(events, n - 1, username)
            || events[n - 1].is_join_as(username),
{
    if joined_before(events, n, sid) {
        let i = choose|i: int| 0 <= i < n && #[trigger] events[i].is_join_of(sid);
        if i < n - 1 {
            assert(joined_before(events, n - 1, sid));
        }
    }
    if joined_before(events, n - 1, sid) {
        let i = choose|i: int| 0 <= i < n - 1 && #[trigger] events[i].is_join_of(sid);
        assert(events[i].is_join_of(sid));
    }
    if left_before(events, n, sid) {
        let i = choose|i: int| 0 <= i < n && #[trigger] events[i].is_leave_of(sid);
        if i < n - 1 {
            assert(left_before(events, n - 1, sid));
        }
    }
    if left_before(events, n - 1, sid) {
        let i = choose|i: int| 0 <= i < n - 1 && #[trigger] events[i].is_leave_of(sid);
        assert(events[i].is_leave_of(sid));
    }
    if name_asked_before(events, n, username) {
        let i = choose|i: int| 0 <= i < n && #[trigger] events[i].is_join_as(username);
        if i < n - 1 {
            assert(name_asked_before(events, n - 1, username));
        }
    }
    if name_asked_before(events, n - 1, username) {
        let i = choose|i: int| 0 <= i < n - 1 && #[trigger] events[i].is_join_as(username);
        assert(events[i].is_join_as(username));
    }
}

/// In an orderly run nothing that the event at `n` does has been done
/// before it: nobody has asked for its name, its connection has not joined
/// (if it joins) and has joined but not left (if it leaves).
proof fn lemma_event_is_fresh(events: Seq<RoomEvent>, n: int)
    requires
        orderly(events),
        0 <= n < events.len(),
    ensures
        match events[n] {
            RoomEvent::Join { sid, username, .. } => {
                &&& valid_username(username)
                &&& !joined_before(events, n, sid)
                &&& !name_asked_before(events, n, username)
            },
            RoomEvent::Leave { sid } => joined_before(events, n, sid) && !left_before(
                events,
                n,
                sid,
            ),
        },
{
    match events[n] {
        RoomEvent::Join { sid, username, .. } => {
            assert(events[n].is_join_of(sid));
            assert(events[n].is_join_as(username));
            if joined_before(events, n, sid) {
                let i = choose|i: int| 0 <= i < n && #[trigger] events[i].is_join_of(sid);
                assert(!events[n].is_join_of(sid));
            }
            if name_asked_before(events, n, username) {
                let i = choose|i: int| 0 <= i < n && #[trigger] events[i].is_join_as(username);
                assert(!events[n].is_join_as(username));
            }
        },
        RoomEvent::Leave { sid } => {
            assert(events[n].is_leave_of(sid));
            if left_before(events, n, sid) {
                let i = choose|i: int| 0 <= i < n && #[trigger] events[i].is_leave_of(sid);
                assert(!events[n].is_leave_of(sid));
            }
        },
    }
}

proof fn lemma_orderly_run(events: Seq<RoomEvent>, n: int)
    requires
        orderly(events),
        0 <= n <= events.len(),
    ensures
        room_matches_run(events, n),
        forall|i: int|
            0 <= i < n ==> (#[trigger] events[i] matches RoomEvent::Join { username, .. }
                ==> join_refusal(
                players_after_events(Map::<Sid, PlayerView>::empty(), events.take(i)),
                username,
            ) is None),
    decreases n,
{
    let empty = Map::<Sid, PlayerView>::empty();
    if n == 0 {
        assert(events.take(0).len() == 0);
        assert(players_after_events(empty, events.take(0)) == empty);
    } else {
        lemma_orderly_run(events, n - 1);
        lemma_event_is_fresh(events, n - 1);
        let prefix = events.take(n);
        let event = events[n - 1];
        assert(prefix.drop_last() =~= events.take(n - 1));
        assert(prefix.last() == event);
        let before = players_after_events(empty, events.take(n - 1));
        let after = players_after_events(empty, prefix);
        assert(after == players_after_event(before, event));
        match event {
            RoomEvent::Join { sid, username, now } => {
                if username_taken(before, username) {
                    let holder = choose|holder: Sid| #[trigger]
                        before.contains_key(holder) && before[holder].username == username;
                    assert(name_asked_before(events, n - 1, username));
                }
                assert(join_refusal(before, username) is None);
                assert(!before.contains_key(sid));
                assert(after == before.insert(sid, PlayerView::joined(username, now)));
            },
            RoomEvent::Leave { sid } => {
                assert(before.contains_key(sid));
                assert(after == before.remove(sid));
            },
        }
        assert forall|other: Sid| #[trigger]
            after.contains_key(other) <==> joined_before(events, n, other) && !left_before(
                events,
                n,
                other,
            ) by {
            lemma_one_more_event(events, n, other, Seq::empty());
        }
        assert forall|other: Sid| #[trigger] after.contains_key(other) implies name_asked_before(
            events,
            n,
            after[other].username,
        ) by {
            lemma_one_more_event(events, n, other, after[other].username);
        }
    }
}

/// In an orderly run that starts with an empty room every request to join is
/// granted, and the room then holds as many players as there were joins,
/// less the connections that were closed.
pub proof fn orderly_joins_all_succeed(events: Seq<RoomEvent>)
    requires
        orderly(events),
    ensures
        forall|i: int|
            0 <= i < events.len() ==> (#[trigger] events[i] matches RoomEvent::Join {
                username,
                ..
            } ==> join_refusal(
                players_after_events(Map::<Sid, PlayerView>::empty(), events.take(i)),
                username,
            ) is None),
        players_after_events(Map::<Sid, PlayerView>::empty(), events).dom().finite(),
        players_after_events(Map::<Sid, PlayerView>::empty(), events).len() == count_joins(events)
            - count_leaves(events),
{
    lemma_orderly_run(events, events.len() as int);
    assert(events.take(events.len() as int) =~= events);
}

/// Whether no two players go by the same name.
pub open spec fn usernames_unique(players: Map<Sid, PlayerView>) -> bool {
    forall|a: Sid, b: Sid|
        players.contains_key(a) && players.contains_key(b) && a != b ==> (
        #[trigger] players[a]).username != (#[trigger] players[b]).username
}

/// Where no two players go by the same name, none of the steps of the game
/// makes it otherwise: not an answered request to join, a closed connection,
/// a sign of life, the award of a round or the removal of the silent.
pub proof fn usernames_stay_unique(
    players: Map<Sid, PlayerView>,
    sid: Sid,
    username: Seq<char>,
    now: int,
    scored: Map<Sid, u64>,
)
    requires
        usernames_unique(players),
    ensures
        usernames_unique(players_after_join(players, sid, username, now)),
        usernames_unique(players.remove(sid)),
        usernames_unique(touch_player(players, sid, now)),
        usernames_unique(players_after_scoring(players, scored)),
        usernames_unique(active_players(players, now)),
{
    let joined = players_after_join(players, sid, username, now);
    assert forall|a: Sid, b: Sid|
        joined.contains_key(a) && joined.contains_key(b) && a != b implies (
    #[trigger] joined[a]).username != (#[trigger] joined[b]).username by {
        if join_refusal(players, username) is None {
            if a == sid {
                assert(players.contains_key(b));
            } else if b == sid {
                assert(players.contains_key(a));
            }
        }
    }
}

/// A run of joins and departures that starts where no two players go by the
/// same name ends so.
pub proof fn events_keep_usernames_unique(players: Map<Sid, PlayerView>, events: Seq<RoomEvent>)
    requires
        usernames_unique(players),
    ensures
        usernames_unique(players_after_events(players, events)),
    decreases events.len(),
{
    if events.len() > 0 {
        events_keep_usernames_unique(players, events.drop_last());
        let before = players_after_events(players, events.drop_last());
        match events.last() {
            RoomEvent::Join { sid, username, now } => {
                usernames_stay_unique(before, sid, username, now, Map::empty());
            },
            RoomEvent::Leave { sid } => {
                usernames_stay_unique(before, sid, Seq::empty(), 0, Map::empty());
            },
        }
    }
}

/// What happened in one round: the guesses that were pending when it was
/// closed, and the distances that were handed in for them.
pub struct RoundRecord {
    pub guesses: Map<Sid, GuessPacket>,
    pub distances: Map<Sid, u64>,
}

impl RoundRecord {
    /// The points that the round brings the connection `sid`: those for the
    /// distance of its guess, and nothing if it made no guess or no distance
    /// came for it.
    pub open spec fn points_for(self, sid: Sid) -> nat {
        if self.guesses.contains_key(sid) && self.distances.contains_key(sid) {
            score(self.distances[sid] as nat)
        } else {
            0
        }
    }
}

/// The players after a sequence of rounds, each closed in turn.
pub open spec fn players_after_rounds(
    players: Map<Sid, PlayerView>,
    rounds: Seq<RoundRecord>,
) -> Map<Sid, PlayerView>
    decreases rounds.len(),
{
    if rounds.len() == 0 {
        players
    } else {
        players_after_scoring(
            players_after_rounds(players, rounds.drop_last()),
            scored_distances(rounds.last().guesses, rounds.last().distances),
        )
    }
}

/// The points that a sequence of rounds brings the connection `sid` in all.
pub open spec fn points_earned(rounds: Seq<RoundRecord>, sid: Sid) -> nat
    decreases rounds.len(),
{
    if rounds.len() == 0 {
        0
    } else {
        points_earned(rounds.drop_last(), sid) + rounds.last().points_for(sid)
    }
}

/// A player who is there through a sequence of rounds ends with the score
/// they began with and the sum of the points of their guesses, round by
/// round; a round without a guess of theirs adds nothing. Nothing else about
/// the player changes. A score that would pass the largest value it can hold
/// stays at that value.
pub proof fn score_is_sum_of_rounds(
    players: Map<Sid, PlayerView>,
    rounds: Seq<RoundRecord>,
    sid: Sid,
)
    requires
        players.contains_key(sid),
        players[sid].score <= u64::MAX,
    ensures
        players_after_rounds(players, rounds).contains_key(sid),
        players_after_rounds(players, rounds)[sid] == (PlayerView {
            score: add_points(players[sid].score, points_earned(rounds, sid)),
            ..players[sid]
        }),
        players[sid].score + points_earned(rounds, sid) <= u64::MAX ==> players_after_rounds(
            players,
            rounds,
        )[sid].score == players[sid].score + points_earned(rounds, sid),
    decreases rounds.len(),
{
    if rounds.len() > 0 {
        score_is_sum_of_rounds(players, rounds.drop_last(), sid);
    }
}

} // verus!
