//! Reasoning about a walk through the entries of a hash map, whose order is
//! not known.

use crate::state::Sid;
use vstd::prelude::*;

verus! {

/// Whether `entries` lists the entries of `map`, each once, in some order.
pub open spec fn walks<V>(entries: Seq<(&Sid, &V)>, map: Map<Sid, V>) -> bool {
    &&& forall|i: int|
        0 <= i < entries.len() ==> map.contains_key(*(#[trigger] entries[i]).0) && map[*entries[i].0]
            == *entries[i].1
    &&& forall|sid: Sid| #[trigger] map.contains_key(sid) ==> entries.contains((&sid, &map[sid]))
    &&& entries.no_duplicates()
}

/// The connections among the first `n` entries of a walk.
pub open spec fn keys_before<V>(entries: Seq<(&Sid, &V)>, n: int) -> Set<Sid> {
    Set::new(|sid: Sid| exists|j: int| 0 <= j < n && *(#[trigger] entries[j]).0 == sid)
}

/// A walk meets no connection twice.
pub proof fn lemma_walk_keys_distinct<V>(entries: Seq<(&Sid, &V)>, map: Map<Sid, V>)
    requires
        walks(entries, map),
    ensures
        forall|i: int, j: int|
            0 <= i < entries.len() && 0 <= j < entries.len() && *(#[trigger] entries[i]).0 == *(
            #[trigger] entries[j]).0 ==> i == j,
{
    assert forall|i: int, j: int|
        0 <= i < entries.len() && 0 <= j < entries.len() && *(#[trigger] entries[i]).0 == *(
        #[trigger] entries[j]).0 implies i == j by {
        assert(map[*entries[i].0] == *entries[i].1);
        assert(map[*entries[j].0] == *entries[j].1);
        assert(entries[i] == entries[j]);
    }
}

/// The entry at `n` is new to the walk, and with it the walk has met one
/// connection more.
pub proof fn lemma_walk_step<V>(entries: Seq<(&Sid, &V)>, map: Map<Sid, V>, n: int)
    requires
        walks(entries, map),
        0 <= n < entries.len(),
    ensures
        map.contains_key(*entries[n].0),
        map[*entries[n].0] == *entries[n].1,
        !keys_before(entries, n).contains(*entries[n].0),
        keys_before(entries, n + 1) == keys_before(entries, n).insert(*entries[n].0),
{
    lemma_walk_keys_distinct(entries, map);
    let sid = *entries[n].0;
    assert forall|other: Sid|
        keys_before(entries, n + 1).contains(other) <==> keys_before(entries, n).insert(
            sid,
        ).contains(other) by {
        if keys_before(entries, n + 1).contains(other) {
            let j = choose|j: int| 0 <= j < n + 1 && *(#[trigger] entries[j]).0 == other;
            if j < n {
                assert(keys_before(entries, n).contains(other));
            }
        }
        if other == sid {
            assert(*entries[n].0 == other);
        } else if keys_before(entries, n).contains(other) {
            let j = choose|j: int| 0 <= j < n && *(#[trigger] entries[j]).0 == other;
            assert(*entries[j].0 == other);
        }
    }
    assert(keys_before(entries, n + 1) =~= keys_before(entries, n).insert(sid));
}

/// A walk that has come to its end has met every connection of the map, and
/// no other.
pub proof fn lemma_walk_end<V>(entries: Seq<(&Sid, &V)>, map: Map<Sid, V>)
    requires
        walks(entries, map),
    ensures
        keys_before(entries, entries.len() as int) == map.dom(),
{
    assert forall|sid: Sid|
        keys_before(entries, entries.len() as int).contains(sid) <==> map.dom().contains(sid) by {
        if map.contains_key(sid) {
            assert(entries.contains((&sid, &map[sid])));
            let j = choose|j: int| 0 <= j < entries.len() && entries[j] == (&sid, &map[sid]);
            assert(*entries[j].0 == sid);
        }
        if keys_before(entries, entries.len() as int).contains(sid) {
            let j = choose|j: int| 0 <= j < entries.len() && *(#[trigger] entries[j]).0 == sid;
            assert(map.contains_key(*entries[j].0));
        }
    }
    assert(keys_before(entries, entries.len() as int) =~= map.dom());
}

} // verus!
