//! The session registry.
//!
//! One registry serves the whole process. Its first half, [`Sessions`],
//! knows every peer connection by its session id. Its second half,
//! [`Subscriptions`], knows for every stream key the egress tracks that
//! are subscribed to it, in the order in which their viewers arrived. A
//! key is known from the moment a viewer asks for it or a publisher
//! forwards its first packet; a known key with no subscriber is in order.
//!
//! The registry does not look inside a peer connection or a track: `C` is
//! whatever handle the caller keeps for a connection, `W` whatever handle
//! it writes RTP packets to.

use std::collections::HashMap;
use vstd::prelude::*;
use crate::error::{Error, ErrorView};
use crate::session::{lemma_locations_differ, resource_path, SessionId};
use crate::text::same_text;

verus! {

/// The peer connections of one relay, each under its session id.
pub struct Sessions<C> {
    connections: HashMap<u128, C>,
}

impl<C> View for Sessions<C> {
    type V = Map<SessionId, C>;

    closed spec fn view(&self) -> Map<SessionId, C> {
        Map::new(
            |id: SessionId| self.connections@.contains_key(id.value),
            |id: SessionId| self.connections@[id.value],
        )
    }
}

impl<C> Sessions<C> {
    /// A registry that knows no session.
    pub fn new() -> (sessions: Self)
        ensures
            sessions@ == Map::<SessionId, C>::empty(),
    {
        let sessions = Sessions { connections: HashMap::new() };
        proof {
            assert(sessions@ =~= Map::<SessionId, C>::empty());
        }
        sessions
    }

    /// Files a peer connection under its session id. An id stands for one
    /// session only: where a session is filed under the id already, the
    /// registry stays as it is and the connection is not filed. No session
    /// that is filed is ever forgotten.
    pub fn register(&mut self, id: SessionId, connection: C) -> (filed: Result<(), Error>)
        ensures
            match filed {
                Ok(_) => {
                    &&& !old(self)@.contains_key(id)
                    &&& final(self)@ == old(self)@.insert(id, connection)
                },
                Err(error) => {
                    &&& old(self)@.contains_key(id)
                    &&& final(self)@ == old(self)@
                    &&& error@ == ErrorView::InternalError("session id in use"@)
                },
            },
            forall|known: SessionId|
                old(self)@.contains_key(known) ==> final(self)@.contains_key(known),
    {
        if self.connections.contains_key(&id.value) {
            return Err(Error::InternalError("session id in use".to_owned()));
        }
        self.connections.insert(id.value, connection);
        proof {
            assert(self@ =~= old(self)@.insert(id, connection));
        }
        Ok(())
    }

    /// The peer connection of a session, if the session is known.
    pub fn connection(&self, id: SessionId) -> (found: Option<&C>)
        ensures
            match found {
                Some(connection) => self@.contains_key(id) && self@[id] == *connection,
                None => !self@.contains_key(id),
            },
    {
        self.connections.get(&id.value)
    }
}

/// A session that is filed has an id that no session filed before it
/// has, and so a resource of its own: the `Location` headers of the
/// answers that tell two sessions that they stand differ.
pub proof fn lemma_filed_sessions_have_distinct_locations<C>(
    sessions: Map<SessionId, C>,
    earlier: SessionId,
    later: SessionId,
)
    requires
        sessions.contains_key(earlier),
        !sessions.contains_key(later),
    ensures
        earlier != later,
        resource_path(earlier) != resource_path(later),
{
    lemma_locations_differ(earlier, later);
}

/// The two tracks through which one viewer is fed: one for video and one
/// for audio.
#[derive(Debug, Clone, Copy, PartialEq, Eq)]
pub struct TrackPair<W> {
    pub video: W,
    pub audio: W,
}

/// The subscribers of one stream key. The entries are kept in a list and
/// found by comparing keys: vstd has no key model for `String`, so nothing
/// could be said of what a hash map under such keys holds.
struct Subscription<W> {
    key: String,
    pairs: Vec<TrackPair<W>>,
}

/// For every known stream key, the track pairs subscribed to it.
pub struct Subscriptions<W> {
    entries: Vec<Subscription<W>>,
}

/// No key stands twice in the list.
spec fn keys_are_distinct<W>(list: Seq<Subscription<W>>) -> bool {
    forall|i: int, j: int|
        0 <= i < list.len() && 0 <= j < list.len() && list[i].key@ == list[j].key@ ==> i == j
}

/// `key` stands at `at` in the list.
spec fn stands_at<W>(list: Seq<Subscription<W>>, key: Seq<char>, at: int) -> bool {
    0 <= at < list.len() && list[at].key@ == key
}

/// The list as a map from each key to its subscribers.
spec fn as_map<W>(list: Seq<Subscription<W>>) -> Map<Seq<char>, Seq<TrackPair<W>>> {
    Map::new(
        |key: Seq<char>| exists|at: int| stands_at(list, key, at),
        |key: Seq<char>| list[choose|at: int| stands_at(list, key, at)].pairs@,
    )
}

/// In a list without a repeated key, the key at `at` maps to the pairs at
/// `at`.
proof fn lemma_entry_is_mapped<W>(list: Seq<Subscription<W>>, at: int)
    requires
        keys_are_distinct(list),
        0 <= at < list.len(),
    ensures
        as_map(list).contains_key(list[at].key@),
        as_map(list)[list[at].key@] == list[at].pairs@,
{
    assert(stands_at(list, list[at].key@, at));
}

/// Replacing the pairs of the entry at `at` replaces what its key maps to.
proof fn lemma_pairs_replaced<W>(
    before: Seq<Subscription<W>>,
    after: Seq<Subscription<W>>,
    at: int,
)
    requires
        keys_are_distinct(before),
        0 <= at < before.len(),
        after.len() == before.len(),
        forall|i: int| 0 <= i < before.len() ==> after[i].key@ == before[i].key@,
        forall|i: int| 0 <= i < before.len() && i != at ==> after[i].pairs@ == before[i].pairs@,
    ensures
        keys_are_distinct(after),
        as_map(after) == as_map(before).insert(before[at].key@, after[at].pairs@),
{
    assert forall|k: Seq<char>, i: int| stands_at(after, k, i) == stands_at(before, k, i) by {}
    let expected = as_map(before).insert(before[at].key@, after[at].pairs@);
    assert forall|k: Seq<char>| #[trigger] as_map(after).contains_key(k) == expected.contains_key(
        k,
    ) by {
        if as_map(after).contains_key(k) {
            let i = choose|i: int| stands_at(after, k, i);
            assert(stands_at(before, k, i));
        }
        if as_map(before).contains_key(k) {
            let i = choose|i: int| stands_at(before, k, i);
            assert(stands_at(after, k, i));
        }
        if k == before[at].key@ {
            assert(stands_at(after, k, at));
        }
    }
    assert forall|k: Seq<char>| #[trigger] as_map(after).contains_key(k) implies as_map(after)[k]
        == expected[k] by {
        let i = choose|i: int| stands_at(after, k, i);
        lemma_entry_is_mapped(after, i);
        lemma_entry_is_mapped(before, i);
    }
    assert(as_map(after) =~= expected);
}

/// Adding an entry under a key that the list does not hold adds the key
/// to the map.
proof fn lemma_entry_added<W>(before: Seq<Subscription<W>>, entry: Subscription<W>)
    requires
        keys_are_distinct(before),
        forall|at: int| !stands_at(before, entry.key@, at),
    ensures
        keys_are_distinct(before.push(entry)),
        !as_map(before).contains_key(entry.key@),
        as_map(before.push(entry)) == as_map(before).insert(entry.key@, entry.pairs@),
{
    let after = before.push(entry);
    let last = before.len() as int;
    assert forall|i: int, j: int|
        0 <= i < after.len() && 0 <= j < after.len() && after[i].key@
            == after[j].key@ implies i == j by {
        if i < last && j < last {
            assert(before[i].key@ == before[j].key@);
        } else if i < last {
            assert(!stands_at(before, entry.key@, i));
        } else if j < last {
            assert(!stands_at(before, entry.key@, j));
        }
    }
    let expected = as_map(before).insert(entry.key@, entry.pairs@);
    assert forall|k: Seq<char>| #[trigger] as_map(after).contains_key(k) == expected.contains_key(
        k,
    ) by {
        if as_map(after).contains_key(k) {
            let i = choose|i: int| stands_at(after, k, i);
            if i < last {
                assert(stands_at(before, k, i));
            }
        }
        if as_map(before).contains_key(k) {
            let i = choose|i: int| stands_at(before, k, i);
            assert(stands_at(after, k, i));
        }
        if k == entry.key@ {
            assert(stands_at(after, k, last));
        }
    }
    assert forall|k: Seq<char>| #[trigger] as_map(after).contains_key(k) implies as_map(after)[k]
        == expected[k] by {
        let i = choose|i: int| stands_at(after, k, i);
        lemma_entry_is_mapped(after, i);
        if i < last {
            assert(stands_at(before, k, i));
            lemma_entry_is_mapped(before, i);
        }
    }
    assert(as_map(after) =~= expected);
}

/// Taking the entry at `at` out of the list takes its key out of the map.
proof fn lemma_entry_removed<W>(before: Seq<Subscription<W>>, at: int)
    requires
        keys_are_distinct(before),
        0 <= at < before.len(),
    ensures
        keys_are_distinct(before.remove(at)),
        as_map(before.remove(at)) == as_map(before).remove(before[at].key@),
{
    let after = before.remove(at);
    let gone = before[at].key@;
    assert forall|i: int| 0 <= i < after.len() implies after[i] == before[if i < at {
        i
    } else {
        i + 1
    }] by {}
    assert forall|i: int, j: int|
        0 <= i < after.len() && 0 <= j < after.len() && after[i].key@
            == after[j].key@ implies i == j by {
        let from_i = if i < at { i } else { i + 1 };
        let from_j = if j < at { j } else { j + 1 };
        assert(before[from_i].key@ == before[from_j].key@);
    }
    let expected = as_map(before).remove(gone);
    assert forall|k: Seq<char>| #[trigger] as_map(after).contains_key(k) == expected.contains_key(
        k,
    ) by {
        if as_map(after).contains_key(k) {
            let i = choose|i: int| stands_at(after, k, i);
            let from = if i < at { i } else { i + 1 };
            assert(stands_at(before, k, from));
            assert(from != at);
        }
        if expected.contains_key(k) {
            let i = choose|i: int| stands_at(before, k, i);
            assert(i != at);
            let to = if i < at { i } else { i - 1 };
            assert(stands_at(after, k, to));
        }
    }
    assert forall|k: Seq<char>| #[trigger] as_map(after).contains_key(k) implies as_map(after)[k]
        == expected[k] by {
        let i = choose|i: int| stands_at(after, k, i);
        let from = if i < at { i } else { i + 1 };
        lemma_entry_is_mapped(after, i);
        lemma_entry_is_mapped(before, from);
    }
    assert(as_map(after) =~= expected);
}

/// The place of `key` in the list, if it has one.
fn place_of<W>(list: &Vec<Subscription<W>>, key: &str) -> (place: Option<usize>)
    ensures
        match place {
            Some(at) => stands_at(list@, key@, at as int),
            None => forall|at: int| !stands_at(list@, key@, at),
        },
{
    let mut at: usize = 0;
    while at < list.len()
        invariant
            at <= list.len(),
            forall|j: int| 0 <= j < at ==> !stands_at(list@, key@, j),
        decreases list.len() - at,
    {
        if same_text(list[at].key.as_str(), key) {
            return Some(at);
        }
        at += 1;
    }
    None
}

/// The subscribers of `key` after one more has joined them: the key's
/// list with `pair` at its end, or `pair` alone where the key was unknown.
pub open spec fn with_subscriber<W>(
    known: Map<Seq<char>, Seq<TrackPair<W>>>,
    key: Seq<char>,
    pair: TrackPair<W>,
) -> Map<Seq<char>, Seq<TrackPair<W>>> {
    if known.contains_key(key) {
        known.insert(key, known[key].push(pair))
    } else {
        known.insert(key, seq![pair])
    }
}

/// The subscriptions once `key` is known: as before where it was known,
/// and with no subscriber under it where it was not.
pub open spec fn with_key<W>(known: Map<Seq<char>, Seq<TrackPair<W>>>, key: Seq<char>) -> Map<
    Seq<char>,
    Seq<TrackPair<W>>,
> {
    if known.contains_key(key) {
        known
    } else {
        known.insert(key, Seq::empty())
    }
}

impl<W> View for Subscriptions<W> {
    type V = Map<Seq<char>, Seq<TrackPair<W>>>;

    closed spec fn view(&self) -> Map<Seq<char>, Seq<TrackPair<W>>> {
        as_map(self.entries@)
    }
}

impl<W> Subscriptions<W> {
    #[verifier::type_invariant]
    spec fn well_formed(&self) -> bool {
        keys_are_distinct(self.entries@)
    }

    /// Subscriptions that know no stream key.
    pub fn new() -> (subscriptions: Self)
        ensures
            subscriptions@ == Map::<Seq<char>, Seq<TrackPair<W>>>::empty(),
    {
        let subscriptions = Subscriptions { entries: Vec::new() };
        proof {
            assert(subscriptions@ =~= Map::<Seq<char>, Seq<TrackPair<W>>>::empty());
        }
        subscriptions
    }

    /// The subscribers of a stream key, in the order in which they
    /// subscribed; `None` where the key is unknown.
    pub fn subscribers(&self, key: &str) -> (found: Option<&Vec<TrackPair<W>>>)
        ensures
            match found {
                Some(pairs) => self@.contains_key(key@) && self@[key@] == pairs@,
                None => !self@.contains_key(key@),
            },
    {
        proof {
            use_type_invariant(self);
        }
        match place_of(&self.entries, key) {
            Some(at) => {
                proof {
                    lemma_entry_is_mapped(self.entries@, at as int);
                }
                Some(&self.entries[at].pairs)
            },
            None => None,
        }
    }

    /// Subscribes a viewer's track pair to a stream key. The pair comes
    /// last among the key's subscribers; an unknown key becomes known with
    /// this pair as its only subscriber. A pair subscribed twice is fed
    /// twice.
    pub fn subscribe(&mut self, key: &str, pair: TrackPair<W>)
        ensures
            final(self)@ == with_subscriber(old(self)@, key@, pair),
    {
        proof {
            use_type_invariant(&*self);
        }
        let mut entries: Vec<Subscription<W>> = Vec::new();
        std::mem::swap(&mut entries, &mut self.entries);
        let ghost before = entries@;
        match place_of(&entries, key) {
            Some(at) => {
                let mut entry = entries.remove(at);
                entry.pairs.push(pair);
                entries.insert(at, entry);
                proof {
                    lemma_entry_is_mapped(before, at as int);
                    lemma_pairs_replaced(before, entries@, at as int);
                }
            },
            None => {
                let mut pairs: Vec<TrackPair<W>> = Vec::new();
                pairs.push(pair);
                let entry = Subscription { key: key.to_owned(), pairs };
                proof {
                    assert(entry.pairs@ =~= seq![pair]);
                    lemma_entry_added(before, entry);
                }
                entries.push(entry);
            },
        }
        self.entries = entries;
    }

    /// Makes a stream key known. A key that was known keeps its
    /// subscribers; one that was not has none.
    pub fn establish(&mut self, key: &str)
        ensures
            final(self)@ == with_key(old(self)@, key@),
    {
        proof {
            use_type_invariant(&*self);
        }
        let mut entries: Vec<Subscription<W>> = Vec::new();
        std::mem::swap(&mut entries, &mut self.entries);
        let ghost before = entries@;
        match place_of(&entries, key) {
            Some(at) => {
                proof {
                    lemma_entry_is_mapped(before, at as int);
                }
            },
            None => {
                let entry = Subscription { key: key.to_owned(), pairs: Vec::new() };
                proof {
                    assert(entry.pairs@ =~= Seq::<TrackPair<W>>::empty());
                    lemma_entry_added(before, entry);
                }
                entries.push(entry);
            },
        }
        self.entries = entries;
    }

    /// Forgets a stream key and all its subscribers. Other keys are not
    /// touched, and forgetting an unknown key changes nothing.
    pub fn clear(&mut self, key: &str)
        ensures
            final(self)@ == old(self)@.remove(key@),
            !final(self)@.contains_key(key@),
            !old(self)@.contains_key(key@) ==> final(self)@ == old(self)@,
    {
        proof {
            use_type_invariant(&*self);
        }
        let mut entries: Vec<Subscription<W>> = Vec::new();
        std::mem::swap(&mut entries, &mut self.entries);
        let ghost before = entries@;
        match place_of(&entries, key) {
            Some(at) => {
                proof {
                    lemma_entry_removed(before, at as int);
                }
                let _ = entries.remove(at);
            },
            None => {
                proof {
                    assert(!as_map(before).contains_key(key@));
                    assert(as_map(before).remove(key@) =~= as_map(before));
                }
            },
        }
        self.entries = entries;
    }
}

/// Forgetting a stream key leaves it unknown, and forgetting it once more
/// changes nothing.
pub proof fn lemma_clearing_twice_is_clearing_once<W>(
    known: Map<Seq<char>, Seq<TrackPair<W>>>,
    key: Seq<char>,
)
    ensures
        !known.remove(key).contains_key(key),
        known.remove(key).remove(key) == known.remove(key),
{
    assert(known.remove(key).remove(key) =~= known.remove(key));
}

} // verus!
