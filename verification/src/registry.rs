//! The connection registry: a bidirectional index from users to their live
//! sessions and from rooms to their online members.
//!
//! The registry is a plain value owned by a single writer; the embedding
//! program serialises access to it (a mutex or a message-driven owner task),
//! so no operation here ever blocks or suspends. Lookups on absent keys
//! return empty results rather than errors.
//!
//! Invariants, established by every mutation:
//! - a user id is indexed iff it has at least one live session, and a room id
//!   is indexed iff it has at least one online member (no empty entries);
//! - session ids are unique within a user and across users;
//! - member lists hold no duplicates.

use vstd::prelude::*;

use crate::scope::ScopeSet;

verus! {

/// Entries of the registry's sequences are addressed by a `u64` key.
pub trait Keyed {
    spec fn key(self) -> u64;
}

/// The key sequence of a keyed sequence.
pub open spec fn keys_of<T: Keyed>(s: Seq<T>) -> Seq<u64> {
    s.map_values(|e: T| e.key())
}

/// The first entry with the given key, if any.
pub open spec fn assoc<T: Keyed>(s: Seq<T>, k: u64) -> Option<T>
    decreases s.len(),
{
    if s.len() == 0 {
        None
    } else if s[0].key() == k {
        Some(s[0])
    } else {
        assoc(s.drop_first(), k)
    }
}

/// The sequence with the first entry carrying the given key removed.
pub open spec fn remove_keyed<T: Keyed>(s: Seq<T>, k: u64) -> Seq<T>
    decreases s.len(),
{
    if s.len() == 0 {
        Seq::empty()
    } else if s[0].key() == k {
        s.drop_first()
    } else {
        seq![s[0]] + remove_keyed(s.drop_first(), k)
    }
}

/// The sequence with the entry carrying the key of `e` replaced by `e`, or
/// with `e` appended when no entry carries that key.
pub open spec fn upsert_keyed<T: Keyed>(s: Seq<T>, e: T) -> Seq<T>
    decreases s.len(),
{
    if s.len() == 0 {
        seq![e]
    } else if s[0].key() == e.key() {
        seq![e] + s.drop_first()
    } else {
        seq![s[0]] + upsert_keyed(s.drop_first(), e)
    }
}

/// An entry with a key is found iff some position holds that key.
pub proof fn lemma_assoc_some<T: Keyed>(s: Seq<T>, k: u64)
    ensures
        assoc(s, k) is Some <==> keys_of(s).contains(k),
    decreases s.len(),
{
    if s.len() > 0 {
        lemma_assoc_some(s.drop_first(), k);
        if s[0].key() == k {
            assert(keys_of(s)[0] == k);
        } else {
            assert(keys_of(s.drop_first()) =~= keys_of(s).drop_first());
            if keys_of(s).contains(k) {
                let i = choose|i: int| 0 <= i < keys_of(s).len() && keys_of(s)[i] == k;
                assert(keys_of(s).drop_first()[i - 1] == k);
            }
            if keys_of(s).drop_first().contains(k) {
                let i = choose|i: int|
                    0 <= i < keys_of(s).drop_first().len() && keys_of(s).drop_first()[i] == k;
                assert(keys_of(s)[i + 1] == k);
            }
        }
    }
}

/// When position `i` holds the first occurrence of its key, `assoc` finds
/// exactly that entry.
pub proof fn lemma_assoc_at<T: Keyed>(s: Seq<T>, i: int)
    requires
        0 <= i < s.len(),
        forall|j: int| 0 <= j < i ==> (#[trigger] s[j]).key() != s[i].key(),
    ensures
        assoc(s, s[i].key()) == Some(s[i]),
    decreases i,
{
    if i > 0 {
        lemma_assoc_at(s.drop_first(), i - 1);
    }
}

/// The key sequence distributes over push, update and remove.
pub proof fn lemma_keys_of_push<T: Keyed>(s: Seq<T>, e: T)
    ensures
        keys_of(s.push(e)) == keys_of(s).push(e.key()),
{
    assert(keys_of(s.push(e)) =~= keys_of(s).push(e.key()));
}

/// See [`lemma_keys_of_push`].
pub proof fn lemma_keys_of_update<T: Keyed>(s: Seq<T>, i: int, e: T)
    requires
        0 <= i < s.len(),
    ensures
        keys_of(s.update(i, e)) == keys_of(s).update(i, e.key()),
{
    assert(keys_of(s.update(i, e)) =~= keys_of(s).update(i, e.key()));
}

/// See [`lemma_keys_of_push`].
pub proof fn lemma_keys_of_remove<T: Keyed>(s: Seq<T>, i: int)
    requires
        0 <= i < s.len(),
    ensures
        keys_of(s.remove(i)) == keys_of(s).remove(i),
{
    assert(keys_of(s.remove(i)) =~= keys_of(s).remove(i));
}

/// Appending an entry leaves every earlier association in place and makes the
/// new entry found exactly when its key was absent.
pub proof fn lemma_assoc_push<T: Keyed>(s: Seq<T>, e: T, k: u64)
    ensures
        assoc(s.push(e), k) == (if assoc(s, k) is Some {
            assoc(s, k)
        } else if e.key() == k {
            Some(e)
        } else {
            None::<T>
        }),
    decreases s.len(),
{
    if s.len() == 0 {
        assert(s.push(e)[0] == e);
        assert(s.push(e).len() == 1);
    } else {
        assert(s.push(e)[0] == s[0]);
        if s[0].key() != k {
            assert(s.push(e).drop_first() =~= s.drop_first().push(e));
            lemma_assoc_push(s.drop_first(), e, k);
        }
    }
}

/// Replacing the entry at a position with one of the same key changes no
/// association under any other key.
pub proof fn lemma_assoc_update<T: Keyed>(s: Seq<T>, i: int, e: T, k: u64)
    requires
        0 <= i < s.len(),
        s[i].key() == e.key(),
        k != e.key(),
    ensures
        assoc(s.update(i, e), k) == assoc(s, k),
    decreases s.len(),
{
    let t = s.update(i, e);
    if i == 0 {
        assert(t[0] == e);
        assert(t.drop_first() =~= s.drop_first());
    } else {
        assert(t[0] == s[0]);
        if s[0].key() != k {
            assert(t.drop_first() =~= s.drop_first().update(i - 1, e));
            lemma_assoc_update(s.drop_first(), i - 1, e, k);
        }
    }
}

/// Removing the entry at a position of a duplicate-free sequence erases its
/// key's association and leaves every other key's association in place.
pub proof fn lemma_assoc_remove<T: Keyed>(s: Seq<T>, i: int, k: u64)
    requires
        0 <= i < s.len(),
        keys_of(s).no_duplicates(),
    ensures
        k == s[i].key() ==> assoc(s.remove(i), k) is None,
        k != s[i].key() ==> assoc(s.remove(i), k) == assoc(s, k),
    decreases s.len(),
{
    let t = s.remove(i);
    if i == 0 {
        assert(t =~= s.drop_first());
        if k == s[0].key() {
            lemma_assoc_some(s.drop_first(), k);
            if keys_of(s.drop_first()).contains(k) {
                let j = choose|j: int|
                    0 <= j < keys_of(s.drop_first()).len() && keys_of(s.drop_first())[j] == k;
                assert(keys_of(s)[j + 1] == k);
                assert(keys_of(s)[0] == k);
            }
        }
    } else {
        assert(t[0] == s[0]);
        assert(keys_of(s.drop_first()) =~= keys_of(s).drop_first());
        assert(keys_of(s.drop_first()).no_duplicates());
        if s[0].key() == k {
            assert(s[i].key() != k) by {
                assert(keys_of(s)[0] == k);
                assert(keys_of(s)[i] == s[i].key());
            }
        } else {
            assert(t.drop_first() =~= s.drop_first().remove(i - 1));
            lemma_assoc_remove(s.drop_first(), i - 1, k);
        }
    }
}

/// On a sequence without the key, the upsert is an append.
pub proof fn lemma_upsert_absent<T: Keyed>(s: Seq<T>, e: T)
    requires
        !keys_of(s).contains(e.key()),
    ensures
        upsert_keyed(s, e) == s.push(e),
    decreases s.len(),
{
    if s.len() == 0 {
        assert(upsert_keyed(s, e) =~= s.push(e));
    } else {
        assert(keys_of(s)[0] == s[0].key());
        assert(!keys_of(s.drop_first()).contains(e.key())) by {
            assert(keys_of(s.drop_first()) =~= keys_of(s).drop_first());
            if keys_of(s).drop_first().contains(e.key()) {
                let j = choose|j: int|
                    0 <= j < keys_of(s).drop_first().len() && keys_of(s).drop_first()[j]
                        == e.key();
                assert(keys_of(s)[j + 1] == e.key());
            }
        }
        lemma_upsert_absent(s.drop_first(), e);
        assert(upsert_keyed(s, e) =~= s.push(e));
    }
}

/// On the first position holding the key, the upsert is an in-place update.
pub proof fn lemma_upsert_at<T: Keyed>(s: Seq<T>, e: T, i: int)
    requires
        0 <= i < s.len(),
        s[i].key() == e.key(),
        forall|j: int| 0 <= j < i ==> (#[trigger] s[j]).key() != e.key(),
    ensures
        upsert_keyed(s, e) == s.update(i, e),
    decreases i,
{
    if i == 0 {
        assert(upsert_keyed(s, e) =~= s.update(0, e));
    } else {
        lemma_upsert_at(s.drop_first(), e, i - 1);
        assert(s.drop_first().update(i - 1, e) =~= s.update(i, e).drop_first());
        assert(upsert_keyed(s, e) =~= s.update(i, e));
    }
}

/// On a sequence without the key, the removal changes nothing.
pub proof fn lemma_remove_absent<T: Keyed>(s: Seq<T>, k: u64)
    requires
        !keys_of(s).contains(k),
    ensures
        remove_keyed(s, k) == s,
    decreases s.len(),
{
    if s.len() > 0 {
        assert(keys_of(s)[0] == s[0].key());
        assert(!keys_of(s.drop_first()).contains(k)) by {
            assert(keys_of(s.drop_first()) =~= keys_of(s).drop_first());
            if keys_of(s).drop_first().contains(k) {
                let j = choose|j: int|
                    0 <= j < keys_of(s).drop_first().len() && keys_of(s).drop_first()[j] == k;
                assert(keys_of(s)[j + 1] == k);
            }
        }
        lemma_remove_absent(s.drop_first(), k);
        assert(remove_keyed(s, k) =~= s);
    }
}

/// On the first position holding the key, the removal drops that position.
pub proof fn lemma_remove_at<T: Keyed>(s: Seq<T>, i: int)
    requires
        0 <= i < s.len(),
        forall|j: int| 0 <= j < i ==> (#[trigger] s[j]).key() != s[i].key(),
    ensures
        remove_keyed(s, s[i].key()) == s.remove(i),
    decreases i,
{
    if i == 0 {
        assert(remove_keyed(s, s[i].key()) =~= s.remove(0));
    } else {
        lemma_remove_at(s.drop_first(), i - 1);
        assert(s.drop_first().remove(i - 1) =~= s.remove(i).drop_first());
        assert(s.remove(i)[0] == s[0]);
        assert(remove_keyed(s, s[i].key()) =~= s.remove(i));
    }
}

/// Removing a position of a duplicate-free key sequence keeps it
/// duplicate-free and erases exactly that key.
pub proof fn lemma_keys_remove(keys: Seq<u64>, i: int)
    requires
        0 <= i < keys.len(),
        keys.no_duplicates(),
    ensures
        keys.remove(i).no_duplicates(),
        forall|x: u64| keys.remove(i).contains(x) <==> (keys.contains(x) && x != keys[i]),
{
    keys.remove_ensures(i);
    assert forall|x: u64| keys.remove(i).contains(x) implies (keys.contains(x) && x != keys[i]) by {
        let j = choose|j: int| 0 <= j < keys.remove(i).len() && keys.remove(i)[j] == x;
        if j < i {
            assert(keys[j] == x);
        } else {
            assert(keys[j + 1] == x);
        }
    }
    assert forall|x: u64| (keys.contains(x) && x != keys[i]) implies keys.remove(i).contains(x) by {
        let j = choose|j: int| 0 <= j < keys.len() && keys[j] == x;
        if j < i {
            assert(keys.remove(i)[j] == x);
        } else {
            assert(keys.remove(i)[j - 1] == x);
        }
    }
}

/// Removing a key from a duplicate-free sequence removes exactly that key:
/// the result is still duplicate-free and holds an id exactly when the
/// original held it and it is not the removed one.
pub proof fn lemma_remove_keyed_keys<T: Keyed>(s: Seq<T>, k: u64)
    requires
        keys_of(s).no_duplicates(),
    ensures
        keys_of(remove_keyed(s, k)).no_duplicates(),
        forall|x: u64|
            (#[trigger] keys_of(remove_keyed(s, k)).contains(x)) <==> (keys_of(s).contains(x) && x
                != k),
{
    lemma_assoc_some(s, k);
    if keys_of(s).contains(k) {
        let j = choose|j: int| 0 <= j < keys_of(s).len() && keys_of(s)[j] == k;
        assert(s[j].key() == k);
        assert forall|l: int| 0 <= l < j implies (#[trigger] s[l]).key() != s[j].key() by {
            assert(keys_of(s)[l] == s[l].key());
        }
        lemma_remove_at(s, j);
        lemma_keys_of_remove(s, j);
        lemma_keys_remove(keys_of(s), j);
    } else {
        lemma_remove_absent(s, k);
    }
}

/// Removing a user id from a duplicate-free member list removes exactly that
/// id.
pub proof fn lemma_remove_member(members: Seq<u64>, k: u64)
    requires
        members.no_duplicates(),
    ensures
        !remove_keyed(members, k).contains(k),
        forall|x: u64| x != k ==> remove_keyed(members, k).contains(x) == members.contains(x),
        remove_keyed(members, k).no_duplicates(),
{
    assert(keys_of(members) =~= members);
    lemma_remove_keyed_keys(members, k);
    assert(keys_of(remove_keyed(members, k)) =~= remove_keyed(members, k));
    assert(!keys_of(remove_keyed(members, k)).contains(k));
    assert forall|x: u64| x != k implies remove_keyed(members, k).contains(x) == members.contains(
        x,
    ) by {
        assert(keys_of(remove_keyed(members, k)).contains(x) == (keys_of(members).contains(x) && x
            != k));
    }
}

/// Pushing a fresh key keeps a key sequence duplicate-free.
pub proof fn lemma_keys_push_no_dup(keys: Seq<u64>, k: u64)
    requires
        keys.no_duplicates(),
        !keys.contains(k),
    ensures
        keys.push(k).no_duplicates(),
{
    assert forall|a: int, b: int|
        0 <= a < keys.push(k).len() && 0 <= b < keys.push(k).len() && a != b implies keys.push(
        k,
    )[a] != keys.push(k)[b] by {
        if a < keys.len() && b < keys.len() {
        } else if a < keys.len() {
            assert(keys[a] == keys.push(k)[a]);
        } else {
            assert(keys[b] == keys.push(k)[b]);
        }
    }
}

/// Re-registering a key replaces rather than duplicates: the upsert keeps the
/// key sequence duplicate-free, extends it only when the key was absent,
/// associates the key with the new entry, and leaves every other association
/// in place.
pub proof fn law_idempotent_reauthentication<T: Keyed>(s: Seq<T>, e: T)
    requires
        keys_of(s).no_duplicates(),
    ensures
        keys_of(upsert_keyed(s, e)).no_duplicates(),
        keys_of(s).contains(e.key()) ==> keys_of(upsert_keyed(s, e)) == keys_of(s),
        !keys_of(s).contains(e.key()) ==> keys_of(upsert_keyed(s, e)) == keys_of(s).push(e.key()),
        assoc(upsert_keyed(s, e), e.key()) == Some(e),
        forall|k: u64| k != e.key() ==> assoc(upsert_keyed(s, e), k) == assoc(s, k),
{
    if keys_of(s).contains(e.key()) {
        let i = choose|i: int| 0 <= i < keys_of(s).len() && keys_of(s)[i] == e.key();
        assert(s[i].key() == e.key());
        assert forall|j: int| 0 <= j < i implies (#[trigger] s[j]).key() != e.key() by {
            assert(keys_of(s)[j] == s[j].key());
        }
        lemma_upsert_at(s, e, i);
        lemma_keys_of_update(s, i, e);
        assert(keys_of(s).update(i, e.key()) =~= keys_of(s));
        assert forall|j: int| 0 <= j < i implies (#[trigger] s.update(i, e)[j]).key() != s.update(
            i,
            e,
        )[i].key() by {
            assert(keys_of(s)[j] == s[j].key());
        }
        lemma_assoc_at(s.update(i, e), i);
        assert forall|k: u64| k != e.key() implies assoc(upsert_keyed(s, e), k) == assoc(s, k) by {
            lemma_assoc_update(s, i, e, k);
        }
    } else {
        lemma_upsert_absent(s, e);
        lemma_keys_of_push(s, e);
        lemma_keys_push_no_dup(keys_of(s), e.key());
        lemma_assoc_some(s, e.key());
        lemma_assoc_push(s, e, e.key());
        assert forall|k: u64| k != e.key() implies assoc(upsert_keyed(s, e), k) == assoc(s, k) by {
            lemma_assoc_push(s, e, k);
        }
    }
}

/// One live session of a user: its process-unique identifier, the scopes the
/// credential granted (`None` is the unrestricted first-party grant), and the
/// outbound send handle of the transport.
pub struct SessionEntry<H> {
    pub session_id: u64,
    pub scopes: Option<ScopeSet>,
    pub handle: H,
}

impl<H> Keyed for SessionEntry<H> {
    open spec fn key(self) -> u64 {
        self.session_id
    }
}

struct UserEntry<H> {
    user_id: u64,
    sessions: Vec<SessionEntry<H>>,
}

impl<H> Keyed for UserEntry<H> {
    closed spec fn key(self) -> u64 {
        self.user_id
    }
}

struct RoomEntry {
    room_id: u64,
    members: Vec<u64>,
}

impl Keyed for RoomEntry {
    closed spec fn key(self) -> u64 {
        self.room_id
    }
}

impl Keyed for u64 {
    open spec fn key(self) -> u64 {
        self
    }
}

/// Allocates session identifiers that are unique within the process and
/// monotonically increasing: each call returns the counter and advances it,
/// so no two calls on the same allocator return the same id.
pub struct SessionIds {
    next: u64,
}

impl SessionIds {
    /// The id the next call will return.
    pub closed spec fn spec_next(self) -> u64 {
        self.next
    }

    /// A fresh allocator.
    pub fn new() -> (r: SessionIds)
        ensures
            r.spec_next() == 0,
    {
        SessionIds { next: 0 }
    }

    /// Returns the next session id. Every id returned is strictly smaller
    /// than the allocator's counter afterwards, so ids never repeat.
    pub fn generate(&mut self) -> (id: u64)
        requires
            old(self).spec_next() < u64::MAX,
        ensures
            id == old(self).spec_next(),
            final(self).spec_next() == old(self).spec_next() + 1,
    {
        let id = self.next;
        self.next = self.next + 1;
        id
    }
}

/// The bidirectional connection index: user id -> live sessions, and
/// room id -> online member user ids.
pub struct Registry<H> {
    users: Vec<UserEntry<H>>,
    rooms: Vec<RoomEntry>,
}

impl<H> Registry<H> {
    /// The live sessions of a user, in registration order; empty when the
    /// user is offline.
    pub closed spec fn spec_sessions(self, user_id: u64) -> Seq<SessionEntry<H>> {
        match assoc(self.users@, user_id) {
            Some(e) => e.sessions@,
            None => Seq::empty(),
        }
    }

    /// Whether the user-session index holds a key for this user.
    pub closed spec fn spec_user_online(self, user_id: u64) -> bool {
        assoc(self.users@, user_id) is Some
    }

    /// The session ids of a user's live sessions.
    pub open spec fn spec_session_ids(self, user_id: u64) -> Seq<u64> {
        keys_of(self.spec_sessions(user_id))
    }

    /// Whether this user currently has a session with this id.
    pub open spec fn spec_has_session(self, user_id: u64, session_id: u64) -> bool {
        self.spec_session_ids(user_id).contains(session_id)
    }

    /// The session of a user with the given id, if any.
    pub open spec fn spec_session(self, user_id: u64, session_id: u64) -> Option<SessionEntry<H>> {
        assoc(self.spec_sessions(user_id), session_id)
    }

    /// The online members of a room, in the order they came online; empty
    /// when the room has no online member.
    pub closed spec fn spec_members(self, room_id: u64) -> Seq<u64> {
        match assoc(self.rooms@, room_id) {
            Some(e) => e.members@,
            None => Seq::empty(),
        }
    }

    /// Whether the room-membership index holds a key for this room.
    pub closed spec fn spec_room_online(self, room_id: u64) -> bool {
        assoc(self.rooms@, room_id) is Some
    }

    /// Well-formedness: no duplicate keys on either index, no empty entries,
    /// and every session id lives under at most one user.
    pub closed spec fn wf(self) -> bool {
        &&& keys_of(self.users@).no_duplicates()
        &&& forall|i: int|
            0 <= i < self.users@.len() ==> user_entry_wf(#[trigger] self.users@[i])
        &&& forall|i: int, j: int|
            0 <= i < self.users@.len() && 0 <= j < self.users@.len() && i != j
                ==> sessions_disjoint(#[trigger] self.users@[i], #[trigger] self.users@[j])
        &&& keys_of(self.rooms@).no_duplicates()
        &&& forall|i: int|
            0 <= i < self.rooms@.len() ==> room_entry_wf(#[trigger] self.rooms@[i])
    }

    /// An empty registry: every user offline, every room without members.
    pub fn new() -> (r: Registry<H>)
        ensures
            r.wf(),
            forall|u: u64| !r.spec_user_online(u),
            forall|u: u64| r.spec_sessions(u) == Seq::<SessionEntry<H>>::empty(),
            forall|room: u64| !r.spec_room_online(room),
            forall|room: u64| r.spec_members(room) == Seq::<u64>::empty(),
    {
        Registry { users: Vec::new(), rooms: Vec::new() }
    }

    /// The position of a user's entry, scanning from the front.
    fn position_of_user(&self, user_id: u64) -> (r: Option<usize>)
        ensures
            match r {
                Some(i) => {
                    &&& i < self.users@.len()
                    &&& self.users@[i as int].user_id == user_id
                    &&& assoc(self.users@, user_id) == Some(self.users@[i as int])
                },
                None => assoc(self.users@, user_id) is None,
            },
    {
        let n = self.users.len();
        for i in 0..n
            invariant
                n == self.users@.len(),
                forall|k: int| 0 <= k < i ==> (#[trigger] self.users@[k]).user_id != user_id,
        {
            if self.users[i].user_id == user_id {
                proof {
                    lemma_assoc_at(self.users@, i as int);
                }
                return Some(i);
            }
        }
        proof {
            lemma_assoc_some(self.users@, user_id);
            if keys_of(self.users@).contains(user_id) {
                let k = choose|k: int|
                    0 <= k < keys_of(self.users@).len() && keys_of(self.users@)[k] == user_id;
                assert(self.users@[k].user_id == user_id);
            }
        }
        None
    }

    /// The position of a room's entry, scanning from the front.
    fn position_of_room(&self, room_id: u64) -> (r: Option<usize>)
        ensures
            match r {
                Some(i) => {
                    &&& i < self.rooms@.len()
                    &&& self.rooms@[i as int].room_id == room_id
                    &&& assoc(self.rooms@, room_id) == Some(self.rooms@[i as int])
                },
                None => assoc(self.rooms@, room_id) is None,
            },
    {
        let n = self.rooms.len();
        for i in 0..n
            invariant
                n == self.rooms@.len(),
                forall|k: int| 0 <= k < i ==> (#[trigger] self.rooms@[k]).room_id != room_id,
        {
            if self.rooms[i].room_id == room_id {
                proof {
                    lemma_assoc_at(self.rooms@, i as int);
                }
                return Some(i);
            }
        }
        proof {
            lemma_assoc_some(self.rooms@, room_id);
            if keys_of(self.rooms@).contains(room_id) {
                let k = choose|k: int|
                    0 <= k < keys_of(self.rooms@).len() && keys_of(self.rooms@)[k] == room_id;
                assert(self.rooms@[k].room_id == room_id);
            }
        }
        None
    }

    /// Under well-formedness every entry is found under its own key.
    proof fn wf_assoc_entries(self)
        requires
            self.wf(),
        ensures
            forall|l: int|
                0 <= l < self.users@.len() ==> assoc(
                    self.users@,
                    (#[trigger] self.users@[l]).user_id,
                ) == Some(self.users@[l]),
            forall|l: int|
                0 <= l < self.rooms@.len() ==> assoc(
                    self.rooms@,
                    (#[trigger] self.rooms@[l]).room_id,
                ) == Some(self.rooms@[l]),
    {
        assert forall|l: int| 0 <= l < self.users@.len() implies assoc(
            self.users@,
            (#[trigger] self.users@[l]).user_id,
        ) == Some(self.users@[l]) by {
            assert forall|j: int| 0 <= j < l implies (#[trigger] self.users@[j]).key()
                != self.users@[l].key() by {
                assert(keys_of(self.users@)[j] == self.users@[j].key());
                assert(keys_of(self.users@)[l] == self.users@[l].key());
            }
            lemma_assoc_at(self.users@, l);
        }
        assert forall|l: int| 0 <= l < self.rooms@.len() implies assoc(
            self.rooms@,
            (#[trigger] self.rooms@[l]).room_id,
        ) == Some(self.rooms@[l]) by {
            assert forall|j: int| 0 <= j < l implies (#[trigger] self.rooms@[j]).key()
                != self.rooms@[l].key() by {
                assert(keys_of(self.rooms@)[j] == self.rooms@[j].key());
                assert(keys_of(self.rooms@)[l] == self.rooms@[l].key());
            }
            lemma_assoc_at(self.rooms@, l);
        }
    }

    /// Inserts a session into the user-session index. Re-registering the same
    /// `(user_id, session_id)` pair — the reauthenticate handshake — replaces
    /// the granted scopes and the handle in place rather than duplicating the
    /// session. When this was the user's first session the caller is
    /// responsible for subsequently calling `sync_room_membership`; the
    /// registry does not itself query durable storage.
    ///
    /// A session id is unique within the process, so it never arrives under
    /// two different users; the second precondition records that discipline.
    pub fn register_session(
        &mut self,
        user_id: u64,
        session_id: u64,
        scopes: Option<ScopeSet>,
        handle: H,
    )
        requires
            old(self).wf(),
            forall|u2: u64| u2 != user_id ==> !old(self).spec_has_session(u2, session_id),
        ensures
            final(self).wf(),
            final(self).spec_user_online(user_id),
            final(self).spec_sessions(user_id) == upsert_keyed(
                old(self).spec_sessions(user_id),
                (SessionEntry { session_id, scopes, handle }),
            ),
            final(self).spec_session(user_id, session_id) == Some(
                (SessionEntry { session_id, scopes, handle }),
            ),
            final(self).spec_has_session(user_id, session_id),
            forall|u2: u64|
                u2 != user_id ==> final(self).spec_sessions(u2) == old(self).spec_sessions(u2),
            forall|u2: u64|
                u2 != user_id ==> final(self).spec_user_online(u2) == old(self).spec_user_online(
                    u2,
                ),
            forall|r: u64| final(self).spec_members(r) == old(self).spec_members(r),
            forall|r: u64| final(self).spec_room_online(r) == old(self).spec_room_online(r),
    {
        proof {
            old(self).wf_assoc_entries();
        }
        let ghost e_ghost = SessionEntry { session_id, scopes, handle };
        let entry = SessionEntry { session_id, scopes, handle };
        match self.position_of_user(user_id) {
            Some(i) => {
                let ghost old_users = self.users@;
                let ghost old_entry = self.users@[i as int];
                proof {
                    assert(keys_of(old_users)[i as int] == user_id);
                }
                let ue = &mut self.users[i];
                let slot = position_of_session(&ue.sessions, session_id);
                match slot {
                    Some(j) => {
                        let cell = &mut ue.sessions[j];
                        *cell = entry;
                    },
                    None => {
                        ue.sessions.push(entry);
                    },
                }
                proof {
                    let new_entry = self.users@[i as int];
                    assert(self.users@ == old_users.update(i as int, new_entry));
                    assert(new_entry.user_id == user_id);
                    // The sessions of the touched entry are exactly the upsert.
                    law_idempotent_reauthentication(old_entry.sessions@, e_ghost);
                    match slot {
                        Some(j) => {
                            lemma_upsert_at(old_entry.sessions@, e_ghost, j as int);
                        },
                        None => {
                            lemma_assoc_some(old_entry.sessions@, session_id);
                            if keys_of(old_entry.sessions@).contains(session_id) {
                                let k = choose|k: int|
                                    0 <= k < keys_of(old_entry.sessions@).len() && keys_of(
                                        old_entry.sessions@,
                                    )[k] == session_id;
                                assert(old_entry.sessions@[k].session_id == session_id);
                            }
                            lemma_upsert_absent(old_entry.sessions@, e_ghost);
                        },
                    }
                    assert(new_entry.sessions@ == upsert_keyed(old_entry.sessions@, e_ghost));
                    // Key sequence of the user index is unchanged.
                    lemma_keys_of_update(old_users, i as int, new_entry);
                    assert(keys_of(self.users@) =~= keys_of(old_users));
                    // Associations: the touched key finds the new entry, all
                    // others are untouched.
                    assert forall|j: int| 0 <= j < i as int implies (#[trigger] self.users@[j]).key()
                        != self.users@[i as int].key() by {
                        assert(keys_of(old_users)[j] == old_users[j].key());
                    }
                    lemma_assoc_at(self.users@, i as int);
                    assert forall|u2: u64| u2 != user_id implies assoc(self.users@, u2) == assoc(
                        old_users,
                        u2,
                    ) by {
                        lemma_assoc_update(old_users, i as int, new_entry, u2);
                    }
                    // Well-formedness.
                    assert(user_entry_wf(new_entry)) by {
                        assert(keys_of(new_entry.sessions@).len() > 0);
                    }
                    lemma_assoc_some(new_entry.sessions@, session_id);
                    assert forall|a: int, b: int|
                        0 <= a < self.users@.len() && 0 <= b < self.users@.len() && a
                            != b implies sessions_disjoint(
                        #[trigger] self.users@[a],
                        #[trigger] self.users@[b],
                    ) by {
                        if a != i as int && b != i as int {
                            assert(sessions_disjoint(old_users[a], old_users[b]));
                        } else if a == i as int {
                            assert(old_users[b].user_id != user_id) by {
                                assert(keys_of(old_users)[b] == old_users[b].key());
                            }
                            assert(!old(self).spec_has_session(old_users[b].user_id, session_id));
                            assert(sessions_disjoint(old_users[a], old_users[b]));
                            assert forall|sid: u64|
                                keys_of(self.users@[a].sessions@).contains(
                                    sid,
                                ) implies !keys_of(self.users@[b].sessions@).contains(sid) by {
                                if sid != session_id {
                                    assert(keys_of(old_users[a].sessions@).contains(sid));
                                }
                            }
                        } else {
                            assert(old_users[a].user_id != user_id) by {
                                assert(keys_of(old_users)[a] == old_users[a].key());
                            }
                            assert(!old(self).spec_has_session(old_users[a].user_id, session_id));
                            assert(sessions_disjoint(old_users[a], old_users[b]));
                            assert forall|sid: u64|
                                keys_of(self.users@[a].sessions@).contains(
                                    sid,
                                ) implies !keys_of(self.users@[b].sessions@).contains(sid) by {
                                assert(sid != session_id);
                            }
                        }
                    }
                }
            },
            None => {
                let ghost old_users = self.users@;
                let mut sessions: Vec<SessionEntry<H>> = Vec::new();
                sessions.push(entry);
                self.users.push(UserEntry { user_id, sessions });
                proof {
                    let new_entry = self.users@[old_users.len() as int];
                    assert(self.users@ == old_users.push(new_entry));
                    assert(new_entry.sessions@ =~= seq![e_ghost]);
                    assert(upsert_keyed(Seq::<SessionEntry<H>>::empty(), e_ghost) =~= seq![
                        e_ghost,
                    ]);
                    // Associations.
                    lemma_assoc_push(old_users, new_entry, user_id);
                    assert forall|u2: u64| u2 != user_id implies assoc(self.users@, u2) == assoc(
                        old_users,
                        u2,
                    ) by {
                        lemma_assoc_push(old_users, new_entry, u2);
                    }
                    // Well-formedness.
                    lemma_keys_of_push(old_users, new_entry);
                    lemma_assoc_some(old_users, user_id);
                    lemma_keys_push_no_dup(keys_of(old_users), user_id);
                    assert(user_entry_wf(new_entry)) by {
                        assert(keys_of(new_entry.sessions@) =~= seq![session_id]);
                    }
                    assert(keys_of(new_entry.sessions@)[0] == session_id);
                    assert forall|a: int, b: int|
                        0 <= a < self.users@.len() && 0 <= b < self.users@.len() && a
                            != b implies sessions_disjoint(
                        #[trigger] self.users@[a],
                        #[trigger] self.users@[b],
                    ) by {
                        let n = old_users.len() as int;
                        if a < n && b < n {
                            assert(sessions_disjoint(old_users[a], old_users[b]));
                        } else if a == n {
                            assert(old_users[b].user_id != user_id) by {
                                assert(keys_of(old_users)[b] == old_users[b].key());
                                lemma_assoc_some(old_users, old_users[b].user_id);
                            }
                            assert(!old(self).spec_has_session(old_users[b].user_id, session_id));
                            assert forall|sid: u64|
                                keys_of(self.users@[a].sessions@).contains(
                                    sid,
                                ) implies !keys_of(self.users@[b].sessions@).contains(sid) by {
                                assert(keys_of(new_entry.sessions@) =~= seq![session_id]);
                                assert(sid == session_id);
                            }
                        } else {
                            assert(old_users[a].user_id != user_id) by {
                                assert(keys_of(old_users)[a] == old_users[a].key());
                                lemma_assoc_some(old_users, old_users[a].user_id);
                            }
                            assert(!old(self).spec_has_session(old_users[a].user_id, session_id));
                            assert forall|sid: u64|
                                keys_of(self.users@[a].sessions@).contains(
                                    sid,
                                ) implies !keys_of(self.users@[b].sessions@).contains(sid) by {
                                assert(keys_of(new_entry.sessions@) =~= seq![session_id]);
                            }
                        }
                    }
                }
            },
        }
    }

    /// Removes one session of a user; when it was the user's last session the
    /// user's key leaves the index and the call returns `true`, so that the
    /// caller can prune the user from the room-membership index. Removing an
    /// unknown session or a session of an offline user changes nothing.
    pub fn deregister_session(&mut self, user_id: u64, session_id: u64) -> (was_last: bool)
        requires
            old(self).wf(),
        ensures
            final(self).wf(),
            final(self).spec_sessions(user_id) == remove_keyed(
                old(self).spec_sessions(user_id),
                session_id,
            ),
            !final(self).spec_has_session(user_id, session_id),
            final(self).spec_user_online(user_id) <==> final(self).spec_sessions(user_id).len()
                > 0,
            was_last == (old(self).spec_user_online(user_id) && final(self).spec_sessions(
                user_id,
            ).len() == 0),
            forall|u2: u64|
                u2 != user_id ==> final(self).spec_sessions(u2) == old(self).spec_sessions(u2),
            forall|u2: u64|
                u2 != user_id ==> final(self).spec_user_online(u2) == old(self).spec_user_online(
                    u2,
                ),
            forall|r: u64| final(self).spec_members(r) == old(self).spec_members(r),
            forall|r: u64| final(self).spec_room_online(r) == old(self).spec_room_online(r),
    {
        proof {
            old(self).wf_assoc_entries();
        }
        match self.position_of_user(user_id) {
            None => false,
            Some(i) => {
                let ghost old_users = self.users@;
                let ghost old_entry = old_users[i as int];
                proof {
                    assert(keys_of(old_users)[i as int] == user_id);
                }
                let slot = position_of_session(&self.users[i].sessions, session_id);
                match slot {
                    None => {
                        proof {
                            assert(!keys_of(old_entry.sessions@).contains(session_id)) by {
                                if keys_of(old_entry.sessions@).contains(session_id) {
                                    let k = choose|k: int|
                                        0 <= k < keys_of(old_entry.sessions@).len() && keys_of(
                                            old_entry.sessions@,
                                        )[k] == session_id;
                                    assert(old_entry.sessions@[k].session_id == session_id);
                                }
                            }
                            lemma_remove_absent(old_entry.sessions@, session_id);
                        }
                        false
                    },
                    Some(j) => {
                        if self.users[i].sessions.len() == 1 {
                            let _ = self.users.remove(i);
                            proof {
                                assert(self.users@ == old_users.remove(i as int));
                                lemma_remove_at(old_entry.sessions@, j as int);
                                assert(old_entry.sessions@.remove(0)
                                    =~= Seq::<SessionEntry<H>>::empty());
                                lemma_assoc_remove(old_users, i as int, user_id);
                                assert forall|u2: u64| u2 != user_id implies assoc(self.users@, u2)
                                    == assoc(old_users, u2) by {
                                    lemma_assoc_remove(old_users, i as int, u2);
                                }
                                lemma_keys_of_remove(old_users, i as int);
                                lemma_keys_remove(keys_of(old_users), i as int);
                                old_users.remove_ensures(i as int);
                                assert forall|a: int, b: int|
                                    0 <= a < self.users@.len() && 0 <= b < self.users@.len() && a
                                        != b implies sessions_disjoint(
                                    #[trigger] self.users@[a],
                                    #[trigger] self.users@[b],
                                ) by {
                                    let a0: int = if a < i as int {
                                        a
                                    } else {
                                        a + 1
                                    };
                                    let b0: int = if b < i as int {
                                        b
                                    } else {
                                        b + 1
                                    };
                                    assert(self.users@[a] == old_users[a0]);
                                    assert(self.users@[b] == old_users[b0]);
                                    assert(sessions_disjoint(old_users[a0], old_users[b0]));
                                }
                                assert forall|a: int|
                                    0 <= a < self.users@.len() implies user_entry_wf(
                                    #[trigger] self.users@[a],
                                ) by {
                                    let a0: int = if a < i as int {
                                        a
                                    } else {
                                        a + 1
                                    };
                                    assert(self.users@[a] == old_users[a0]);
                                }
                            }
                            true
                        } else {
                            let ue = &mut self.users[i];
                            let _ = ue.sessions.remove(j);
                            proof {
                                let new_entry = self.users@[i as int];
                                assert(self.users@ == old_users.update(i as int, new_entry));
                                assert(new_entry.user_id == user_id);
                                lemma_remove_at(old_entry.sessions@, j as int);
                                assert(new_entry.sessions@ == remove_keyed(
                                    old_entry.sessions@,
                                    session_id,
                                ));
                                lemma_keys_of_update(old_users, i as int, new_entry);
                                assert(keys_of(self.users@) =~= keys_of(old_users));
                                assert forall|l: int| 0 <= l < i as int implies (
                                #[trigger] self.users@[l]).key() != self.users@[i as int].key() by {
                                    assert(keys_of(old_users)[l] == old_users[l].key());
                                }
                                lemma_assoc_at(self.users@, i as int);
                                assert forall|u2: u64| u2 != user_id implies assoc(self.users@, u2)
                                    == assoc(old_users, u2) by {
                                    lemma_assoc_update(old_users, i as int, new_entry, u2);
                                }
                                // The touched entry stays well-formed.
                                lemma_keys_of_remove(old_entry.sessions@, j as int);
                                lemma_keys_remove(keys_of(old_entry.sessions@), j as int);
                                assert(user_entry_wf(new_entry));
                                assert(!keys_of(new_entry.sessions@).contains(session_id)) by {
                                    assert(keys_of(old_entry.sessions@)[j as int] == session_id);
                                }
                                assert forall|a: int, b: int|
                                    0 <= a < self.users@.len() && 0 <= b < self.users@.len() && a
                                        != b implies sessions_disjoint(
                                    #[trigger] self.users@[a],
                                    #[trigger] self.users@[b],
                                ) by {
                                    assert(sessions_disjoint(old_users[a], old_users[b]));
                                    assert(forall|sid: u64|
                                        keys_of(new_entry.sessions@).contains(sid) ==> keys_of(
                                            old_entry.sessions@,
                                        ).contains(sid));
                                }
                            }
                            false
                        }
                    },
                }
            },
        }
    }

    /// The close actions of a connection that was ever authenticated:
    /// deregisters the session and, when that removed the user's last
    /// session, prunes the user from every room in `rooms` — the user's
    /// memberships as durable storage lists them at close time, re-derived
    /// rather than taken from the cache, so that rooms joined after the last
    /// sync are pruned too. Other users' sessions and memberships are
    /// untouched.
    pub fn close_session(&mut self, user_id: u64, session_id: u64, rooms: &Vec<u64>) -> (was_last:
        bool)
        requires
            old(self).wf(),
        ensures
            final(self).wf(),
            final(self).spec_sessions(user_id) == remove_keyed(
                old(self).spec_sessions(user_id),
                session_id,
            ),
            !final(self).spec_has_session(user_id, session_id),
            final(self).spec_user_online(user_id) <==> final(self).spec_sessions(user_id).len()
                > 0,
            was_last == (old(self).spec_user_online(user_id) && final(self).spec_sessions(
                user_id,
            ).len() == 0),
            forall|u2: u64|
                u2 != user_id ==> final(self).spec_sessions(u2) == old(self).spec_sessions(u2),
            forall|u2: u64|
                u2 != user_id ==> final(self).spec_user_online(u2) == old(self).spec_user_online(
                    u2,
                ),
            !was_last ==> forall|r: u64| final(self).spec_members(r) == old(self).spec_members(r),
            !was_last ==> forall|r: u64|
                final(self).spec_room_online(r) == old(self).spec_room_online(r),
            was_last ==> forall|r: u64|
                rooms@.contains(r) ==> !final(self).spec_members(r).contains(user_id),
            was_last ==> forall|r: u64|
                !rooms@.contains(r) ==> final(self).spec_members(r) == old(self).spec_members(r),
            forall|r: u64, u2: u64|
                u2 != user_id ==> final(self).spec_members(r).contains(u2) == old(
                    self,
                ).spec_members(r).contains(u2),
    {
        let was_last = self.deregister_session(user_id, session_id);
        if was_last {
            let ghost mid = *self;
            let n = rooms.len();
            for idx in 0..n
                invariant
                    n == rooms@.len(),
                    self.wf(),
                    forall|u2: u64| self.spec_sessions(u2) == mid.spec_sessions(u2),
                    forall|u2: u64| self.spec_user_online(u2) == mid.spec_user_online(u2),
                    forall|m: int|
                        0 <= m < idx ==> !self.spec_members(#[trigger] rooms@[m]).contains(
                            user_id,
                        ),
                    forall|r: u64|
                        !rooms@.contains(r) ==> self.spec_members(r) == mid.spec_members(r),
                    forall|r: u64, u2: u64|
                        u2 != user_id ==> self.spec_members(r).contains(u2)
                            == mid.spec_members(r).contains(u2),
            {
                let room = rooms[idx];
                let ghost pre = *self;
                proof {
                    pre.law_ids_unique(user_id, room);
                }
                self.sync_room_membership(room, user_id, false);
                proof {
                    lemma_remove_member(pre.spec_members(room), user_id);
                    assert(!self.spec_members(room).contains(user_id));
                    assert forall|m: int|
                        0 <= m < idx + 1 implies !self.spec_members(
                        #[trigger] rooms@[m],
                    ).contains(user_id) by {
                        if m < idx && rooms@[m] != room {
                            assert(!pre.spec_members(rooms@[m]).contains(user_id));
                            assert(self.spec_members(rooms@[m]) == pre.spec_members(rooms@[m]));
                        }
                    }
                    assert forall|r: u64| !rooms@.contains(r) implies self.spec_members(r)
                        == mid.spec_members(r) by {
                        assert(rooms@[idx as int] == room);
                        assert(r != room);
                        assert(pre.spec_members(r) == mid.spec_members(r));
                        assert(self.spec_members(r) == pre.spec_members(r));
                    }
                    assert forall|r: u64, u2: u64| u2 != user_id implies self.spec_members(
                        r,
                    ).contains(u2) == mid.spec_members(r).contains(u2) by {
                        if r == room {
                            assert(self.spec_members(room).contains(u2) == pre.spec_members(
                                room,
                            ).contains(u2));
                        } else {
                            assert(self.spec_members(r) == pre.spec_members(r));
                        }
                        assert(pre.spec_members(r).contains(u2) == mid.spec_members(r).contains(
                            u2,
                        ));
                    }
                }
            }
            proof {
                assert forall|r: u64| rooms@.contains(r) implies !self.spec_members(r).contains(
                    user_id,
                ) by {
                    let m = choose|m: int| 0 <= m < rooms@.len() && #[trigger] rooms@[m] == r;
                    assert(!self.spec_members(rooms@[m]).contains(user_id));
                }
            }
        }
        was_last
    }

    /// Adds a user to a room's online-member set (`present`), or removes it
    /// (`!present`). The room's key leaves the index when its member set
    /// becomes empty; adding a member that is already listed, or removing one
    /// that is not, changes nothing.
    pub fn sync_room_membership(&mut self, room_id: u64, user_id: u64, present: bool)
        requires
            old(self).wf(),
        ensures
            final(self).wf(),
            present ==> final(self).spec_members(room_id) == (if old(self).spec_members(
                room_id,
            ).contains(user_id) {
                old(self).spec_members(room_id)
            } else {
                old(self).spec_members(room_id).push(user_id)
            }),
            !present ==> final(self).spec_members(room_id) == remove_keyed(
                old(self).spec_members(room_id),
                user_id,
            ),
            final(self).spec_room_online(room_id) <==> final(self).spec_members(room_id).len()
                > 0,
            forall|r2: u64|
                r2 != room_id ==> final(self).spec_members(r2) == old(self).spec_members(r2),
            forall|r2: u64|
                r2 != room_id ==> final(self).spec_room_online(r2) == old(self).spec_room_online(
                    r2,
                ),
            forall|u: u64| final(self).spec_sessions(u) == old(self).spec_sessions(u),
            forall|u: u64| final(self).spec_user_online(u) == old(self).spec_user_online(u),
    {
        proof {
            old(self).wf_assoc_entries();
        }
        match self.position_of_room(room_id) {
            None => {
                if present {
                    let ghost old_rooms = self.rooms@;
                    let mut members: Vec<u64> = Vec::new();
                    members.push(user_id);
                    self.rooms.push(RoomEntry { room_id, members });
                    proof {
                        let new_entry = self.rooms@[old_rooms.len() as int];
                        assert(self.rooms@ == old_rooms.push(new_entry));
                        assert(new_entry.members@ =~= Seq::<u64>::empty().push(user_id));
                        lemma_assoc_push(old_rooms, new_entry, room_id);
                        assert forall|r2: u64| r2 != room_id implies assoc(self.rooms@, r2)
                            == assoc(old_rooms, r2) by {
                            lemma_assoc_push(old_rooms, new_entry, r2);
                        }
                        lemma_keys_of_push(old_rooms, new_entry);
                        lemma_assoc_some(old_rooms, room_id);
                        lemma_keys_push_no_dup(keys_of(old_rooms), room_id);
                        assert(room_entry_wf(new_entry));
                        assert forall|a: int|
                            0 <= a < self.rooms@.len() implies room_entry_wf(
                            #[trigger] self.rooms@[a],
                        ) by {
                            if a < old_rooms.len() as int {
                                assert(self.rooms@[a] == old_rooms[a]);
                            }
                        }
                    }
                } else {
                    proof {
                        assert(remove_keyed(Seq::<u64>::empty(), user_id)
                            =~= Seq::<u64>::empty());
                    }
                }
            },
            Some(i) => {
                let ghost old_rooms = self.rooms@;
                let ghost old_entry = old_rooms[i as int];
                proof {
                    assert(keys_of(old_rooms)[i as int] == room_id);
                    assert(keys_of(old_entry.members@) =~= old_entry.members@);
                }
                let slot = position_of_member(&self.rooms[i].members, user_id);
                if present {
                    match slot {
                        Some(_) => {
                        },
                        None => {
                            let re = &mut self.rooms[i];
                            re.members.push(user_id);
                            proof {
                                let new_entry = self.rooms@[i as int];
                                assert(self.rooms@ == old_rooms.update(i as int, new_entry));
                                assert(new_entry.members@ == old_entry.members@.push(user_id));
                                lemma_keys_of_update(old_rooms, i as int, new_entry);
                                assert(keys_of(self.rooms@) =~= keys_of(old_rooms));
                                assert forall|l: int| 0 <= l < i as int implies (
                                #[trigger] self.rooms@[l]).key() != self.rooms@[i as int].key() by {
                                    assert(keys_of(old_rooms)[l] == old_rooms[l].key());
                                }
                                lemma_assoc_at(self.rooms@, i as int);
                                assert forall|r2: u64| r2 != room_id implies assoc(self.rooms@, r2)
                                    == assoc(old_rooms, r2) by {
                                    lemma_assoc_update(old_rooms, i as int, new_entry, r2);
                                }
                                lemma_keys_push_no_dup(old_entry.members@, user_id);
                                assert(room_entry_wf(new_entry));
                            }
                        },
                    }
                } else {
                    match slot {
                        None => {
                            proof {
                                assert(keys_of(old_entry.members@) =~= old_entry.members@);
                                lemma_remove_absent(old_entry.members@, user_id);
                            }
                        },
                        Some(j) => {
                            if self.rooms[i].members.len() == 1 {
                                let _ = self.rooms.remove(i);
                                proof {
                                    assert(self.rooms@ == old_rooms.remove(i as int));
                                    assert(old_entry.members@[j as int].key() == user_id);
                                    lemma_remove_at(old_entry.members@, j as int);
                                    assert(old_entry.members@.remove(0) =~= Seq::<u64>::empty());
                                    lemma_assoc_remove(old_rooms, i as int, room_id);
                                    assert forall|r2: u64| r2 != room_id implies assoc(
                                        self.rooms@,
                                        r2,
                                    ) == assoc(old_rooms, r2) by {
                                        lemma_assoc_remove(old_rooms, i as int, r2);
                                    }
                                    lemma_keys_of_remove(old_rooms, i as int);
                                    lemma_keys_remove(keys_of(old_rooms), i as int);
                                    old_rooms.remove_ensures(i as int);
                                    assert forall|a: int|
                                        0 <= a < self.rooms@.len() implies room_entry_wf(
                                        #[trigger] self.rooms@[a],
                                    ) by {
                                        let a0: int = if a < i as int {
                                            a
                                        } else {
                                            a + 1
                                        };
                                        assert(self.rooms@[a] == old_rooms[a0]);
                                    }
                                }
                            } else {
                                let re = &mut self.rooms[i];
                                let _ = re.members.remove(j);
                                proof {
                                    let new_entry = self.rooms@[i as int];
                                    assert(self.rooms@ == old_rooms.update(i as int, new_entry));
                                    assert(old_entry.members@[j as int].key() == user_id);
                                    lemma_remove_at(old_entry.members@, j as int);
                                    assert(new_entry.members@ == remove_keyed(
                                        old_entry.members@,
                                        user_id,
                                    ));
                                    lemma_keys_of_update(old_rooms, i as int, new_entry);
                                    assert(keys_of(self.rooms@) =~= keys_of(old_rooms));
                                    assert forall|l: int| 0 <= l < i as int implies (
                                    #[trigger] self.rooms@[l]).key() != self.rooms@[i
                                        as int].key() by {
                                        assert(keys_of(old_rooms)[l] == old_rooms[l].key());
                                    }
                                    lemma_assoc_at(self.rooms@, i as int);
                                    assert forall|r2: u64| r2 != room_id implies assoc(
                                        self.rooms@,
                                        r2,
                                    ) == assoc(old_rooms, r2) by {
                                        lemma_assoc_update(old_rooms, i as int, new_entry, r2);
                                    }
                                    lemma_keys_remove(old_entry.members@, j as int);
                                    assert(room_entry_wf(new_entry));
                                }
                            }
                        },
                    }
                }
            },
        }
    }

    /// Whether the user has at least one live session.
    pub fn user_online(&self, user_id: u64) -> (r: bool)
        ensures
            r == self.spec_user_online(user_id),
    {
        self.position_of_user(user_id).is_some()
    }

    /// Snapshot read of a user's live sessions; `None` when the user is
    /// offline.
    pub fn sessions_for_user(&self, user_id: u64) -> (r: Option<&Vec<SessionEntry<H>>>)
        ensures
            match r {
                Some(v) => self.spec_user_online(user_id) && v@ == self.spec_sessions(user_id),
                None => !self.spec_user_online(user_id) && self.spec_sessions(user_id)
                    == Seq::<SessionEntry<H>>::empty(),
            },
    {
        match self.position_of_user(user_id) {
            Some(i) => Some(&self.users[i].sessions),
            None => None,
        }
    }

    /// The send handle of one session of a user, if that session is live.
    pub fn session_handle(&self, user_id: u64, session_id: u64) -> (r: Option<&H>)
        ensures
            match r {
                Some(h) => {
                    &&& self.spec_session(user_id, session_id) is Some
                    &&& Some(*h) == match self.spec_session(user_id, session_id) {
                        Some(e) => Some(e.handle),
                        None => None,
                    }
                },
                None => self.spec_session(user_id, session_id) is None,
            },
    {
        match self.position_of_user(user_id) {
            None => None,
            Some(i) => {
                let sessions = &self.users[i].sessions;
                match position_of_session(sessions, session_id) {
                    None => {
                        proof {
                            lemma_assoc_some(sessions@, session_id);
                            if keys_of(sessions@).contains(session_id) {
                                let k = choose|k: int|
                                    0 <= k < keys_of(sessions@).len() && keys_of(sessions@)[k]
                                        == session_id;
                                assert(sessions@[k].session_id == session_id);
                            }
                        }
                        None
                    },
                    Some(j) => {
                        proof {
                            lemma_assoc_at(sessions@, j as int);
                        }
                        Some(&sessions[j].handle)
                    },
                }
            },
        }
    }

    /// Snapshot read of a room's online members; empty when no member of the
    /// room is online.
    pub fn members_of_room(&self, room_id: u64) -> (r: Vec<u64>)
        ensures
            r@ == self.spec_members(room_id),
    {
        match self.position_of_room(room_id) {
            Some(i) => {
                let members = &self.rooms[i].members;
                let n = members.len();
                let mut out: Vec<u64> = Vec::new();
                for k in 0..n
                    invariant
                        n == members@.len(),
                        out@ == members@.take(k as int),
                {
                    out.push(members[k]);
                    proof {
                        assert(out@ =~= members@.take(k as int + 1));
                    }
                }
                proof {
                    assert(members@.take(n as int) =~= members@);
                }
                out
            },
            None => Vec::new(),
        }
    }

    /// Under the registry invariant each user holds each session id at most
    /// once, and each room lists each member at most once.
    pub proof fn law_ids_unique(self, user_id: u64, room_id: u64)
        requires
            self.wf(),
        ensures
            self.spec_session_ids(user_id).no_duplicates(),
            self.spec_members(room_id).no_duplicates(),
    {
        if self.spec_user_online(user_id) {
            lemma_assoc_member(self.users@, user_id);
            let e = assoc(self.users@, user_id)->Some_0;
            let i = choose|i: int| 0 <= i < self.users@.len() && self.users@[i] == e;
            assert(user_entry_wf(self.users@[i]));
        }
        if self.spec_room_online(room_id) {
            lemma_assoc_member(self.rooms@, room_id);
            let e = assoc(self.rooms@, room_id)->Some_0;
            let i = choose|i: int| 0 <= i < self.rooms@.len() && self.rooms@[i] == e;
            assert(room_entry_wf(self.rooms@[i]));
        }
    }

    /// A session id appears in the user-session index under at most one user
    /// id at any time.
    pub proof fn law_session_under_one_user(self, u1: u64, u2: u64, session_id: u64)
        requires
            self.wf(),
            u1 != u2,
            self.spec_has_session(u1, session_id),
        ensures
            !self.spec_has_session(u2, session_id),
    {
        if self.spec_user_online(u2) {
            lemma_assoc_member(self.users@, u1);
            lemma_assoc_member(self.users@, u2);
            let e1 = assoc(self.users@, u1)->Some_0;
            let e2 = assoc(self.users@, u2)->Some_0;
            let i1 = choose|i: int| 0 <= i < self.users@.len() && self.users@[i] == e1;
            let i2 = choose|i: int| 0 <= i < self.users@.len() && self.users@[i] == e2;
            assert(i1 != i2);
            assert(sessions_disjoint(self.users@[i1], self.users@[i2]));
        }
    }

    /// A user id key exists in the user-session index iff the user has at
    /// least one live session; a room id key exists in the room-membership
    /// index iff the room has at least one online member.
    pub proof fn law_no_empty_entries(self, user_id: u64, room_id: u64)
        requires
            self.wf(),
        ensures
            self.spec_user_online(user_id) <==> self.spec_sessions(user_id).len() > 0,
            self.spec_room_online(room_id) <==> self.spec_members(room_id).len() > 0,
    {
        if self.spec_user_online(user_id) {
            lemma_assoc_member(self.users@, user_id);
        }
        if self.spec_room_online(room_id) {
            lemma_assoc_member(self.rooms@, room_id);
        }
    }
}

/// A user entry is never empty and holds each session id once.
spec fn user_entry_wf<H>(e: UserEntry<H>) -> bool {
    &&& e.sessions@.len() > 0
    &&& keys_of(e.sessions@).no_duplicates()
}

/// No session id is shared between two user entries.
spec fn sessions_disjoint<H>(a: UserEntry<H>, b: UserEntry<H>) -> bool {
    forall|s: u64| keys_of(a.sessions@).contains(s) ==> !keys_of(b.sessions@).contains(s)
}

/// A room entry is never empty and lists each member once.
spec fn room_entry_wf(e: RoomEntry) -> bool {
    &&& e.members@.len() > 0
    &&& e.members@.no_duplicates()
}

/// The position of a session in a session list, scanning from the front.
fn position_of_session<H>(sessions: &Vec<SessionEntry<H>>, session_id: u64) -> (r: Option<usize>)
    ensures
        match r {
            Some(j) => {
                &&& j < sessions@.len()
                &&& sessions@[j as int].session_id == session_id
                &&& forall|k: int|
                    0 <= k < j ==> (#[trigger] sessions@[k]).session_id != session_id
            },
            None => forall|k: int|
                0 <= k < sessions@.len() ==> (#[trigger] sessions@[k]).session_id != session_id,
        },
{
    let n = sessions.len();
    for j in 0..n
        invariant
            n == sessions@.len(),
            forall|k: int| 0 <= k < j ==> (#[trigger] sessions@[k]).session_id != session_id,
    {
        if sessions[j].session_id == session_id {
            return Some(j);
        }
    }
    None
}

/// The position of a member in a member list, scanning from the front.
fn position_of_member(members: &Vec<u64>, user_id: u64) -> (r: Option<usize>)
    ensures
        match r {
            Some(j) => {
                &&& j < members@.len()
                &&& members@[j as int] == user_id
                &&& forall|k: int| 0 <= k < j ==> members@[k] != user_id
            },
            None => !members@.contains(user_id),
        },
{
    let n = members.len();
    for j in 0..n
        invariant
            n == members@.len(),
            forall|k: int| 0 <= k < j ==> members@[k] != user_id,
    {
        if members[j] == user_id {
            return Some(j);
        }
    }
    None
}

/// The entry that `assoc` finds is one of the sequence's entries.
pub proof fn lemma_assoc_member<T: Keyed>(s: Seq<T>, k: u64)
    requires
        assoc(s, k) is Some,
    ensures
        s.contains(assoc(s, k) -> Some_0),
        (assoc(s, k) -> Some_0).key() == k,
    decreases s.len(),
{
    if s.len() > 0 && s[0].key() != k {
        lemma_assoc_member(s.drop_first(), k);
        let e = assoc(s, k) -> Some_0;
        let i = choose|i: int| 0 <= i < s.drop_first().len() && s.drop_first()[i] == e;
        assert(s[i + 1] == e);
    }
}

} // verus!
