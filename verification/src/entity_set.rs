//! Immutable snapshot of the entities carried alongside one response.

use vstd::prelude::*;
use std::collections::HashMap;
use std::sync::Arc;
use crate::entity::{chat_entity, user_entity, Chat, ChatInfo, ChannelInfo, Entity, User, UserInfo};
use crate::peer::{encode, lemma_encode_injective, spec_encode, Peer, PeerKey};

verus! {

/// The snapshot contents after folding `users` into `m` in input
/// order: every real record is inserted under its own key, so a later
/// record with the same key overwrites an earlier one, and the empty
/// placeholders add nothing.
pub open spec fn insert_users(m: Map<PeerKey, Entity>, users: Seq<User>) -> Map<PeerKey, Entity>
    decreases users.len(),
{
    if users.len() == 0 {
        m
    } else {
        let rest = insert_users(m, users.drop_last());
        match user_entity(users.last()) {
            Some(entity) => rest.insert(entity.key(), entity),
            None => rest,
        }
    }
}

/// The snapshot contents after folding `chats` into `m` in input
/// order, exactly as [`insert_users`] folds user records.
pub open spec fn insert_chats(m: Map<PeerKey, Entity>, chats: Seq<Chat>) -> Map<PeerKey, Entity>
    decreases chats.len(),
{
    if chats.len() == 0 {
        m
    } else {
        let rest = insert_chats(m, chats.drop_last());
        match chat_entity(chats.last()) {
            Some(entity) => rest.insert(entity.key(), entity),
            None => rest,
        }
    }
}

/// Everything a snapshot built from `users` and `chats` holds: the
/// surviving user records first, then the surviving chat records,
/// each keyed by its own peer, later records overwriting earlier
/// ones. User records only ever occupy user keys and chat records
/// only chat and channel keys, so the two lists cannot shadow each
/// other.
pub open spec fn snapshot_of(users: Seq<User>, chats: Seq<Chat>) -> Map<PeerKey, Entity> {
    insert_chats(insert_users(Map::empty(), users), chats)
}

/// The peer-keyed mapping a code-keyed hash table represents.
spec fn abstraction(m: Map<u64, Entity>) -> Map<PeerKey, Entity> {
    Map::new(
        |k: PeerKey| m.contains_key(spec_encode(k)),
        |k: PeerKey| m[spec_encode(k)],
    )
}

/// Helper structure to efficiently retrieve entities via their peer.
///
/// Responses include the entities related to them as loose lists of
/// users and chats. This structure saves those separate lists in a
/// single keyed store and answers queries by peer in expected
/// constant time.
///
/// Its view is the mapping from peer key to stored entity; it never
/// changes after construction.
pub struct EntitySet {
    map: HashMap<u64, Entity>,
}

impl View for EntitySet {
    type V = Map<PeerKey, Entity>;

    closed spec fn view(&self) -> Map<PeerKey, Entity> {
        abstraction(self.map@)
    }
}

/// Inserting one entity under its encoded key refines inserting it
/// under the key itself: the encoding is injective, so no other key
/// is disturbed.
proof fn lemma_abstraction_insert(m: Map<u64, Entity>, key: PeerKey, entity: Entity)
    ensures
        abstraction(m.insert(spec_encode(key), entity)) == abstraction(m).insert(key, entity),
{
    assert forall|k: PeerKey| k != key implies spec_encode(k) != spec_encode(key) by {
        lemma_encode_injective(k, key);
    }
    assert(abstraction(m.insert(spec_encode(key), entity)) =~= abstraction(m).insert(key, entity));
}

impl EntitySet {
    /// Create a new entity set holding every surviving record of the
    /// two lists, the placeholder records dropped, and a later record
    /// overwriting an earlier one with the same key.
    pub fn new(users: Vec<User>, chats: Vec<Chat>) -> (set: Arc<Self>)
        ensures
            set@ == snapshot_of(users@, chats@),
    {
        let mut map: HashMap<u64, Entity> = HashMap::new();
        proof {
            assert(abstraction(map@) =~= insert_users(Map::empty(), users@.take(0)));
        }
        for i in 0..users.len()
            invariant
                abstraction(map@) == insert_users(Map::empty(), users@.take(i as int)),
        {
            let ghost prev = map@;
            match users[i] {
                User::User(info) => {
                    let entity = Entity::User(info);
                    let key = PeerKey::from_peer(&entity.peer());
                    let code = encode(&key);
                    map.insert(code, entity);
                    proof {
                        lemma_abstraction_insert(prev, key, entity);
                    }
                }
                User::Empty(_) => {}
            }
            proof {
                let taken = users@.take(i as int + 1);
                assert(taken.drop_last() =~= users@.take(i as int));
                assert(taken.last() == users@[i as int]);
                assert(abstraction(map@) == insert_users(Map::empty(), taken));
            }
        }
        proof {
            assert(users@.take(users@.len() as int) =~= users@);
        }
        let ghost after_users = insert_users(Map::empty(), users@);
        for i in 0..chats.len()
            invariant
                abstraction(map@) == insert_chats(after_users, chats@.take(i as int)),
                after_users == insert_users(Map::empty(), users@),
        {
            let ghost prev = map@;
            match chats[i] {
                Chat::Chat(info) => {
                    let entity = Entity::Chat(info);
                    let key = PeerKey::from_peer(&entity.peer());
                    let code = encode(&key);
                    map.insert(code, entity);
                    proof {
                        lemma_abstraction_insert(prev, key, entity);
                    }
                }
                Chat::Channel(info) => {
                    let entity = Entity::Channel(info);
                    let key = PeerKey::from_peer(&entity.peer());
                    let code = encode(&key);
                    map.insert(code, entity);
                    proof {
                        lemma_abstraction_insert(prev, key, entity);
                    }
                }
                Chat::Empty(_) => {}
                Chat::Forbidden(_) => {}
                Chat::ChannelForbidden(_) => {}
            }
            proof {
                let taken = chats@.take(i as int + 1);
                assert(taken.drop_last() =~= chats@.take(i as int));
                assert(taken.last() == chats@[i as int]);
                assert(abstraction(map@) == insert_chats(after_users, taken));
            }
        }
        proof {
            assert(chats@.take(chats@.len() as int) =~= chats@);
        }
        Arc::new(Self { map })
    }

    /// Create a new empty entity set: every lookup on it is absent.
    pub fn empty() -> (set: Arc<Self>)
        ensures
            set@ == Map::<PeerKey, Entity>::empty(),
    {
        let map: HashMap<u64, Entity> = HashMap::new();
        proof {
            assert(abstraction(map@) =~= Map::<PeerKey, Entity>::empty());
        }
        Arc::new(Self { map })
    }

    /// Retrieve the full [`Entity`] object given its peer: the entity
    /// stored under the peer's key, or `None` exactly when the
    /// snapshot holds no entity for that key.
    pub fn get(&self, peer: &Peer) -> (entity: Option<&Entity>)
        ensures
            entity matches Some(found) ==> self@.contains_key(PeerKey::spec_from_peer(*peer))
                && *found == self@[PeerKey::spec_from_peer(*peer)],
            entity is None ==> !self@.contains_key(PeerKey::spec_from_peer(*peer)),
    {
        let key = PeerKey::from_peer(peer);
        let code = encode(&key);
        self.map.get(&code)
    }
}

/// An empty snapshot answers every lookup with absent.
pub proof fn lemma_empty_lookup_absent(set: EntitySet, key: PeerKey)
    requires
        set@ == Map::<PeerKey, Entity>::empty(),
    ensures
        !set@.contains_key(key),
{
}

/// Folding user records into `m` touches no key that none of their
/// surviving entities carries.
proof fn lemma_insert_users_preserves(m: Map<PeerKey, Entity>, users: Seq<User>, key: PeerKey)
    requires
        forall|j: int| 0 <= j < users.len()
            ==> ((#[trigger] user_entity(users[j])) matches Some(entity) ==> entity.key() != key),
    ensures
        insert_users(m, users).contains_key(key) == m.contains_key(key),
        m.contains_key(key) ==> insert_users(m, users)[key] == m[key],
    decreases users.len(),
{
    if users.len() > 0 {
        assert forall|j: int| 0 <= j < users.drop_last().len()
            implies ((#[trigger] user_entity(users.drop_last()[j])) matches Some(entity)
                ==> entity.key() != key) by {
            assert(users.drop_last()[j] == users[j]);
        }
        lemma_insert_users_preserves(m, users.drop_last(), key);
        assert(user_entity(users[users.len() - 1]) == user_entity(users.last()));
    }
}

/// Folding chat records into `m` touches no key that none of their
/// surviving entities carries.
proof fn lemma_insert_chats_preserves(m: Map<PeerKey, Entity>, chats: Seq<Chat>, key: PeerKey)
    requires
        forall|j: int| 0 <= j < chats.len()
            ==> ((#[trigger] chat_entity(chats[j])) matches Some(entity) ==> entity.key() != key),
    ensures
        insert_chats(m, chats).contains_key(key) == m.contains_key(key),
        m.contains_key(key) ==> insert_chats(m, chats)[key] == m[key],
    decreases chats.len(),
{
    if chats.len() > 0 {
        assert forall|j: int| 0 <= j < chats.drop_last().len()
            implies ((#[trigger] chat_entity(chats.drop_last()[j])) matches Some(entity)
                ==> entity.key() != key) by {
            assert(chats.drop_last()[j] == chats[j]);
        }
        lemma_insert_chats_preserves(m, chats.drop_last(), key);
        assert(chat_entity(chats[chats.len() - 1]) == chat_entity(chats.last()));
    }
}

/// A real user record that no later user record shadows ends up in
/// the fold under its peer's key, unchanged.
proof fn lemma_insert_users_finds(m: Map<PeerKey, Entity>, users: Seq<User>, i: int, info: UserInfo)
    requires
        0 <= i < users.len(),
        users[i] == User::User(info),
        forall|j: int| i < j < users.len()
            ==> ((#[trigger] users[j]) matches User::User(later) ==> later.id != info.id),
    ensures
        insert_users(m, users).contains_key(PeerKey::User(info.id)),
        insert_users(m, users)[PeerKey::User(info.id)] == Entity::User(info),
    decreases users.len(),
{
    assert(users[users.len() - 1] == users.last());
    if i == users.len() - 1 {
    } else {
        assert forall|j: int| i < j < users.drop_last().len()
            implies ((#[trigger] users.drop_last()[j]) matches User::User(later)
                ==> later.id != info.id) by {
            assert(users.drop_last()[j] == users[j]);
        }
        assert(users.drop_last()[i] == users[i]);
        lemma_insert_users_finds(m, users.drop_last(), i, info);
    }
}

/// A real basic-group record that no later basic-group record shadows
/// ends up in the fold under its peer's key, unchanged. A channel
/// record with the same numeric identifier lives under a different
/// key and shadows nothing here.
proof fn lemma_insert_chats_finds_chat(m: Map<PeerKey, Entity>, chats: Seq<Chat>, i: int, info: ChatInfo)
    requires
        0 <= i < chats.len(),
        chats[i] == Chat::Chat(info),
        forall|j: int| i < j < chats.len()
            ==> ((#[trigger] chats[j]) matches Chat::Chat(later) ==> later.id != info.id),
    ensures
        insert_chats(m, chats).contains_key(PeerKey::Chat(info.id)),
        insert_chats(m, chats)[PeerKey::Chat(info.id)] == Entity::Chat(info),
    decreases chats.len(),
{
    assert(chats[chats.len() - 1] == chats.last());
    if i == chats.len() - 1 {
    } else {
        assert forall|j: int| i < j < chats.drop_last().len()
            implies ((#[trigger] chats.drop_last()[j]) matches Chat::Chat(later)
                ==> later.id != info.id) by {
            assert(chats.drop_last()[j] == chats[j]);
        }
        assert(chats.drop_last()[i] == chats[i]);
        lemma_insert_chats_finds_chat(m, chats.drop_last(), i, info);
    }
}

/// A real channel record that no later channel record shadows ends up
/// in the fold under its peer's key, unchanged.
proof fn lemma_insert_chats_finds_channel(m: Map<PeerKey, Entity>, chats: Seq<Chat>, i: int, info: ChannelInfo)
    requires
        0 <= i < chats.len(),
        chats[i] == Chat::Channel(info),
        forall|j: int| i < j < chats.len()
            ==> ((#[trigger] chats[j]) matches Chat::Channel(later) ==> later.id != info.id),
    ensures
        insert_chats(m, chats).contains_key(PeerKey::Channel(info.id)),
        insert_chats(m, chats)[PeerKey::Channel(info.id)] == Entity::Channel(info),
    decreases chats.len(),
{
    assert(chats[chats.len() - 1] == chats.last());
    if i == chats.len() - 1 {
    } else {
        assert forall|j: int| i < j < chats.drop_last().len()
            implies ((#[trigger] chats.drop_last()[j]) matches Chat::Channel(later)
                ==> later.id != info.id) by {
            assert(chats.drop_last()[j] == chats[j]);
        }
        assert(chats.drop_last()[i] == chats[i]);
        lemma_insert_chats_finds_channel(m, chats.drop_last(), i, info);
    }
}

/// After a build, a real user record is found under its peer's key,
/// unchanged — provided no later user record carries the same
/// identifier, in which case that later record wins instead.
pub proof fn lemma_build_finds_user(users: Seq<User>, chats: Seq<Chat>, i: int, info: UserInfo)
    requires
        0 <= i < users.len(),
        users[i] == User::User(info),
        forall|j: int| i < j < users.len()
            ==> ((#[trigger] users[j]) matches User::User(later) ==> later.id != info.id),
    ensures
        snapshot_of(users, chats).contains_key(PeerKey::User(info.id)),
        snapshot_of(users, chats)[PeerKey::User(info.id)] == Entity::User(info),
{
    lemma_insert_users_finds(Map::empty(), users, i, info);
    assert forall|j: int| 0 <= j < chats.len()
        implies ((#[trigger] chat_entity(chats[j])) matches Some(entity)
            ==> entity.key() != PeerKey::User(info.id)) by {}
    lemma_insert_chats_preserves(insert_users(Map::empty(), users), chats, PeerKey::User(info.id));
}

/// After a build, a real basic-group record is found under its peer's
/// key, unchanged — provided no later basic-group record carries the
/// same identifier.
pub proof fn lemma_build_finds_chat(users: Seq<User>, chats: Seq<Chat>, i: int, info: ChatInfo)
    requires
        0 <= i < chats.len(),
        chats[i] == Chat::Chat(info),
        forall|j: int| i < j < chats.len()
            ==> ((#[trigger] chats[j]) matches Chat::Chat(later) ==> later.id != info.id),
    ensures
        snapshot_of(users, chats).contains_key(PeerKey::Chat(info.id)),
        snapshot_of(users, chats)[PeerKey::Chat(info.id)] == Entity::Chat(info),
{
    lemma_insert_chats_finds_chat(insert_users(Map::empty(), users), chats, i, info);
}

/// After a build, a real channel record is found under its peer's
/// key, unchanged — provided no later channel record carries the same
/// identifier.
pub proof fn lemma_build_finds_channel(users: Seq<User>, chats: Seq<Chat>, i: int, info: ChannelInfo)
    requires
        0 <= i < chats.len(),
        chats[i] == Chat::Channel(info),
        forall|j: int| i < j < chats.len()
            ==> ((#[trigger] chats[j]) matches Chat::Channel(later) ==> later.id != info.id),
    ensures
        snapshot_of(users, chats).contains_key(PeerKey::Channel(info.id)),
        snapshot_of(users, chats)[PeerKey::Channel(info.id)] == Entity::Channel(info),
{
    lemma_insert_chats_finds_channel(insert_users(Map::empty(), users), chats, i, info);
}

/// A user identifier no real user record carries — in particular one
/// that only empty placeholders mention — is absent from the
/// snapshot, whatever the chat list holds.
pub proof fn lemma_build_absent_user(users: Seq<User>, chats: Seq<Chat>, id: i32)
    requires
        forall|j: int| 0 <= j < users.len()
            ==> ((#[trigger] users[j]) matches User::User(info) ==> info.id != id),
    ensures
        !snapshot_of(users, chats).contains_key(PeerKey::User(id)),
{
    assert forall|j: int| 0 <= j < users.len()
        implies ((#[trigger] user_entity(users[j])) matches Some(entity)
            ==> entity.key() != PeerKey::User(id)) by {
        assert(users[j] matches User::User(info) ==> info.id != id);
    }
    lemma_insert_users_preserves(Map::empty(), users, PeerKey::User(id));
    assert forall|j: int| 0 <= j < chats.len()
        implies ((#[trigger] chat_entity(chats[j])) matches Some(entity)
            ==> entity.key() != PeerKey::User(id)) by {}
    lemma_insert_chats_preserves(insert_users(Map::empty(), users), chats, PeerKey::User(id));
}

/// A basic-group identifier no real basic-group record carries — in
/// particular one that only empty or forbidden placeholders mention —
/// is absent from the snapshot, whatever the user list holds.
pub proof fn lemma_build_absent_chat(users: Seq<User>, chats: Seq<Chat>, id: i32)
    requires
        forall|j: int| 0 <= j < chats.len()
            ==> ((#[trigger] chats[j]) matches Chat::Chat(info) ==> info.id != id),
    ensures
        !snapshot_of(users, chats).contains_key(PeerKey::Chat(id)),
{
    assert forall|j: int| 0 <= j < users.len()
        implies ((#[trigger] user_entity(users[j])) matches Some(entity)
            ==> entity.key() != PeerKey::Chat(id)) by {}
    lemma_insert_users_preserves(Map::empty(), users, PeerKey::Chat(id));
    assert forall|j: int| 0 <= j < chats.len()
        implies ((#[trigger] chat_entity(chats[j])) matches Some(entity)
            ==> entity.key() != PeerKey::Chat(id)) by {
        assert(chats[j] matches Chat::Chat(info) ==> info.id != id);
    }
    lemma_insert_chats_preserves(insert_users(Map::empty(), users), chats, PeerKey::Chat(id));
}

/// A channel identifier no real channel record carries — in
/// particular one that only forbidden placeholders mention — is
/// absent from the snapshot, whatever the user list holds. A user
/// record with the same numeric identifier lives under a different
/// key and makes no difference.
pub proof fn lemma_build_absent_channel(users: Seq<User>, chats: Seq<Chat>, id: i32)
    requires
        forall|j: int| 0 <= j < chats.len()
            ==> ((#[trigger] chats[j]) matches Chat::Channel(info) ==> info.id != id),
    ensures
        !snapshot_of(users, chats).contains_key(PeerKey::Channel(id)),
{
    assert forall|j: int| 0 <= j < users.len()
        implies ((#[trigger] user_entity(users[j])) matches Some(entity)
            ==> entity.key() != PeerKey::Channel(id)) by {}
    lemma_insert_users_preserves(Map::empty(), users, PeerKey::Channel(id));
    assert forall|j: int| 0 <= j < chats.len()
        implies ((#[trigger] chat_entity(chats[j])) matches Some(entity)
            ==> entity.key() != PeerKey::Channel(id)) by {
        assert(chats[j] matches Chat::Channel(info) ==> info.id != id);
    }
    lemma_insert_chats_preserves(insert_users(Map::empty(), users), chats, PeerKey::Channel(id));
}

} // verus!
