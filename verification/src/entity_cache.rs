//! Session-long cache of peer credentials and of the session's own
//! identity.

use vstd::prelude::*;
use std::collections::HashMap;
use crate::peer::Peer;

verus! {

/// The protocol shape needed to address a peer in an outbound
/// request: the numeric identifier plus, for users and channels, the
/// access-hash credential. Basic groups need no credential.
#[derive(Clone, Copy, PartialEq, Eq, Debug)]
pub enum InputPeer {
    User { user_id: i32, access_hash: i64 },
    Chat { chat_id: i32 },
    Channel { channel_id: i32, access_hash: i64 },
}

/// The abstract state of an [`EntityCache`]: the two credential
/// mappings, kept separate by peer kind, and the once-set self
/// identity.
pub struct CacheView {
    pub users: Map<i32, i64>,
    pub channels: Map<i32, i64>,
    pub self_id: Option<i32>,
    pub self_bot: bool,
}

/// In-memory entity cache, mapping peers to their respective access
/// hashes, plus the identity of the account the session belongs to.
///
/// Users and channels are addressable only once an access hash has
/// been recorded for them; basic groups are always addressable. The
/// two identifier spaces are kept apart: a user and a channel with
/// the same numeric identifier never interfere.
pub struct EntityCache {
    users: HashMap<i32, i64>,
    channels: HashMap<i32, i64>,
    self_id: Option<i32>,
    self_bot: bool,
}

impl View for EntityCache {
    type V = CacheView;

    closed spec fn view(&self) -> CacheView {
        CacheView {
            users: self.users@,
            channels: self.channels@,
            self_id: self.self_id,
            self_bot: self.self_bot,
        }
    }
}

/// Whether a cache in state `v` holds enough to address `peer`: users
/// and channels need a recorded access hash, basic groups never do.
pub open spec fn spec_contains(v: CacheView, peer: Peer) -> bool {
    match peer {
        Peer::User(id) => v.users.contains_key(id),
        Peer::Chat(_) => true,
        Peer::Channel(id) => v.channels.contains_key(id),
    }
}

/// The addressable handle a cache in state `v` can produce for
/// `peer`: the identifier paired with the recorded access hash for
/// users and channels, the bare identifier for basic groups, and
/// nothing when the needed hash was never recorded.
pub open spec fn spec_get_input(v: CacheView, peer: Peer) -> Option<InputPeer> {
    match peer {
        Peer::User(id) => if v.users.contains_key(id) {
            Some(InputPeer::User { user_id: id, access_hash: v.users[id] })
        } else {
            None
        },
        Peer::Chat(id) => Some(InputPeer::Chat { chat_id: id }),
        Peer::Channel(id) => if v.channels.contains_key(id) {
            Some(InputPeer::Channel { channel_id: id, access_hash: v.channels[id] })
        } else {
            None
        },
    }
}

/// The state after an attempt to establish the self identity: the
/// first attempt records it, any later attempt changes nothing.
pub open spec fn spec_set_self(v: CacheView, id: i32, bot: bool) -> CacheView {
    if v.self_id is None {
        CacheView { self_id: Some(id), self_bot: bot, ..v }
    } else {
        v
    }
}

impl EntityCache {
    /// Create an empty cache: no credentials, no self identity, and
    /// the bot flag at its default of `false`.
    pub fn new() -> (cache: Self)
        ensures
            cache@.users == Map::<i32, i64>::empty(),
            cache@.channels == Map::<i32, i64>::empty(),
            cache@.self_id is None,
            cache@.self_bot == false,
    {
        Self {
            users: HashMap::new(),
            channels: HashMap::new(),
            self_id: None,
            self_bot: false,
        }
    }

    /// The identifier of the account this session belongs to.
    ///
    /// Callers must have established the self identity first: asking
    /// before then is a bug in the calling sequence, not a data
    /// condition, and the precondition rules it out.
    pub fn self_id(&self) -> (id: i32)
        requires
            self@.self_id is Some,
        ensures
            self@.self_id == Some(id),
    {
        self.self_id.expect("tried to query self_id before it's known")
    }

    /// Whether this session's account is a bot; `false` until the
    /// self identity says otherwise. Safe to ask at any time, by
    /// design asymmetric with [`Self::self_id`].
    pub fn is_self_bot(&self) -> (bot: bool)
        ensures
            bot == self@.self_bot,
    {
        self.self_bot
    }

    /// Record the session's own identity. The first call sets it; the
    /// identity never changes afterwards, so any later call leaves
    /// the cache exactly as it was.
    pub fn set_self(&mut self, id: i32, bot: bool)
        ensures
            final(self)@ == spec_set_self(old(self)@, id, bot),
    {
        if self.self_id.is_none() {
            self.self_id = Some(id);
            self.self_bot = bot;
        }
    }

    /// Record the access hash observed for a user, overwriting any
    /// hash recorded for that user before. The channel credentials
    /// and the self identity are untouched.
    pub fn put_user(&mut self, user_id: i32, access_hash: i64)
        ensures
            final(self)@.users == old(self)@.users.insert(user_id, access_hash),
            final(self)@.channels == old(self)@.channels,
            final(self)@.self_id == old(self)@.self_id,
            final(self)@.self_bot == old(self)@.self_bot,
    {
        self.users.insert(user_id, access_hash);
    }

    /// Record the access hash observed for a channel, overwriting any
    /// hash recorded for that channel before. The user credentials
    /// and the self identity are untouched.
    pub fn put_channel(&mut self, channel_id: i32, access_hash: i64)
        ensures
            final(self)@.channels == old(self)@.channels.insert(channel_id, access_hash),
            final(self)@.users == old(self)@.users,
            final(self)@.self_id == old(self)@.self_id,
            final(self)@.self_bot == old(self)@.self_bot,
    {
        self.channels.insert(channel_id, access_hash);
    }

    /// Whether the cache already holds enough to address `peer`.
    pub fn contains(&self, peer: Peer) -> (present: bool)
        ensures
            present == spec_contains(self@, peer),
    {
        match peer {
            Peer::User(id) => self.users.contains_key(&id),
            Peer::Chat(_) => true,
            Peer::Channel(id) => self.channels.contains_key(&id),
        }
    }

    /// Build the addressable handle for `peer`, if the cache can:
    /// `None` exactly when `peer` is a user or channel whose access
    /// hash was never recorded.
    pub fn get_input(&self, peer: Peer) -> (input: Option<InputPeer>)
        ensures
            input == spec_get_input(self@, peer),
    {
        match peer {
            Peer::User(id) => match self.users.get(&id) {
                Some(hash) => Some(InputPeer::User { user_id: id, access_hash: *hash }),
                None => None,
            },
            Peer::Chat(id) => Some(InputPeer::Chat { chat_id: id }),
            Peer::Channel(id) => match self.channels.get(&id) {
                Some(hash) => Some(InputPeer::Channel { channel_id: id, access_hash: *hash }),
                None => None,
            },
        }
    }
}

/// Recording a user credential never changes whether, or how, a
/// channel with the same numeric identifier can be addressed: the two
/// identifier spaces never collide.
pub proof fn lemma_user_channel_separate(pre: CacheView, post: CacheView, id: i32, access_hash: i64)
    requires
        post == (CacheView { users: pre.users.insert(id, access_hash), ..pre }),
    ensures
        spec_contains(post, Peer::Channel(id)) == spec_contains(pre, Peer::Channel(id)),
        spec_get_input(post, Peer::Channel(id)) == spec_get_input(pre, Peer::Channel(id)),
{
}

/// Recording a channel credential never changes whether, or how, a
/// user with the same numeric identifier can be addressed.
pub proof fn lemma_channel_user_separate(pre: CacheView, post: CacheView, id: i32, access_hash: i64)
    requires
        post == (CacheView { channels: pre.channels.insert(id, access_hash), ..pre }),
    ensures
        spec_contains(post, Peer::User(id)) == spec_contains(pre, Peer::User(id)),
        spec_get_input(post, Peer::User(id)) == spec_get_input(pre, Peer::User(id)),
{
}

/// The self identity is write-once: the first attempt to set it
/// sticks, and whatever a second attempt carries, it changes nothing.
pub proof fn lemma_self_identity_stable(v: CacheView, id1: i32, bot1: bool, id2: i32, bot2: bool)
    requires
        v.self_id is None,
    ensures
        spec_set_self(v, id1, bot1).self_id == Some(id1),
        spec_set_self(v, id1, bot1).self_bot == bot1,
        spec_set_self(spec_set_self(v, id1, bot1), id2, bot2) == spec_set_self(v, id1, bot1),
{
}

} // verus!
