//! Raw records delivered alongside a response, and the entity values a
//! snapshot hands back.

use vstd::prelude::*;
use crate::peer::{Peer, PeerKey};

verus! {

/// The data a real user record carries that this crate reads: the
/// numeric identifier and the access-hash credential, when the server
/// attached one.
#[derive(Clone, Copy, PartialEq, Eq, Debug)]
pub struct UserInfo {
    pub id: i32,
    pub access_hash: Option<i64>,
}

/// The data a real basic-group record carries that this crate reads.
/// Basic groups have no access hash.
#[derive(Clone, Copy, PartialEq, Eq, Debug)]
pub struct ChatInfo {
    pub id: i32,
}

/// The data a real channel record carries that this crate reads.
#[derive(Clone, Copy, PartialEq, Eq, Debug)]
pub struct ChannelInfo {
    pub id: i32,
    pub access_hash: Option<i64>,
}

/// A raw user record as received from the protocol: either a real
/// record, or the placeholder the server sends when it has no data
/// for that identifier.
#[derive(Clone, Copy, PartialEq, Eq, Debug)]
pub enum User {
    User(UserInfo),
    Empty(i32),
}

/// A raw chat record as received from the protocol. Basic groups and
/// channels arrive mixed in one list, together with empty and
/// forbidden placeholders that carry no usable entity data.
#[derive(Clone, Copy, PartialEq, Eq, Debug)]
pub enum Chat {
    Empty(i32),
    Chat(ChatInfo),
    Forbidden(i32),
    Channel(ChannelInfo),
    ChannelForbidden(i32),
}

/// The full data record for a peer, as a snapshot stores and returns
/// it: one of the three real record shapes.
#[derive(Clone, Copy, PartialEq, Eq, Debug)]
pub enum Entity {
    User(UserInfo),
    Chat(ChatInfo),
    Channel(ChannelInfo),
}

impl Entity {
    /// The peer reference this entity answers to.
    pub open spec fn spec_peer(self) -> Peer {
        match self {
            Entity::User(info) => Peer::User(info.id),
            Entity::Chat(info) => Peer::Chat(info.id),
            Entity::Channel(info) => Peer::Channel(info.id),
        }
    }

    /// The key this entity is stored under.
    pub open spec fn key(self) -> PeerKey {
        PeerKey::spec_from_peer(self.spec_peer())
    }

    /// Return the peer reference this entity answers to.
    pub fn peer(&self) -> (peer: Peer)
        ensures
            peer == self.spec_peer(),
    {
        match *self {
            Entity::User(info) => Peer::User(info.id),
            Entity::Chat(info) => Peer::Chat(info.id),
            Entity::Channel(info) => Peer::Channel(info.id),
        }
    }
}

/// The entity a raw user record contributes: its data if it is real,
/// nothing if it is the empty placeholder.
pub open spec fn user_entity(user: User) -> Option<Entity> {
    match user {
        User::User(info) => Some(Entity::User(info)),
        User::Empty(_) => None,
    }
}

/// The entity a raw chat record contributes: basic-group or channel
/// data if it is real, nothing for the empty and forbidden
/// placeholders, whose partial contents this crate discards.
pub open spec fn chat_entity(chat: Chat) -> Option<Entity> {
    match chat {
        Chat::Chat(info) => Some(Entity::Chat(info)),
        Chat::Channel(info) => Some(Entity::Channel(info)),
        Chat::Empty(_) => None,
        Chat::Forbidden(_) => None,
        Chat::ChannelForbidden(_) => None,
    }
}

} // verus!
