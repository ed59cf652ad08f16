//! Peer references and the normalized key derived from them.

use vstd::prelude::*;

verus! {

/// A lightweight reference to a chat participant as the protocol
/// delivers it: a user, a basic group, or a channel, carrying only a
/// numeric identifier.
#[derive(Clone, Copy, PartialEq, Eq, Debug)]
pub enum Peer {
    User(i32),
    Chat(i32),
    Channel(i32),
}

/// Hashable peer key: the normalized identifier under which both the
/// snapshot and the credential cache index their storage.
///
/// Equality distinguishes the three peer kinds even when the numeric
/// identifiers coincide: `PeerKey::User(5)` and `PeerKey::Channel(5)`
/// are distinct keys.
#[derive(Clone, Copy, PartialEq, Eq, Hash, Debug)]
pub enum PeerKey {
    User(i32),
    Chat(i32),
    Channel(i32),
}

impl PeerKey {
    /// The key a raw peer reference normalizes to: the same kind and
    /// the same numeric identifier. Total: every peer has a key.
    pub open spec fn spec_from_peer(peer: Peer) -> PeerKey {
        match peer {
            Peer::User(id) => PeerKey::User(id),
            Peer::Chat(id) => PeerKey::Chat(id),
            Peer::Channel(id) => PeerKey::Channel(id),
        }
    }

    /// Derive the key for a raw peer reference.
    pub fn from_peer(peer: &Peer) -> (key: PeerKey)
        ensures
            key == PeerKey::spec_from_peer(*peer),
    {
        match *peer {
            Peer::User(id) => PeerKey::User(id),
            Peer::Chat(id) => PeerKey::Chat(id),
            Peer::Channel(id) => PeerKey::Channel(id),
        }
    }
}

/// The numeric identifier of a key, shifted into `0 ..= u32::MAX`.
pub open spec fn spec_id_offset(id: i32) -> int {
    id - i32::MIN
}

/// A code that identifies a key uniquely: the peer kind selects one of
/// three disjoint ranges and the shifted identifier picks the point
/// inside it. Injective, so a hash table keyed by the code never
/// conflates two distinct keys.
pub open spec fn spec_encode(key: PeerKey) -> u64 {
    match key {
        PeerKey::User(id) => spec_id_offset(id) as u64,
        PeerKey::Chat(id) => (0x1_0000_0000 + spec_id_offset(id)) as u64,
        PeerKey::Channel(id) => (0x2_0000_0000 + spec_id_offset(id)) as u64,
    }
}

/// Two keys with the same code are the same key: the encoding loses
/// neither the kind nor the identifier.
pub proof fn lemma_encode_injective(k1: PeerKey, k2: PeerKey)
    ensures
        spec_encode(k1) == spec_encode(k2) ==> k1 == k2,
{
}

/// Compute the code of a key.
pub(crate) fn encode(key: &PeerKey) -> (code: u64)
    ensures
        code == spec_encode(*key),
{
    match *key {
        PeerKey::User(id) => id_offset(id),
        PeerKey::Chat(id) => 0x1_0000_0000u64 + id_offset(id),
        PeerKey::Channel(id) => 0x2_0000_0000u64 + id_offset(id),
    }
}

fn id_offset(id: i32) -> (offset: u64)
    ensures
        offset == spec_id_offset(id),
{
    (id as i64 - i32::MIN as i64) as u64
}

} // verus!
