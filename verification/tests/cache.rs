use entity_set::entity_cache::{EntityCache, InputPeer};
use entity_set::peer::Peer;

#[test]
fn basic_groups_are_always_addressable() {
    let cache = EntityCache::new();
    assert!(cache.contains(Peer::Chat(42)));
    assert!(!cache.contains(Peer::User(42)));
    assert!(!cache.contains(Peer::Channel(42)));
    assert_eq!(cache.get_input(Peer::Chat(42)), Some(InputPeer::Chat { chat_id: 42 }));
}

#[test]
fn user_addressable_once_hash_recorded() {
    let mut cache = EntityCache::new();
    assert!(!cache.contains(Peer::User(42)));
    assert_eq!(cache.get_input(Peer::User(42)), None);
    cache.put_user(42, 4242);
    assert!(cache.contains(Peer::User(42)));
    assert_eq!(
        cache.get_input(Peer::User(42)),
        Some(InputPeer::User { user_id: 42, access_hash: 4242 }),
    );
}

#[test]
fn handle_carries_recorded_id_and_hash_exactly() {
    let mut cache = EntityCache::new();
    cache.put_user(9, 1234);
    assert_eq!(
        cache.get_input(Peer::User(9)),
        Some(InputPeer::User { user_id: 9, access_hash: 1234 }),
    );
}

#[test]
fn channel_addressable_once_hash_recorded() {
    let mut cache = EntityCache::new();
    assert_eq!(cache.get_input(Peer::Channel(8)), None);
    cache.put_channel(8, 99);
    assert!(cache.contains(Peer::Channel(8)));
    assert_eq!(
        cache.get_input(Peer::Channel(8)),
        Some(InputPeer::Channel { channel_id: 8, access_hash: 99 }),
    );
}

#[test]
fn later_hash_overwrites_earlier_one() {
    let mut cache = EntityCache::new();
    cache.put_user(9, 1);
    cache.put_user(9, 2);
    assert_eq!(
        cache.get_input(Peer::User(9)),
        Some(InputPeer::User { user_id: 9, access_hash: 2 }),
    );
}

#[test]
fn kinds_never_collide_in_the_cache() {
    let mut cache = EntityCache::new();
    cache.put_user(7, 1);
    assert!(!cache.contains(Peer::Channel(7)));
    assert_eq!(cache.get_input(Peer::Channel(7)), None);
    cache.put_channel(7, 2);
    assert_eq!(
        cache.get_input(Peer::User(7)),
        Some(InputPeer::User { user_id: 7, access_hash: 1 }),
    );
    assert_eq!(
        cache.get_input(Peer::Channel(7)),
        Some(InputPeer::Channel { channel_id: 7, access_hash: 2 }),
    );
}

#[test]
fn self_identity_is_write_once() {
    let mut cache = EntityCache::new();
    assert!(!cache.is_self_bot());
    cache.set_self(11, true);
    assert_eq!(cache.self_id(), 11);
    assert!(cache.is_self_bot());
    cache.set_self(22, false);
    assert_eq!(cache.self_id(), 11);
    assert!(cache.is_self_bot());
    assert_eq!(cache.self_id(), 11);
}
