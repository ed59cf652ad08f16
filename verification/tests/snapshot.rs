use entity_set::entity::{Chat, ChannelInfo, ChatInfo, Entity, User, UserInfo};
use entity_set::entity_set::EntitySet;
use entity_set::peer::Peer;

#[test]
fn build_finds_real_records() {
    let users = vec![
        User::User(UserInfo { id: 1, access_hash: Some(10) }),
        User::Empty(2),
    ];
    let chats = vec![
        Chat::Chat(ChatInfo { id: 3 }),
        Chat::Channel(ChannelInfo { id: 4, access_hash: Some(40) }),
        Chat::Empty(5),
        Chat::Forbidden(6),
        Chat::ChannelForbidden(7),
    ];
    let set = EntitySet::new(users, chats);
    assert_eq!(
        set.get(&Peer::User(1)),
        Some(&Entity::User(UserInfo { id: 1, access_hash: Some(10) })),
    );
    assert_eq!(set.get(&Peer::Chat(3)), Some(&Entity::Chat(ChatInfo { id: 3 })));
    assert_eq!(
        set.get(&Peer::Channel(4)),
        Some(&Entity::Channel(ChannelInfo { id: 4, access_hash: Some(40) })),
    );
}

#[test]
fn build_drops_placeholders() {
    let users = vec![User::Empty(2)];
    let chats = vec![Chat::Empty(5), Chat::Forbidden(6), Chat::ChannelForbidden(7)];
    let set = EntitySet::new(users, chats);
    assert_eq!(set.get(&Peer::User(2)), None);
    assert_eq!(set.get(&Peer::Chat(5)), None);
    assert_eq!(set.get(&Peer::Chat(6)), None);
    assert_eq!(set.get(&Peer::Channel(7)), None);
}

#[test]
fn empty_set_is_always_absent() {
    let set = EntitySet::empty();
    assert_eq!(set.get(&Peer::User(0)), None);
    assert_eq!(set.get(&Peer::User(7)), None);
    assert_eq!(set.get(&Peer::Chat(7)), None);
    assert_eq!(set.get(&Peer::Channel(-7)), None);
    assert_eq!(set.get(&Peer::User(i32::MIN)), None);
    assert_eq!(set.get(&Peer::Channel(i32::MAX)), None);
}

#[test]
fn build_with_empty_lists_is_absent() {
    let set = EntitySet::new(Vec::new(), Vec::new());
    assert_eq!(set.get(&Peer::User(1)), None);
    assert_eq!(set.get(&Peer::Chat(1)), None);
    assert_eq!(set.get(&Peer::Channel(1)), None);
}

#[test]
fn equal_ids_of_different_kinds_do_not_collide() {
    let users = vec![User::User(UserInfo { id: 7, access_hash: Some(70) })];
    let chats = vec![Chat::Channel(ChannelInfo { id: 7, access_hash: Some(71) })];
    let set = EntitySet::new(users, chats);
    assert_eq!(
        set.get(&Peer::User(7)),
        Some(&Entity::User(UserInfo { id: 7, access_hash: Some(70) })),
    );
    assert_eq!(
        set.get(&Peer::Channel(7)),
        Some(&Entity::Channel(ChannelInfo { id: 7, access_hash: Some(71) })),
    );
    assert_eq!(set.get(&Peer::Chat(7)), None);
}

#[test]
fn duplicate_user_later_record_wins() {
    let users = vec![
        User::User(UserInfo { id: 7, access_hash: Some(1) }),
        User::User(UserInfo { id: 7, access_hash: Some(2) }),
    ];
    let set = EntitySet::new(users, Vec::new());
    assert_eq!(
        set.get(&Peer::User(7)),
        Some(&Entity::User(UserInfo { id: 7, access_hash: Some(2) })),
    );
}

#[test]
fn duplicate_chat_later_record_wins() {
    let chats = vec![
        Chat::Channel(ChannelInfo { id: 9, access_hash: Some(1) }),
        Chat::Chat(ChatInfo { id: 9 }),
        Chat::Channel(ChannelInfo { id: 9, access_hash: Some(2) }),
    ];
    let set = EntitySet::new(Vec::new(), chats);
    assert_eq!(
        set.get(&Peer::Channel(9)),
        Some(&Entity::Channel(ChannelInfo { id: 9, access_hash: Some(2) })),
    );
    assert_eq!(set.get(&Peer::Chat(9)), Some(&Entity::Chat(ChatInfo { id: 9 })));
}

#[test]
fn later_placeholder_does_not_erase_earlier_record() {
    let users = vec![
        User::User(UserInfo { id: 5, access_hash: None }),
        User::Empty(5),
    ];
    let set = EntitySet::new(users, Vec::new());
    assert_eq!(
        set.get(&Peer::User(5)),
        Some(&Entity::User(UserInfo { id: 5, access_hash: None })),
    );
}
