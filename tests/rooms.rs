use modmail::codename::generate_codename;
use modmail::error::Error;
use modmail::ids::{ChannelId, UserId};
use modmail::ids::{decimal, parse_decimal};
use modmail::rooms::{RawRoom, Room, RoomStore};

fn store_with_two() -> RoomStore {
    let mut store = RoomStore::new();
    Room::new(&mut store, "brave otter".to_string(), ChannelId(10), UserId(100)).unwrap();
    Room::new(&mut store, "calm heron".to_string(), ChannelId(20), UserId(200)).unwrap();
    store
}

#[test]
fn rooms_are_found_by_each_key() {
    let store = store_with_two();
    let a = Room::get_by_codename(&store, "brave otter").unwrap();
    assert_eq!(a.channel_id, ChannelId(10));
    assert_eq!(a.user_id, UserId(100));
    assert_eq!(a.room_id, 1);
    let b = Room::get_by_channel(&store, ChannelId(20)).unwrap();
    assert_eq!(b.codename, "calm heron");
    assert_eq!(b.room_id, 2);
    let c = Room::get_by_user(&store, UserId(200)).unwrap();
    assert_eq!(c.codename, "calm heron");
    assert!(Room::get_by_codename(&store, "Brave otter").is_none());
    assert!(Room::get_by_channel(&store, ChannelId(30)).is_none());
    assert!(Room::get_by_user(&store, UserId(300)).is_none());
    assert!(store.exists_by_codename("brave otter"));
    assert!(!store.exists_by_codename("brave"));
}

#[test]
fn second_room_for_same_user_is_refused() {
    let mut store = store_with_two();
    let r = Room::new(&mut store, "quiet finch".to_string(), ChannelId(30), UserId(100));
    assert!(matches!(r, Err(Error::Internal(_))));
    assert_eq!(store.len(), 2);
    assert!(!store.exists_by_codename("quiet finch"));
}

#[test]
fn duplicate_codename_or_channel_is_refused() {
    let mut store = store_with_two();
    let r = Room::new(&mut store, "brave otter".to_string(), ChannelId(30), UserId(300));
    assert!(matches!(r, Err(Error::Internal(_))));
    let r = Room::new(&mut store, "quiet finch".to_string(), ChannelId(10), UserId(300));
    assert!(matches!(r, Err(Error::Internal(_))));
    assert_eq!(store.len(), 2);
}

#[test]
fn deleting_twice_is_a_no_op() {
    let mut store = store_with_two();
    let a = Room::get_by_codename(&store, "brave otter").unwrap();
    let again = a.clone();
    a.delete(&mut store);
    assert_eq!(store.len(), 1);
    again.delete(&mut store);
    assert_eq!(store.len(), 1);
    assert!(Room::get_by_codename(&store, "calm heron").is_some());
    assert!(Room::get_by_codename(&store, "brave otter").is_none());
}

#[test]
fn identifiers_are_not_reused_after_delete() {
    let mut store = store_with_two();
    store.delete(2);
    let r = Room::new(&mut store, "calm heron".to_string(), ChannelId(20), UserId(200)).unwrap();
    assert_eq!(r.room_id, 3);
}

#[test]
fn generated_codenames_stay_unique() {
    let mut store = RoomStore::new();
    for i in 0..50u64 {
        let name = generate_codename(&store);
        assert!(!store.exists_by_codename(&name));
        let words: Vec<&str> = name.split(' ').collect();
        assert_eq!(words.len(), 2);
        assert!(!words[0].is_empty() && !words[1].is_empty());
        Room::new(&mut store, name, ChannelId(1000 + i), UserId(2000 + i)).unwrap();
    }
    assert_eq!(store.len(), 50);
    for i in 0..store.len() {
        for j in 0..store.len() {
            if i != j {
                assert_ne!(store.room_at(i).codename, store.room_at(j).codename);
            }
        }
    }
}

fn raw(channel: &str, user: &str) -> RawRoom {
    RawRoom { room_id: 4, codename: "brave otter".to_string(), channel_id: channel.to_string(), user_id: user.to_string() }
}

#[test]
fn stored_rooms_are_read_back() {
    let room = Room::try_from(raw("10", "100")).unwrap();
    assert_eq!(room.room_id, 4);
    assert_eq!(room.codename, "brave otter");
    assert_eq!(room.channel_id, ChannelId(10));
    assert_eq!(room.user_id, UserId(100));
    assert!(Room::try_from(raw("ten", "100")).is_none());
    assert!(Room::try_from(raw("10", "")).is_none());
    assert!(Room::try_from(raw("10", "18446744073709551616")).is_none());
}

#[test]
fn decimal_text_is_parsed_exactly() {
    assert_eq!(parse_decimal("0"), Some(0));
    assert_eq!(parse_decimal("007"), Some(7));
    assert_eq!(parse_decimal("123456789"), Some(123456789));
    assert_eq!(parse_decimal("18446744073709551615"), Some(u64::MAX));
    assert_eq!(parse_decimal("18446744073709551616"), None);
    assert_eq!(parse_decimal("99999999999999999999"), None);
    assert_eq!(parse_decimal(""), None);
    assert_eq!(parse_decimal("-1"), None);
    assert_eq!(parse_decimal("+1"), Some(1));
    assert_eq!(parse_decimal("+007"), Some(7));
    assert_eq!(parse_decimal("+"), None);
    assert_eq!(parse_decimal("++1"), None);
    assert_eq!(parse_decimal("1+"), None);
    assert_eq!(parse_decimal("+18446744073709551616"), None);
    assert_eq!(parse_decimal("1 2"), None);
    for n in [0u64, 9, 10, 456, 987654321, u64::MAX] {
        assert_eq!(parse_decimal(&decimal(n)), Some(n));
    }
}

#[test]
fn stored_plus_signed_ids_are_read_back() {
    let room = Room::try_from(raw("+10", "+100")).unwrap();
    assert_eq!(room.channel_id, ChannelId(10));
    assert_eq!(room.user_id, UserId(100));
    assert!(Room::try_from(raw("+", "100")).is_none());
    assert!(Room::try_from(raw("10", "-100")).is_none());
}

#[test]
fn restored_rooms_keep_their_identifiers() {
    let mut store = RoomStore::new();
    store.restore(Room::try_from(raw("10", "100")).unwrap()).unwrap();
    let mut second = Room::try_from(raw("20", "200")).unwrap();
    second.room_id = 2;
    second.codename = "calm heron".to_string();
    store.restore(second).unwrap();
    assert_eq!(Room::get_by_user(&store, UserId(100)).unwrap().room_id, 4);
    assert_eq!(Room::get_by_user(&store, UserId(200)).unwrap().room_id, 2);
    let next = Room::new(&mut store, "quiet finch".to_string(), ChannelId(30), UserId(300)).unwrap();
    assert_eq!(next.room_id, 5);
    let mut clash = Room::try_from(raw("40", "400")).unwrap();
    clash.codename = "other".to_string();
    assert!(matches!(store.restore(clash), Err(Error::Internal(_))));
    let mut zero = Room::try_from(raw("50", "500")).unwrap();
    zero.room_id = 0;
    zero.codename = "zero".to_string();
    assert!(matches!(store.restore(zero), Err(Error::Internal(_))));
    assert_eq!(store.len(), 3);
}
