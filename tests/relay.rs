use modmail::commands::{response, Command, Grant, OptionValue, Outcome, Permissions};
use modmail::config::{Blockrole, Config, Inbox};
use modmail::error::Error;
use modmail::ids::{ChannelId, GuildId, RoleId, UserId};
use modmail::rooms::{Room, RoomStore};
use modmail::{Bot, InboundMessage, Route};

const ME: UserId = UserId(1);

fn bot() -> Bot {
    Bot::new(Config::new(), RoomStore::new(), GuildId(9))
}

fn dm(author: u64, content: &str) -> InboundMessage {
    InboundMessage { author: UserId(author), channel: ChannelId(5000 + author), private: true, content: content.to_string() }
}

fn staff(channel: u64, content: &str) -> InboundMessage {
    InboundMessage { author: UserId(77), channel: ChannelId(channel), private: false, content: content.to_string() }
}

fn admin() -> Permissions {
    Permissions { manage_roles: true, manage_channels: true }
}

fn cmd(name: &str, sub: &str, value: OptionValue, permissions: Permissions) -> Command {
    Command { name: name.to_string(), subcommand: sub.to_string(), value, permissions }
}

fn text(s: &str) -> OptionValue {
    OptionValue::Text(s.to_string())
}

fn reply_of(r: Result<Outcome, Error>) -> String {
    match r {
        Ok(Outcome::Reply(m)) => m,
        _ => panic!("expected a reply"),
    }
}

fn user_error_of<T>(r: Result<T, Error>) -> String {
    match r {
        Err(Error::User(m)) => m,
        _ => panic!("expected a user error"),
    }
}

/// Opens a room for `author` under a configured inbox, as the transport would.
fn open_room(bot: &mut Bot, author: u64, thread: u64) -> String {
    match bot.handle_message(&dm(author, "hello"), ME) {
        Route::OpenRoom { codename, .. } => {
            bot.room_opened(codename.clone(), ChannelId(thread), UserId(author)).unwrap();
            codename
        }
        _ => panic!("expected a new room"),
    }
}

#[test]
fn own_messages_are_ignored() {
    let mut b = bot();
    b.config.set(Inbox, ChannelId(42));
    assert!(matches!(b.handle_message(&dm(1, "echo"), ME), Route::Ignore));
}

#[test]
fn message_without_room_or_inbox_is_dropped() {
    let b = bot();
    assert!(matches!(b.handle_message(&dm(10, "hi"), ME), Route::Ignore));
    assert_eq!(b.rooms.len(), 0);
}

#[test]
fn message_with_inbox_opens_exactly_one_room() {
    let mut b = bot();
    b.config.set(Inbox, ChannelId(42));
    let route = b.handle_message(&dm(10, "hi *there*"), ME);
    let (codename, content) = match route {
        Route::OpenRoom { inbox, codename, content } => {
            assert_eq!(inbox, ChannelId(42));
            (codename, content)
        }
        _ => panic!("expected a new room"),
    };
    assert_eq!(content, "hi \\*there\\*");
    assert!(!b.rooms.exists_by_codename(&codename));
    let reply = b.room_opened(codename.clone(), ChannelId(600), UserId(10)).unwrap();
    assert_eq!(reply, format!("You've been assigned the codename `{}`.", codename));
    assert_eq!(b.rooms.len(), 1);
    let room = Room::get_by_user(&b.rooms, UserId(10)).unwrap();
    assert_eq!(room.codename, codename);
    assert_eq!(room.channel_id, ChannelId(600));
}

#[test]
fn second_message_goes_to_existing_room() {
    let mut b = bot();
    b.config.set(Inbox, ChannelId(42));
    open_room(&mut b, 10, 600);
    match b.handle_message(&dm(10, "again_"), ME) {
        Route::ToChannel { channel, content } => {
            assert_eq!(channel, ChannelId(600));
            assert_eq!(content, "again\\_");
        }
        _ => panic!("expected forwarding"),
    }
    assert_eq!(b.rooms.len(), 1);
}

#[test]
fn racing_first_messages_open_one_room() {
    let mut b = bot();
    b.config.set(Inbox, ChannelId(42));
    let first = b.handle_message(&dm(10, "a"), ME);
    let second = b.handle_message(&dm(10, "b"), ME);
    let (c1, c2) = match (first, second) {
        (Route::OpenRoom { codename: c1, .. }, Route::OpenRoom { codename: c2, .. }) => (c1, c2),
        _ => panic!("expected two room openings"),
    };
    assert!(b.room_opened(c1, ChannelId(600), UserId(10)).is_ok());
    let r = b.room_opened(c2, ChannelId(601), UserId(10));
    assert!(matches!(r, Err(Error::Internal(_))));
    assert_eq!(b.rooms.len(), 1);
}

#[test]
fn blocked_user_gets_notice_only() {
    let mut b = bot();
    b.config.set(Inbox, ChannelId(42));
    b.config.set(Blockrole, RoleId(3));
    assert!(matches!(b.handle_message(&dm(10, "hi"), ME), Route::CheckBlocked(RoleId(3))));
    match b.after_block_check(&dm(10, "hi"), true) {
        Route::Reply(t) => assert_eq!(t, "You have been blocked by a server admin."),
        _ => panic!("expected the notice"),
    }
    assert!(matches!(b.after_block_check(&dm(10, "hi"), false), Route::OpenRoom { .. }));
    assert_eq!(b.rooms.len(), 0);
}

#[test]
fn staff_message_goes_to_user() {
    let mut b = bot();
    b.config.set(Inbox, ChannelId(42));
    open_room(&mut b, 10, 600);
    match b.handle_message(&staff(600, "hello `user`"), ME) {
        Route::ToUser { user, content } => {
            assert_eq!(user, UserId(10));
            assert_eq!(content, "hello \\`user\\`");
        }
        _ => panic!("expected forwarding"),
    }
}

#[test]
fn message_in_unknown_channel_is_ignored() {
    let mut b = bot();
    b.config.set(Inbox, ChannelId(42));
    open_room(&mut b, 10, 600);
    assert!(matches!(b.handle_message(&staff(601, "chatter"), ME), Route::Ignore));
    assert_eq!(b.rooms.len(), 1);
}

#[test]
fn channel_deletion_forgets_room_once() {
    let mut b = bot();
    b.config.set(Inbox, ChannelId(42));
    open_room(&mut b, 10, 600);
    open_room(&mut b, 11, 601);
    b.thread_delete(ChannelId(600));
    assert_eq!(b.rooms.len(), 1);
    b.thread_delete(ChannelId(600));
    assert_eq!(b.rooms.len(), 1);
    assert!(Room::get_by_user(&b.rooms, UserId(11)).is_some());
}

#[test]
fn blockrole_set_and_unset() {
    let mut b = bot();
    let r = b.execute_command(&cmd("blockrole", "set", OptionValue::Role { id: RoleId(3), name: "muted".to_string() }, admin()));
    assert_eq!(reply_of(r), "Set block role to `muted`.");
    assert_eq!(b.config.get(Blockrole), Some(RoleId(3)));
    let r = b.execute_command(&cmd("blockrole", "unset", OptionValue::Missing, admin()));
    assert_eq!(reply_of(r), "Unset block role.");
    assert_eq!(b.config.get(Blockrole), None);
}

#[test]
fn inbox_set_and_unset() {
    let mut b = bot();
    let r = b.execute_command(&cmd("inbox", "set", OptionValue::Channel(ChannelId(456)), admin()));
    assert_eq!(reply_of(r), "Set inbox to <#456>.");
    assert_eq!(b.config.get(Inbox), Some(ChannelId(456)));
    let r = b.execute_command(&cmd("inbox", "unset", OptionValue::Missing, admin()));
    assert_eq!(reply_of(r), "Unset inbox.");
    assert_eq!(b.config.get(Inbox), None);
}

#[test]
fn missing_permissions_change_nothing() {
    let mut b = bot();
    let none = Permissions { manage_roles: false, manage_channels: false };
    let r = b.execute_command(&cmd("blockrole", "set", OptionValue::Role { id: RoleId(3), name: "x".to_string() }, none));
    assert_eq!(user_error_of(r), "You don't have `Manage Roles` permission.");
    let r = b.execute_command(&cmd("inbox", "set", OptionValue::Channel(ChannelId(4)), none));
    assert_eq!(user_error_of(r), "You don't have `Manage Channels` permission.");
    let r = b.execute_command(&cmd("block", "", text("x"), none));
    assert_eq!(user_error_of(r), "You don't have `Manage Roles` permission.");
    let r = b.execute_command(&cmd("close", "", text("x"), none));
    assert_eq!(user_error_of(r), "You don't have `Manage Channels` permission.");
    assert_eq!(b.config.get(Blockrole), None);
    assert_eq!(b.config.get(Inbox), None);
}

#[test]
fn close_unknown_codename_is_user_error() {
    let mut b = bot();
    b.config.set(Inbox, ChannelId(42));
    open_room(&mut b, 10, 600);
    let r = b.execute_command(&cmd("close", "", text("ghost"), admin()));
    assert_eq!(user_error_of(r), "No thread with codename `ghost` found.");
    assert_eq!(b.rooms.len(), 1);
}

#[test]
fn close_forgets_room_and_archives() {
    let mut b = bot();
    b.config.set(Inbox, ChannelId(42));
    let codename = open_room(&mut b, 10, 600);
    match b.execute_command(&cmd("close", "", text(&codename), admin())) {
        Ok(Outcome::Archive { channel, reply }) => {
            assert_eq!(channel, ChannelId(600));
            assert_eq!(reply, format!("Archived `{}` and removed attached user.", codename));
        }
        _ => panic!("expected archive"),
    }
    assert_eq!(b.rooms.len(), 0);
    b.thread_delete(ChannelId(600));
    assert_eq!(b.rooms.len(), 0);
}

#[test]
fn block_without_block_role_is_user_error() {
    let mut b = bot();
    b.config.set(Inbox, ChannelId(42));
    let codename = open_room(&mut b, 10, 600);
    let r = b.execute_command(&cmd("block", "", text(&codename), admin()));
    assert_eq!(user_error_of(r), "There's no block role defined.");
    assert_eq!(b.rooms.len(), 1);
}

#[test]
fn block_asks_to_grant_role() {
    let mut b = bot();
    b.config.set(Inbox, ChannelId(42));
    let codename = open_room(&mut b, 10, 600);
    b.config.set(Blockrole, RoleId(3));
    match b.execute_command(&cmd("block", "", text(&codename), admin())) {
        Ok(Outcome::GrantRole { user, role, codename: c }) => {
            assert_eq!(user, UserId(10));
            assert_eq!(role, RoleId(3));
            assert_eq!(c, codename);
        }
        _ => panic!("expected a grant"),
    }
    let r = b.execute_command(&cmd("block", "", text("ghost"), admin()));
    assert_eq!(user_error_of(r), "No thread with codename `ghost` found.");
    assert_eq!(Bot::block_finished("brave otter", Grant::Granted).unwrap(), "Blocked `brave otter`.");
    assert_eq!(
        user_error_of(Bot::block_finished("brave otter", Grant::NotMember)),
        "User is not a member or the server is unavailable."
    );
    assert_eq!(
        user_error_of(Bot::block_finished("brave otter", Grant::Refused)),
        "Missing permissions or configured block role is invalid."
    );
}

#[test]
fn unknown_commands_are_reported() {
    let mut b = bot();
    match b.execute_command(&cmd("purge", "", OptionValue::Missing, admin())) {
        Err(Error::UnknownCommand(m)) => assert_eq!(m, "purge"),
        _ => panic!("expected unknown command"),
    }
    match b.execute_command(&cmd("inbox", "list", OptionValue::Missing, admin())) {
        Err(Error::UnknownCommand(m)) => assert_eq!(m, "inbox list"),
        _ => panic!("expected unknown command"),
    }
}

#[test]
fn wrong_option_value_is_internal() {
    let mut b = bot();
    let r = b.execute_command(&cmd("inbox", "set", text("nope"), admin()));
    assert!(matches!(r, Err(Error::Internal(_))));
    assert_eq!(b.config.get(Inbox), None);
}

#[test]
fn responses_show_the_right_text() {
    assert_eq!(response(&Ok("done".to_string())), (true, "done".to_string()));
    assert_eq!(response(&Err(Error::User("bad".to_string()))), (false, "bad".to_string()));
    assert_eq!(
        response(&Err(Error::Internal("disk".to_string()))),
        (false, "There was an error processing your command.".to_string())
    );
    assert_eq!(
        response(&Err(Error::UnknownCommand("x".to_string()))),
        (false, "You sent an unimplemented command. Please file an issue.".to_string())
    );
}
