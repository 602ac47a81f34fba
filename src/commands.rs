//! Administrative commands: each checks the invoker's permission, then reads
//! and changes the settings and the rooms, and says what the transport should
//! do and reply.
use vstd::prelude::*;

use crate::config::{lookup, Blockrole, Inbox};
use crate::error::{Error, Result};
use crate::ids::{decimal, decimal_spec, ChannelId, RoleId, UserId};
use crate::rooms::{without_id, Room};
use crate::text::{join, quote, quoted, text_is};
use crate::Bot;

verus! {

/// The capabilities the invoker holds.
#[derive(Clone, Copy, Debug, PartialEq, Eq, Structural)]
pub struct Permissions {
    pub manage_roles: bool,
    pub manage_channels: bool,
}

/// The value the invoker supplied with a command.
pub enum OptionValue {
    Role { id: RoleId, name: String },
    Channel(ChannelId),
    Text(String),
    Missing,
}

/// A command as the transport delivered it. `subcommand` is empty for a
/// command that has none.
pub struct Command {
    pub name: String,
    pub subcommand: String,
    pub value: OptionValue,
    pub permissions: Permissions,
}

/// What the transport should do after a command that succeeded.
pub enum Outcome {
    /// Reply to the invoker with this text.
    Reply(String),
    /// Grant `role` to `user`, then hand the result to `block_finished`.
    GrantRole { user: UserId, role: RoleId, codename: String },
    /// Archive `channel` if it can (a failure is ignored), then reply with
    /// `reply`. The room is already forgotten.
    Archive { channel: ChannelId, reply: String },
}

/// How granting the block role went.
#[derive(Clone, Copy, Debug, PartialEq, Eq, Structural)]
pub enum Grant {
    Granted,
    /// The user is not a member, or the workspace could not be reached.
    NotMember,
    /// The relay may not grant the role, or the role is no longer valid.
    Refused,
}

pub open spec fn no_manage_roles_text() -> Seq<char> {
    quoted("You don't have "@, "Manage Roles"@, " permission."@)
}

pub open spec fn no_manage_channels_text() -> Seq<char> {
    quoted("You don't have "@, "Manage Channels"@, " permission."@)
}

pub open spec fn no_block_role_text() -> Seq<char> {
    "There's no block role defined."@
}

pub open spec fn no_room_text(codename: Seq<char>) -> Seq<char> {
    quoted("No thread with codename "@, codename, " found."@)
}

pub open spec fn set_blockrole_text(role_name: Seq<char>) -> Seq<char> {
    quoted("Set block role to "@, role_name, "."@)
}

pub open spec fn set_inbox_text(channel: ChannelId) -> Seq<char> {
    "Set inbox to <#"@ + decimal_spec(channel.0 as nat) + ">."@
}

pub open spec fn blocked_text(codename: Seq<char>) -> Seq<char> {
    quoted("Blocked "@, codename, "."@)
}

pub open spec fn closed_text(codename: Seq<char>) -> Seq<char> {
    quoted("Archived "@, codename, " and removed attached user."@)
}

pub open spec fn not_member_text() -> Seq<char> {
    "User is not a member or the server is unavailable."@
}

pub open spec fn refused_text() -> Seq<char> {
    "Missing permissions or configured block role is invalid."@
}

pub open spec fn is_user_error<T>(r: Result<T>, text: Seq<char>) -> bool {
    r matches Err(Error::User(m)) && m@ == text
}

pub open spec fn is_reply(r: Result<Outcome>, text: Seq<char>) -> bool {
    r matches Ok(Outcome::Reply(m)) && m@ == text
}

pub open spec fn is_internal<T>(r: Result<T>) -> bool {
    r matches Err(Error::Internal(_))
}

/// Whether the relay's state is the same before and after.
pub open spec fn unchanged(before: Bot, after: Bot) -> bool {
    after.config@ == before.config@ && after.rooms@ == before.rooms@
        && after.rooms.next_room_id() == before.rooms.next_room_id()
}

/// Only the settings changed, to `m`.
pub open spec fn config_becomes(before: Bot, after: Bot, m: Map<Seq<char>, u64>) -> bool {
    after.config@ == m && after.rooms@ == before.rooms@
        && after.rooms.next_room_id() == before.rooms.next_room_id()
}

/// The effect and result of `blockrole set|unset`.
pub open spec fn blockrole_effect(before: Bot, after: Bot, cmd: Command, r: Result<Outcome>) -> bool {
    if !cmd.permissions.manage_roles {
        unchanged(before, after) && is_user_error(r, no_manage_roles_text())
    } else if cmd.subcommand@ == "set"@ {
        match cmd.value {
            OptionValue::Role { id, name } => config_becomes(
                before,
                after,
                before.config@.insert("blockrole"@, id.0),
            ) && is_reply(r, set_blockrole_text(name@)),
            _ => unchanged(before, after) && is_internal(r),
        }
    } else if cmd.subcommand@ == "unset"@ {
        config_becomes(before, after, before.config@.remove("blockrole"@)) && is_reply(
            r,
            "Unset block role."@,
        )
    } else {
        unchanged(before, after) && (r matches Err(Error::UnknownCommand(m)) && m@ == cmd.name@
            + " "@ + cmd.subcommand@)
    }
}

/// The effect and result of `inbox set|unset`.
pub open spec fn inbox_effect(before: Bot, after: Bot, cmd: Command, r: Result<Outcome>) -> bool {
    if !cmd.permissions.manage_channels {
        unchanged(before, after) && is_user_error(r, no_manage_channels_text())
    } else if cmd.subcommand@ == "set"@ {
        match cmd.value {
            OptionValue::Channel(channel) => config_becomes(
                before,
                after,
                before.config@.insert("inbox"@, channel.0),
            ) && is_reply(r, set_inbox_text(channel)),
            _ => unchanged(before, after) && is_internal(r),
        }
    } else if cmd.subcommand@ == "unset"@ {
        config_becomes(before, after, before.config@.remove("inbox"@)) && is_reply(
            r,
            "Unset inbox."@,
        )
    } else {
        unchanged(before, after) && (r matches Err(Error::UnknownCommand(m)) && m@ == cmd.name@
            + " "@ + cmd.subcommand@)
    }
}

/// The effect and result of `block <codename>`: nothing changes here; on
/// success the transport is asked to grant the block role to the room's user.
pub open spec fn block_effect(before: Bot, after: Bot, cmd: Command, r: Result<Outcome>) -> bool {
    &&& unchanged(before, after)
    &&& if !cmd.permissions.manage_roles {
        is_user_error(r, no_manage_roles_text())
    } else {
        match lookup(before.config@, Blockrole) {
            None => is_user_error(r, no_block_role_text()),
            Some(role) => match cmd.value {
                OptionValue::Text(c) => if !before.rooms.has_codename(c@) {
                    is_user_error(r, no_room_text(c@))
                } else {
                    exists|i: int|
                        0 <= i < before.rooms@.len() && (#[trigger] before.rooms@[i]).codename@
                            == c@ && (r matches Ok(Outcome::GrantRole { user, role: granted, codename })
                            && user == before.rooms@[i].user_id && granted == role && codename@
                            == c@)
                },
                _ => is_internal(r),
            },
        }
    }
}

/// The effect and result of `close <codename>`: the room is forgotten and the
/// transport is asked to archive its channel.
pub open spec fn close_effect(before: Bot, after: Bot, cmd: Command, r: Result<Outcome>) -> bool {
    if !cmd.permissions.manage_channels {
        unchanged(before, after) && is_user_error(r, no_manage_channels_text())
    } else {
        match cmd.value {
            OptionValue::Text(c) => if !before.rooms.has_codename(c@) {
                unchanged(before, after) && is_user_error(r, no_room_text(c@))
            } else {
                exists|i: int|
                    0 <= i < before.rooms@.len() && (#[trigger] before.rooms@[i]).codename@ == c@
                        && after.config@ == before.config@ && after.rooms@ == without_id(
                        before.rooms@,
                        before.rooms@[i].room_id,
                    ) && (r matches Ok(Outcome::Archive { channel, reply }) && channel
                        == before.rooms@[i].channel_id && reply@ == closed_text(c@))
            },
            _ => unchanged(before, after) && is_internal(r),
        }
    }
}

/// The effect and result of any command.
pub open spec fn command_effect(before: Bot, after: Bot, cmd: Command, r: Result<Outcome>) -> bool {
    if cmd.name@ == "blockrole"@ {
        blockrole_effect(before, after, cmd, r)
    } else if cmd.name@ == "inbox"@ {
        inbox_effect(before, after, cmd, r)
    } else if cmd.name@ == "block"@ {
        block_effect(before, after, cmd, r)
    } else if cmd.name@ == "close"@ {
        close_effect(before, after, cmd, r)
    } else {
        unchanged(before, after) && (r matches Err(Error::UnknownCommand(m)) && m@ == cmd.name@)
    }
}

fn user_error(text: &str) -> (r: Error)
    ensures
        r matches Error::User(m) && m@ == text@,
{
    Error::User(String::from_str(text))
}

fn wrong_option() -> (r: Error)
    ensures
        r is Internal,
{
    Error::Internal(String::from_str("got wrong option value"))
}

fn unknown_subcommand(cmd: &Command) -> (r: Error)
    ensures
        r matches Error::UnknownCommand(m) && m@ == cmd.name@ + " "@ + cmd.subcommand@,
{
    let mut m = join(cmd.name.as_str(), " ");
    m.append(cmd.subcommand.as_str());
    Error::UnknownCommand(m)
}

fn no_manage_roles() -> (r: Error)
    ensures
        r matches Error::User(m) && m@ == no_manage_roles_text(),
{
    Error::User(quote("You don't have ", "Manage Roles", " permission."))
}

fn no_manage_channels() -> (r: Error)
    ensures
        r matches Error::User(m) && m@ == no_manage_channels_text(),
{
    Error::User(quote("You don't have ", "Manage Channels", " permission."))
}

fn no_room(codename: &str) -> (r: Error)
    ensures
        r matches Error::User(m) && m@ == no_room_text(codename@),
{
    Error::User(quote("No thread with codename ", codename, " found."))
}

impl Bot {
    /// Runs one administrative command.
    ///
    /// `blockrole set|unset` needs the role-managing capability and sets or
    /// clears the block role; `inbox set|unset` needs the channel-managing
    /// capability and sets or clears the inbox. `block <codename>` needs the
    /// role-managing capability, a configured block role and a room with that
    /// codename, and asks for the role to be granted to the room's user.
    /// `close <codename>` needs the channel-managing capability and a room
    /// with that codename, which it forgets. A missing capability, a missing
    /// block role or an unknown codename is a user error and changes nothing;
    /// a name or subcommand this dispatcher does not know is an unknown
    /// command.
    pub fn execute_command(&mut self, cmd: &Command) -> (r: Result<Outcome>)
        requires
            old(self).wf(),
        ensures
            final(self).wf(),
            final(self).guild == old(self).guild,
            command_effect(*old(self), *final(self), *cmd, r),
    {
        if text_is(&cmd.name, "blockrole") {
            if !cmd.permissions.manage_roles {
                return Err(no_manage_roles());
            }
            if text_is(&cmd.subcommand, "set") {
                match &cmd.value {
                    OptionValue::Role { id, name } => {
                        self.config.set(Blockrole, *id);
                        Ok(Outcome::Reply(quote("Set block role to ", name.as_str(), ".")))
                    },
                    _ => Err(wrong_option()),
                }
            } else if text_is(&cmd.subcommand, "unset") {
                self.config.unset(Blockrole);
                Ok(Outcome::Reply(String::from_str("Unset block role.")))
            } else {
                Err(unknown_subcommand(cmd))
            }
        } else if text_is(&cmd.name, "inbox") {
            if !cmd.permissions.manage_channels {
                return Err(no_manage_channels());
            }
            if text_is(&cmd.subcommand, "set") {
                match &cmd.value {
                    OptionValue::Channel(channel) => {
                        self.config.set(Inbox, *channel);
                        let mut m = join("Set inbox to <#", decimal(channel.0).as_str());
                        m.append(">.");
                        Ok(Outcome::Reply(m))
                    },
                    _ => Err(wrong_option()),
                }
            } else if text_is(&cmd.subcommand, "unset") {
                self.config.unset(Inbox);
                Ok(Outcome::Reply(String::from_str("Unset inbox.")))
            } else {
                Err(unknown_subcommand(cmd))
            }
        } else if text_is(&cmd.name, "block") {
            if !cmd.permissions.manage_roles {
                return Err(no_manage_roles());
            }
            let role = match self.config.get(Blockrole) {
                Some(role) => role,
                None => return Err(user_error("There's no block role defined.")),
            };
            match &cmd.value {
                OptionValue::Text(codename) => match Room::get_by_codename(
                    &self.rooms,
                    codename.as_str(),
                ) {
                    Some(room) => Ok(
                        Outcome::GrantRole { user: room.user_id, role, codename: codename.clone() },
                    ),
                    None => Err(no_room(codename.as_str())),
                },
                _ => Err(wrong_option()),
            }
        } else if text_is(&cmd.name, "close") {
            if !cmd.permissions.manage_channels {
                return Err(no_manage_channels());
            }
            match &cmd.value {
                OptionValue::Text(codename) => match Room::get_by_codename(
                    &self.rooms,
                    codename.as_str(),
                ) {
                    Some(room) => {
                        let channel = room.channel_id;
                        let reply = quote("Archived ", codename.as_str(), " and removed attached user.");
                        room.delete(&mut self.rooms);
                        Ok(Outcome::Archive { channel, reply })
                    },
                    None => Err(no_room(codename.as_str())),
                },
                _ => Err(wrong_option()),
            }
        } else {
            Err(Error::UnknownCommand(cmd.name.clone()))
        }
    }

    /// The reply to `block <codename>` once the transport has tried to grant
    /// the block role.
    pub fn block_finished(codename: &str, grant: Grant) -> (r: Result<String>)
        ensures
            grant == Grant::Granted ==> (r matches Ok(m) && m@ == blocked_text(codename@)),
            grant == Grant::NotMember ==> is_user_error(r, not_member_text()),
            grant == Grant::Refused ==> is_user_error(r, refused_text()),
    {
        match grant {
            Grant::Granted => Ok(quote("Blocked ", codename, ".")),
            Grant::NotMember => Err(user_error("User is not a member or the server is unavailable.")),
            Grant::Refused => Err(user_error("Missing permissions or configured block role is invalid.")),
        }
    }
}

/// `close` with a codename that no live room has fails with a user error and
/// forgets no room.
pub proof fn lemma_close_unknown_codename(before: Bot, after: Bot, cmd: Command, r: Result<Outcome>)
    requires
        command_effect(before, after, cmd, r),
        cmd.name@ == "close"@,
        cmd.value matches OptionValue::Text(c) && !before.rooms.has_codename(c@),
    ensures
        r matches Err(Error::User(_)),
        after.rooms@ == before.rooms@,
        after.config@ == before.config@,
{
    reveal_strlit("close");
    reveal_strlit("blockrole");
    reveal_strlit("inbox");
    reveal_strlit("block");
    assert(cmd.name@.len() != "blockrole"@.len());
    assert(cmd.name@[0] != "inbox"@[0]);
    assert(cmd.name@[0] != "block"@[0]);
}

/// `block` while no block role is set fails with a user error, asks for no
/// role to be granted and changes nothing.
pub proof fn lemma_block_without_role(before: Bot, after: Bot, cmd: Command, r: Result<Outcome>)
    requires
        command_effect(before, after, cmd, r),
        cmd.name@ == "block"@,
        lookup(before.config@, Blockrole) is None,
    ensures
        r matches Err(Error::User(_)),
        unchanged(before, after),
{
    reveal_strlit("blockrole");
    reveal_strlit("inbox");
    reveal_strlit("block");
    assert(cmd.name@.len() != "blockrole"@.len());
    assert(cmd.name@[0] != "inbox"@[0]);
}

/// What the invoker is shown for a finished command: whether it succeeded,
/// and the text.
pub fn response(r: &Result<String>) -> (out: (bool, String))
    ensures
        match r {
            Ok(m) => out.0 && out.1@ == m@,
            Err(e) => !out.0 && out.1@ == e.spec_message(),
        },
{
    match r {
        Ok(m) => (true, m.clone()),
        Err(e) => (false, e.message()),
    }
}

} // verus!
