//! Core of an anonymous two-way relay between external users and a staff
//! workspace: configuration, the room table, codename generation, message
//! routing and administrative commands.
//!
//! Routing and commands are written as steps: each takes the relay's state
//! and what the transport reported, updates the state and returns what the
//! transport should do next.
use vstd::prelude::*;

pub mod codename;
pub mod commands;
pub mod config;
pub mod error;
pub mod ids;
pub mod rooms;
pub mod text;

use crate::codename::{generate_codename, is_codename};
use crate::config::{lookup, Blockrole, Config, Inbox};
use crate::error::Result;
use crate::ids::{ChannelId, GuildId, UserId};
use crate::rooms::{disjoint, index_of_channel, without_id, Room, RoomStore};
use crate::text::{assigned_text, blocked_notice_text, escape_markup, safe_text};

verus! {

/// The relay's state: its settings and its live rooms.
pub struct Bot {
    pub guild: GuildId,
    pub config: Config,
    pub rooms: RoomStore,
}

/// A message as the transport delivered it.
pub struct InboundMessage {
    pub author: UserId,
    pub channel: ChannelId,
    /// Whether it came by direct message rather than in the staff workspace.
    pub private: bool,
    pub content: String,
}

/// What the transport should do with a routed message.
pub enum Route {
    /// Nothing: the message is dropped without a reply.
    Ignore,
    /// Find out whether the author holds this role, then hand the answer
    /// to `after_block_check`.
    CheckBlocked(crate::ids::RoleId),
    /// Reply to the author with this text, and do nothing else.
    Reply(String),
    /// Send `content` into the staff-side `channel`.
    ToChannel { channel: ChannelId, content: String },
    /// Open a thread named `codename` under `inbox`, send `content` into it,
    /// then hand the thread to `room_opened`.
    OpenRoom { inbox: ChannelId, codename: String, content: String },
    /// Send `content` to `user` by direct message.
    ToUser { user: UserId, content: String },
}

/// What `room_opened` does: on success exactly one room is added, the new
/// user's, and the reply names its codename; on failure nothing changes.
pub open spec fn room_opened_effect(
    before: Bot,
    after: Bot,
    codename: Seq<char>,
    channel: ChannelId,
    user: UserId,
    r: Result<String>,
) -> bool {
    match r {
        Ok(reply) => {
            &&& reply@ == assigned_text(codename)
            &&& after.rooms@.len() == before.rooms@.len() + 1
            &&& after.rooms@.drop_last() == before.rooms@
            &&& after.rooms@.last().codename@ == codename
            &&& after.rooms@.last().channel_id == channel
            &&& after.rooms@.last().user_id == user
            &&& !before.rooms.has_codename(codename)
            &&& !before.rooms.has_user(user)
        },
        Err(e) => {
            &&& e is Internal
            &&& after.rooms@ == before.rooms@
            &&& (before.rooms.has_codename(codename) || before.rooms.has_channel(channel)
                || before.rooms.has_user(user) || before.rooms.next_room_id() == i64::MAX)
        },
    }
}

/// The codename a route asks to open a room under, if it asks to.
pub open spec fn route_codename(r: Route) -> Seq<char> {
    match r {
        Route::OpenRoom { codename, .. } => codename@,
        _ => Seq::empty(),
    }
}

/// A direct message from an author who is not blocked and has no room, when
/// no inbox is set, is dropped: the first step does nothing or only asks for
/// the block check, and the route it ends on does nothing, so no reply is
/// sent. Routing takes the state by shared reference, so nothing changes.
pub proof fn lemma_drop_without_inbox(
    bot: Bot,
    msg: InboundMessage,
    me: UserId,
    first: Route,
    last: Route,
)
    requires
        bot.unblocked_route(&msg, me, first, last),
        msg.author != me,
        msg.private,
        !bot.rooms.has_user(msg.author),
        lookup(bot.config@, Inbox) is None,
    ensures
        first is Ignore || first is CheckBlocked,
        last is Ignore,
{
}

/// A direct message from an author who is not blocked and has no room, when
/// an inbox is set, ends on opening a room under the inbox, with a codename
/// of two words that no live room has. Once the thread is made,
/// `room_opened` adds exactly that one room and gives the one reply, which
/// names the codename, unless the thread's channel already belongs to a room
/// or room identifiers are exhausted.
pub proof fn lemma_new_user_gets_one_room(
    before: Bot,
    msg: InboundMessage,
    me: UserId,
    first: Route,
    last: Route,
    thread: ChannelId,
    after: Bot,
    reply: Result<String>,
)
    requires
        before.unblocked_route(&msg, me, first, last),
        msg.author != me,
        msg.private,
        !before.rooms.has_user(msg.author),
        lookup(before.config@, Inbox) is Some,
        room_opened_effect(before, after, route_codename(last), thread, msg.author, reply),
        !before.rooms.has_channel(thread),
        before.rooms.next_room_id() < i64::MAX,
    ensures
        last matches Route::OpenRoom { inbox, codename, .. } && {
            &&& Some(inbox) == lookup(before.config@, Inbox)
            &&& !before.rooms.has_codename(codename@)
            &&& is_codename(codename@)
            &&& reply matches Ok(text) && text@ == assigned_text(codename@)
            &&& after.rooms@.len() == before.rooms@.len() + 1
            &&& after.rooms@.drop_last() == before.rooms@
            &&& after.rooms@.last().codename@ == codename@
            &&& after.rooms@.last().channel_id == thread
            &&& after.rooms@.last().user_id == msg.author
        },
{
}

/// A message in a channel that belongs to no room is ignored.
pub proof fn lemma_unknown_channel_ignored(bot: Bot, msg: InboundMessage, r: Route)
    requires
        bot.channel_route(&msg, r),
        !bot.rooms.has_channel(msg.channel),
    ensures
        r is Ignore,
{
}

impl Bot {
    pub open spec fn wf(&self) -> bool {
        self.config.wf() && self.rooms.wf()
    }

    /// A relay over the given settings and rooms.
    pub fn new(config: Config, rooms: RoomStore, guild: GuildId) -> (r: Bot)
        ensures
            r.guild == guild,
            r.config == config,
            r.rooms == rooms,
    {
        Bot { guild, config, rooms }
    }

    /// The first step for any message. A message of the relay's own
    /// identity `me` is ignored. A direct message goes to the block check
    /// when a block role is set, else straight to `route_from_user`; a
    /// message in the workspace goes to `route_from_channel`.
    pub fn handle_message(&self, msg: &InboundMessage, me: UserId) -> (r: Route)
        requires
            self.wf(),
        ensures
            self.message_route(msg, me, r),
    {
        if msg.author.0 == me.0 {
            return Route::Ignore;
        }
        if msg.private {
            match self.config.get(Blockrole) {
                Some(role) => Route::CheckBlocked(role),
                None => self.route_from_user(msg),
            }
        } else {
            self.route_from_channel(msg)
        }
    }

    /// The second step for a direct message when a block role is set:
    /// `blocked` tells whether the author holds it. A blocked author gets the
    /// fixed notice and nothing else happens.
    pub fn after_block_check(&self, msg: &InboundMessage, blocked: bool) -> (r: Route)
        requires
            self.wf(),
        ensures
            self.block_checked_route(msg, blocked, r),
    {
        if blocked {
            Route::Reply(crate::text::blocked_notice())
        } else {
            self.route_from_user(msg)
        }
    }

    /// How `handle_message` routes `msg`: a message of the relay's own
    /// identity is ignored; a direct message asks for the block check when a
    /// block role is set and is otherwise routed as `user_route` says; a
    /// message in the workspace is routed as `channel_route` says.
    pub open spec fn message_route(&self, msg: &InboundMessage, me: UserId, r: Route) -> bool {
        &&& msg.author == me ==> r is Ignore
        &&& msg.author != me && msg.private ==> match lookup(self.config@, Blockrole) {
            Some(role) => r == Route::CheckBlocked(role),
            None => self.user_route(msg, r),
        }
        &&& msg.author != me && !msg.private ==> self.channel_route(msg, r)
    }

    /// How `after_block_check` routes `msg` once the block check answered
    /// `blocked`.
    pub open spec fn block_checked_route(&self, msg: &InboundMessage, blocked: bool, r: Route) -> bool {
        &&& blocked ==> (r matches Route::Reply(t) && t@ == blocked_notice_text())
        &&& !blocked ==> self.user_route(msg, r)
    }

    /// The route `last` that `msg` ends on when its author does not hold the
    /// block role: `first` is what `handle_message` returned, and `last` is
    /// the answer of `after_block_check` when `first` asked for the block
    /// check, else `first` itself.
    pub open spec fn unblocked_route(
        &self,
        msg: &InboundMessage,
        me: UserId,
        first: Route,
        last: Route,
    ) -> bool {
        &&& self.message_route(msg, me, first)
        &&& if first is CheckBlocked {
            self.block_checked_route(msg, false, last)
        } else {
            last == first
        }
    }

    /// How a direct message of an author who is not blocked is routed: into
    /// the author's room when there is one; else nowhere when no inbox is
    /// set; else into a new room under the inbox, with a codename no live
    /// room has.
    pub open spec fn user_route(&self, msg: &InboundMessage, r: Route) -> bool {
        if self.rooms.has_user(msg.author) {
            exists|i: int|
                0 <= i < self.rooms@.len() && (#[trigger] self.rooms@[i]).user_id == msg.author
                    && (r matches Route::ToChannel { channel, content } && channel
                    == self.rooms@[i].channel_id && content@ == safe_text(msg.content@))
        } else {
            match lookup(self.config@, Inbox) {
                None => r is Ignore,
                Some(inbox) => r matches Route::OpenRoom { inbox: to, codename, content } && to
                    == inbox && !self.rooms.has_codename(codename@) && is_codename(codename@)
                    && content@ == safe_text(
                    msg.content@,
                ),
            }
        }
    }

    /// How a message in the workspace is routed: to the user of the room
    /// whose channel it came from, or nowhere when no room has that channel.
    pub open spec fn channel_route(&self, msg: &InboundMessage, r: Route) -> bool {
        if self.rooms.has_channel(msg.channel) {
            exists|i: int|
                0 <= i < self.rooms@.len() && (#[trigger] self.rooms@[i]).channel_id == msg.channel
                    && (r matches Route::ToUser { user, content } && user == self.rooms@[i].user_id
                    && content@ == safe_text(msg.content@))
        } else {
            r is Ignore
        }
    }

    /// Routes a direct message of an author who is not blocked.
    pub fn route_from_user(&self, msg: &InboundMessage) -> (r: Route)
        requires
            self.wf(),
        ensures
            self.user_route(msg, r),
    {
        match Room::get_by_user(&self.rooms, msg.author) {
            Some(room) => Route::ToChannel {
                channel: room.channel_id,
                content: escape_markup(msg.content.as_str()),
            },
            None => match self.config.get(Inbox) {
                None => Route::Ignore,
                Some(inbox) => Route::OpenRoom {
                    inbox,
                    codename: generate_codename(&self.rooms),
                    content: escape_markup(msg.content.as_str()),
                },
            },
        }
    }

    /// Routes a message posted in the workspace.
    pub fn route_from_channel(&self, msg: &InboundMessage) -> (r: Route)
        requires
            self.wf(),
        ensures
            self.channel_route(msg, r),
    {
        match Room::get_by_channel(&self.rooms, msg.channel) {
            Some(room) => Route::ToUser {
                user: room.user_id,
                content: escape_markup(msg.content.as_str()),
            },
            None => Route::Ignore,
        }
    }

    /// The last step of opening a room: records the room of `user` in the
    /// thread `channel` under `codename`, and returns the reply that tells the
    /// user their codename. When the table refuses the room (the user, the
    /// channel or the codename is taken meanwhile), nothing is recorded and
    /// the error is internal.
    pub fn room_opened(&mut self, codename: String, channel: ChannelId, user: UserId) -> (r: Result<
        String,
    >)
        requires
            old(self).wf(),
        ensures
            final(self).wf(),
            final(self).config == old(self).config,
            final(self).guild == old(self).guild,
            room_opened_effect(*old(self), *final(self), codename@, channel, user, r),
    {
        let text = crate::text::assigned(codename.as_str());
        match Room::new(&mut self.rooms, codename, channel, user) {
            Ok(_) => {
                assert(self.rooms@.drop_last() =~= old(self).rooms@);
                Ok(text)
            },
            Err(e) => Err(e),
        }
    }

    /// Forgets the room whose channel was deleted from outside; nothing
    /// happens when no room has that channel, so a repeated notice is
    /// harmless.
    pub fn thread_delete(&mut self, channel: ChannelId)
        requires
            old(self).wf(),
        ensures
            final(self).wf(),
            final(self).config == old(self).config,
            final(self).guild == old(self).guild,
            !final(self).rooms.has_channel(channel),
            old(self).rooms.has_channel(channel) ==> final(self).rooms@ == without_id(
                old(self).rooms@,
                old(self).rooms@[index_of_channel(old(self).rooms@, channel)].room_id,
            ),
            !old(self).rooms.has_channel(channel) ==> final(self).rooms@ == old(self).rooms@,
    {
        match Room::get_by_channel(&self.rooms, channel) {
            Some(room) => {
                let ghost before = self.rooms@;
                room.delete(&mut self.rooms);
                proof {
                    let k = choose|k: int| 0 <= k < before.len() && before[k] == room;
                    let c = index_of_channel(before, channel);
                    assert(before[k].channel_id == channel);
                    if c != k {
                        assert(disjoint(before[c], before[k]));
                    }
                    crate::rooms::lemma_without_room(before, k);
                }
            },
            None => {},
        }
    }
}

} // verus!
