//! The room table: each live room links one codename, one staff-side channel
//! and one external user, and each of the three is unique among live rooms.
use vstd::prelude::*;

use crate::error::{Error, Result};
use crate::ids::{parse_decimal, parse_spec, ChannelId, UserId};

verus! {

/// One live conversation.
pub struct Room {
    pub room_id: i64,
    pub codename: String,
    pub channel_id: ChannelId,
    pub user_id: UserId,
}

/// A room as stored: identifiers in their decimal text.
pub struct RawRoom {
    pub room_id: i64,
    pub codename: String,
    pub channel_id: String,
    pub user_id: String,
}

impl Clone for Room {
    fn clone(&self) -> (r: Self)
        ensures
            r == *self,
    {
        Room {
            room_id: self.room_id,
            codename: self.codename.clone(),
            channel_id: self.channel_id,
            user_id: self.user_id,
        }
    }
}

/// The live rooms, and the identifier the next room will get.
pub struct RoomStore {
    rooms: Vec<Room>,
    next_id: i64,
}

/// Whether two rooms share none of their four keys.
pub open spec fn disjoint(a: Room, b: Room) -> bool {
    &&& a.room_id != b.room_id
    &&& a.codename@ != b.codename@
    &&& a.channel_id != b.channel_id
    &&& a.user_id != b.user_id
}

/// Whether no two rooms of `rooms` share a key.
pub open spec fn all_distinct(rooms: Seq<Room>) -> bool {
    forall|i: int, j: int|
        0 <= i < rooms.len() && 0 <= j < rooms.len() && i != j ==> disjoint(
            #[trigger] rooms[i],
            #[trigger] rooms[j],
        )
}

/// The position of the room with identifier `id`, or -1 when there is none.
pub open spec fn index_of_id(rooms: Seq<Room>, id: i64) -> int {
    if exists|i: int| 0 <= i < rooms.len() && (#[trigger] rooms[i]).room_id == id {
        choose|i: int| 0 <= i < rooms.len() && (#[trigger] rooms[i]).room_id == id
    } else {
        -1
    }
}

/// The position of the room whose channel is `channel`, or -1 when there is
/// none.
pub open spec fn index_of_channel(rooms: Seq<Room>, channel: ChannelId) -> int {
    if exists|i: int| 0 <= i < rooms.len() && (#[trigger] rooms[i]).channel_id == channel {
        choose|i: int| 0 <= i < rooms.len() && (#[trigger] rooms[i]).channel_id == channel
    } else {
        -1
    }
}

/// `rooms` after the room with identifier `id`, if any, is removed.
pub open spec fn without_id(rooms: Seq<Room>, id: i64) -> Seq<Room> {
    let i = index_of_id(rooms, id);
    if i >= 0 {
        rooms.remove(i)
    } else {
        rooms
    }
}

impl View for RoomStore {
    type V = Seq<Room>;

    closed spec fn view(&self) -> Seq<Room> {
        self.rooms@
    }
}

impl RoomStore {
    /// The identifier the next created room will get.
    pub closed spec fn next_room_id(&self) -> i64 {
        self.next_id
    }

    /// Keys are unique and every identifier lies below the next one.
    pub open spec fn wf(&self) -> bool {
        &&& all_distinct(self@)
        &&& 1 <= self.next_room_id()
        &&& forall|i: int| 0 <= i < self@.len() ==> 1 <= #[trigger] self@[i].room_id < self.next_room_id()
    }

    pub open spec fn has_codename(&self, c: Seq<char>) -> bool {
        exists|i: int| 0 <= i < self@.len() && (#[trigger] self@[i]).codename@ == c
    }

    pub open spec fn has_channel(&self, c: ChannelId) -> bool {
        exists|i: int| 0 <= i < self@.len() && (#[trigger] self@[i]).channel_id == c
    }

    pub open spec fn has_user(&self, u: UserId) -> bool {
        exists|i: int| 0 <= i < self@.len() && (#[trigger] self@[i]).user_id == u
    }

    /// An empty table.
    pub fn new() -> (r: RoomStore)
        ensures
            r.wf(),
            r@ == Seq::<Room>::empty(),
            r.next_room_id() == 1,
    {
        RoomStore { rooms: Vec::new(), next_id: 1 }
    }

    /// The number of live rooms.
    pub fn len(&self) -> (r: usize)
        ensures
            r == self@.len(),
    {
        self.rooms.len()
    }

    /// The room at position `i`, for walking the table.
    pub fn room_at(&self, i: usize) -> (r: &Room)
        requires
            i < self@.len(),
        ensures
            *r == self@[i as int],
    {
        &self.rooms[i]
    }

    fn position_of_codename(&self, codename: &str) -> (r: Option<usize>)
        ensures
            match r {
                Some(i) => i < self@.len() && self@[i as int].codename@ == codename@,
                None => !self.has_codename(codename@),
            },
    {
        let key = String::from_str(codename);
        let mut i: usize = 0;
        while i < self.rooms.len()
            invariant
                i <= self.rooms@.len(),
                key@ == codename@,
                forall|k: int| 0 <= k < i ==> (#[trigger] self.rooms@[k]).codename@ != codename@,
            decreases self.rooms@.len() - i,
        {
            if self.rooms[i].codename == key {
                return Some(i);
            }
            i = i + 1;
        }
        None
    }

    fn position_of_channel(&self, channel_id: ChannelId) -> (r: Option<usize>)
        ensures
            match r {
                Some(i) => i < self@.len() && self@[i as int].channel_id == channel_id,
                None => !self.has_channel(channel_id),
            },
    {
        let mut i: usize = 0;
        while i < self.rooms.len()
            invariant
                i <= self.rooms@.len(),
                forall|k: int| 0 <= k < i ==> (#[trigger] self.rooms@[k]).channel_id != channel_id,
            decreases self.rooms@.len() - i,
        {
            if self.rooms[i].channel_id.0 == channel_id.0 {
                return Some(i);
            }
            i = i + 1;
        }
        None
    }

    fn position_of_user(&self, user_id: UserId) -> (r: Option<usize>)
        ensures
            match r {
                Some(i) => i < self@.len() && self@[i as int].user_id == user_id,
                None => !self.has_user(user_id),
            },
    {
        let mut i: usize = 0;
        while i < self.rooms.len()
            invariant
                i <= self.rooms@.len(),
                forall|k: int| 0 <= k < i ==> (#[trigger] self.rooms@[k]).user_id != user_id,
            decreases self.rooms@.len() - i,
        {
            if self.rooms[i].user_id.0 == user_id.0 {
                return Some(i);
            }
            i = i + 1;
        }
        None
    }

    fn position_of_id(&self, room_id: i64) -> (r: Option<usize>)
        ensures
            match r {
                Some(i) => i < self@.len() && self@[i as int].room_id == room_id,
                None => index_of_id(self@, room_id) == -1,
            },
    {
        let mut i: usize = 0;
        while i < self.rooms.len()
            invariant
                i <= self.rooms@.len(),
                forall|k: int| 0 <= k < i ==> (#[trigger] self.rooms@[k]).room_id != room_id,
            decreases self.rooms@.len() - i,
        {
            if self.rooms[i].room_id == room_id {
                return Some(i);
            }
            i = i + 1;
        }
        None
    }

    /// Whether a live room already has this codename.
    pub fn exists_by_codename(&self, codename: &str) -> (r: bool)
        ensures
            r == self.has_codename(codename@),
    {
        self.position_of_codename(codename).is_some()
    }

    pub open spec fn has_id(&self, id: i64) -> bool {
        exists|i: int| 0 <= i < self@.len() && (#[trigger] self@[i]).room_id == id
    }

    /// Puts back a stored room under its own identifier, so identifiers stay
    /// the same across restarts; later rooms get identifiers above it. Fails,
    /// leaving the table as it was, when any of its four keys is taken or its
    /// identifier is not in `1..i64::MAX`.
    pub fn restore(&mut self, room: Room) -> (r: Result<()>)
        requires
            old(self).wf(),
        ensures
            final(self).wf(),
            match r {
                Ok(()) => {
                    &&& !old(self).has_id(room.room_id)
                    &&& !old(self).has_codename(room.codename@)
                    &&& !old(self).has_channel(room.channel_id)
                    &&& !old(self).has_user(room.user_id)
                    &&& 1 <= room.room_id < i64::MAX
                    &&& final(self)@ == old(self)@.push(room)
                    &&& final(self).next_room_id() == if room.room_id < old(self).next_room_id() {
                        old(self).next_room_id()
                    } else {
                        (room.room_id + 1) as i64
                    }
                },
                Err(e) => {
                    &&& e is Internal
                    &&& final(self)@ == old(self)@
                    &&& final(self).next_room_id() == old(self).next_room_id()
                    &&& (old(self).has_id(room.room_id) || old(self).has_codename(room.codename@)
                        || old(self).has_channel(room.channel_id) || old(self).has_user(room.user_id)
                        || room.room_id < 1 || room.room_id == i64::MAX)
                },
            },
    {
        if room.room_id < 1 || room.room_id == i64::MAX {
            return Err(Error::Internal(String::from_str("stored room identifier is out of range")));
        }
        if self.position_of_id(room.room_id).is_some() {
            return Err(Error::Internal(String::from_str("room identifier is already taken")));
        }
        if self.position_of_codename(room.codename.as_str()).is_some() {
            return Err(Error::Internal(String::from_str("room codename is already taken")));
        }
        if self.position_of_channel(room.channel_id).is_some() {
            return Err(Error::Internal(String::from_str("room channel is already taken")));
        }
        if self.position_of_user(room.user_id).is_some() {
            return Err(Error::Internal(String::from_str("user already has a room")));
        }
        let ghost before = self@;
        if room.room_id >= self.next_id {
            self.next_id = room.room_id + 1;
        }
        self.rooms.push(room);
        proof {
            let s = self@;
            let n = before.len() as int;
            assert forall|a: int, b: int|
                0 <= a < s.len() && 0 <= b < s.len() && a != b implies disjoint(
                #[trigger] s[a],
                #[trigger] s[b],
            ) by {
                if a < n && b < n {
                    assert(disjoint(before[a], before[b]));
                } else if a < n {
                    assert(s[a] == before[a]);
                } else {
                    assert(s[b] == before[b]);
                }
            }
            assert forall|a: int| 0 <= a < s.len() implies 1 <= #[trigger] s[a].room_id
                < self.next_room_id() by {
                if a < n {
                    assert(s[a] == before[a]);
                }
            }
        }
        Ok(())
    }

    /// Removes the room with identifier `room_id`; does nothing when there is
    /// none, so that a second removal of the same room is harmless.
    pub fn delete(&mut self, room_id: i64)
        requires
            old(self).wf(),
        ensures
            final(self).wf(),
            final(self)@ == without_id(old(self)@, room_id),
            final(self).next_room_id() == old(self).next_room_id(),
    {
        match self.position_of_id(room_id) {
            Some(i) => {
                proof {
                    let c = index_of_id(self@, room_id);
                    assert(self@[i as int].room_id == room_id);
                    assert(c == i as int) by {
                        if c != i as int {
                            assert(disjoint(self@[c], self@[i as int]));
                        }
                    }
                }
                self.rooms.remove(i);
                proof {
                    let s = self@;
                    assert forall|a: int, b: int|
                        0 <= a < s.len() && 0 <= b < s.len() && a != b implies disjoint(
                        #[trigger] s[a],
                        #[trigger] s[b],
                    ) by {
                        let oa = if a < i { a } else { a + 1 };
                        let ob = if b < i { b } else { b + 1 };
                        assert(disjoint(old(self)@[oa], old(self)@[ob]));
                    }
                    assert forall|a: int| 0 <= a < s.len() implies 1 <= #[trigger] s[a].room_id
                        < self.next_room_id() by {
                        let oa = if a < i { a } else { a + 1 };
                        assert(old(self)@[oa] == s[a]);
                    }
                }
            },
            None => {},
        }
    }
}

impl Room {
    /// Reads a stored room; `None` when either identifier is not a decimal
    /// text of a 64-bit number, which means the store was corrupted.
    pub fn try_from(raw: RawRoom) -> (r: Option<Room>)
        ensures
            match (parse_spec(raw.channel_id@), parse_spec(raw.user_id@)) {
                (Some(c), Some(u)) => r matches Some(room) && room.room_id == raw.room_id
                    && room.codename == raw.codename && room.channel_id == ChannelId(c)
                    && room.user_id == UserId(u),
                _ => r is None,
            },
    {
        let channel = match parse_decimal(raw.channel_id.as_str()) {
            Some(c) => c,
            None => return None,
        };
        let user = match parse_decimal(raw.user_id.as_str()) {
            Some(u) => u,
            None => return None,
        };
        Some(
            Room {
                room_id: raw.room_id,
                codename: raw.codename,
                channel_id: ChannelId(channel),
                user_id: UserId(user),
            },
        )
    }

    /// Records a new room. Fails, leaving the table as it was, when the
    /// codename, the channel or the user already belongs to a live room, or
    /// when room identifiers are exhausted; a user never gets a second room.
    pub fn new(store: &mut RoomStore, codename: String, channel_id: ChannelId, user_id: UserId) -> (r:
        Result<Room>)
        requires
            old(store).wf(),
        ensures
            final(store).wf(),
            match r {
                Ok(room) => {
                    &&& !old(store).has_codename(codename@)
                    &&& !old(store).has_channel(channel_id)
                    &&& !old(store).has_user(user_id)
                    &&& old(store).next_room_id() < i64::MAX
                    &&& room.room_id == old(store).next_room_id()
                    &&& room.codename@ == codename@
                    &&& room.channel_id == channel_id
                    &&& room.user_id == user_id
                    &&& final(store)@ == old(store)@.push(room)
                    &&& final(store).next_room_id() == old(store).next_room_id() + 1
                },
                Err(e) => {
                    &&& e is Internal
                    &&& final(store)@ == old(store)@
                    &&& final(store).next_room_id() == old(store).next_room_id()
                    &&& (old(store).has_codename(codename@) || old(store).has_channel(channel_id)
                        || old(store).has_user(user_id) || old(store).next_room_id() == i64::MAX)
                },
            },
    {
        if store.position_of_codename(codename.as_str()).is_some() {
            return Err(Error::Internal(String::from_str("room codename is already taken")));
        }
        if store.position_of_channel(channel_id).is_some() {
            return Err(Error::Internal(String::from_str("room channel is already taken")));
        }
        if store.position_of_user(user_id).is_some() {
            return Err(Error::Internal(String::from_str("user already has a room")));
        }
        if store.next_id == i64::MAX {
            return Err(Error::Internal(String::from_str("room identifiers are exhausted")));
        }
        let room = Room { room_id: store.next_id, codename, channel_id, user_id };
        let ghost before = store@;
        store.rooms.push(room.clone());
        store.next_id = store.next_id + 1;
        proof {
            let s = store@;
            let n = before.len() as int;
            assert forall|a: int, b: int|
                0 <= a < s.len() && 0 <= b < s.len() && a != b implies disjoint(
                #[trigger] s[a],
                #[trigger] s[b],
            ) by {
                if a < n && b < n {
                    assert(disjoint(before[a], before[b]));
                } else if a < n {
                    assert(s[a] == before[a]);
                } else {
                    assert(s[b] == before[b]);
                }
            }
        }
        Ok(room)
    }

    /// The live room with this codename, matched exactly.
    pub fn get_by_codename(store: &RoomStore, codename: &str) -> (r: Option<Room>)
        ensures
            r is Some <==> store.has_codename(codename@),
            r matches Some(room) ==> store@.contains(room) && room.codename@ == codename@,
    {
        match store.position_of_codename(codename) {
            Some(i) => Some(store.rooms[i].clone()),
            None => None,
        }
    }

    /// The live room whose staff-side channel is `channel_id`.
    pub fn get_by_channel(store: &RoomStore, channel_id: ChannelId) -> (r: Option<Room>)
        ensures
            r is Some <==> store.has_channel(channel_id),
            r matches Some(room) ==> store@.contains(room) && room.channel_id == channel_id,
    {
        match store.position_of_channel(channel_id) {
            Some(i) => Some(store.rooms[i].clone()),
            None => None,
        }
    }

    /// The live room of the external user `user_id`.
    pub fn get_by_user(store: &RoomStore, user_id: UserId) -> (r: Option<Room>)
        ensures
            r is Some <==> store.has_user(user_id),
            r matches Some(room) ==> store@.contains(room) && room.user_id == user_id,
    {
        match store.position_of_user(user_id) {
            Some(i) => Some(store.rooms[i].clone()),
            None => None,
        }
    }

    /// Removes this room from the table; harmless when it is already gone.
    pub fn delete(self, store: &mut RoomStore)
        requires
            old(store).wf(),
        ensures
            final(store).wf(),
            final(store)@ == without_id(old(store)@, self.room_id),
            final(store).next_room_id() == old(store).next_room_id(),
    {
        store.delete(self.room_id);
    }
}

/// In a well-formed table no two live rooms share a codename, a channel, a
/// user or an identifier.
pub proof fn lemma_live_rooms_unique(store: RoomStore, i: int, j: int)
    requires
        store.wf(),
        0 <= i < store@.len(),
        0 <= j < store@.len(),
        i != j,
    ensures
        store@[i].codename@ != store@[j].codename@,
        store@[i].channel_id != store@[j].channel_id,
        store@[i].user_id != store@[j].user_id,
        store@[i].room_id != store@[j].room_id,
{
    assert(disjoint(store@[i], store@[j]));
}

/// Removing a room twice leaves the table as removing it once: after the first
/// removal no room has that identifier, so the second changes nothing.
pub proof fn lemma_delete_twice(rooms: Seq<Room>, id: i64)
    requires
        all_distinct(rooms),
    ensures
        index_of_id(without_id(rooms, id), id) == -1,
        without_id(without_id(rooms, id), id) == without_id(rooms, id),
{
    let i = index_of_id(rooms, id);
    let once = without_id(rooms, id);
    if i >= 0 {
        assert(rooms[i].room_id == id);
        if exists|k: int| 0 <= k < once.len() && (#[trigger] once[k]).room_id == id {
            let k = choose|k: int| 0 <= k < once.len() && (#[trigger] once[k]).room_id == id;
            let ok = if k < i { k } else { k + 1 };
            assert(once[k] == rooms[ok]);
            assert(disjoint(rooms[i], rooms[ok]));
        }
    }
}

/// Removing the room at position `k` by its identifier removes exactly that
/// room; no remaining room shares a key with it, and every other room stays.
pub proof fn lemma_without_room(rooms: Seq<Room>, k: int)
    requires
        all_distinct(rooms),
        0 <= k < rooms.len(),
    ensures
        without_id(rooms, rooms[k].room_id) == rooms.remove(k),
        all_distinct(rooms.remove(k)),
        forall|i: int| 0 <= i < rooms.len() - 1 ==> disjoint(#[trigger] rooms.remove(k)[i], rooms[k]),
        forall|j: int| 0 <= j < rooms.len() && j != k ==> rooms.remove(k).contains(#[trigger] rooms[j]),
{
    let id = rooms[k].room_id;
    let c = index_of_id(rooms, id);
    assert(rooms[k].room_id == id);
    if c != k {
        assert(disjoint(rooms[c], rooms[k]));
    }
    let s = rooms.remove(k);
    assert forall|a: int, b: int| 0 <= a < s.len() && 0 <= b < s.len() && a != b implies disjoint(
        #[trigger] s[a],
        #[trigger] s[b],
    ) by {
        let oa = if a < k { a } else { a + 1 };
        let ob = if b < k { b } else { b + 1 };
        assert(disjoint(rooms[oa], rooms[ob]));
    }
    assert forall|i: int| 0 <= i < rooms.len() - 1 implies disjoint(#[trigger] s[i], rooms[k]) by {
        let oi = if i < k { i } else { i + 1 };
        assert(disjoint(rooms[oi], rooms[k]));
    }
    assert forall|j: int| 0 <= j < rooms.len() && j != k implies s.contains(#[trigger] rooms[j]) by {
        let sj = if j < k { j } else { j - 1 };
        assert(s[sj] == rooms[j]);
    }
}

} // verus!
