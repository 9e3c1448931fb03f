//! Rooms: opening, joining, leaving, listing and cleaning up.

use vstd::prelude::*;

use crate::clock::{clock_stamp, expired, now_rfc3339, rfc3339_instant, stamp_expired};
use crate::collections::{texts, StringSet};
use crate::payloads::{
    CreateRoomRequestPayload, CreateRoomResponsePayload, GetAllRoomsPayload,
    JoinRoomRequestPayload, JoinRoomResponsePayload,
};
use crate::text::starts_with;
use crate::types::{
    update_view, ApiError, ApiErrorView, AppRoomState, AuthInfoType, LobbyView, Room,
    RoomBroadcaster, RoomId, RoomSerialize, RoomUpdate, RoomUpdateView, RoomView, ServerMessage,
    ServerMessageView, UserIdStr, BAD_REQUEST, NOT_FOUND,
};
use crate::utils::{generate_room_id, is_room_number};

verus! {

/// How often empty, expired rooms are cleaned up: once a minute, in seconds.
pub const CLEANUP_INTERVAL: u64 = 60;

/// How many updates a room's channel holds for a slow client.
pub const CHANNEL_CAPACITY: usize = 16;

// What the operations do to the rooms.

/// The room with `user` among its members.
pub open spec fn with_member(room: RoomView, user: Seq<char>) -> RoomView {
    RoomView { members: room.members.insert(user), ..room }
}

/// The room with `user` not among its members.
pub open spec fn without_member(room: RoomView, user: Seq<char>) -> RoomView {
    RoomView { members: room.members.remove(user), ..room }
}

/// Whether the room takes no further member.
pub open spec fn is_full(room: RoomView) -> bool {
    room.members.len() >= room.max_capacity
}

/// The lobby once `user` is in the room `room_id`, which is there.
pub open spec fn lobby_joined(lobby: LobbyView, user: Seq<char>, room_id: Seq<char>) -> LobbyView {
    LobbyView {
        rooms: lobby.rooms.insert(room_id, with_member(lobby.rooms[room_id], user)),
        users: lobby.users.insert(user, room_id),
    }
}

/// Whether `user` is on record for a room that is there.
pub open spec fn in_a_room(lobby: LobbyView, user: Seq<char>) -> bool {
    lobby.users.contains_key(user) && lobby.rooms.contains_key(lobby.users[user])
}

/// The lobby without the record of `user`, where that is for a room that went.
pub open spec fn lobby_healed(lobby: LobbyView, user: Seq<char>) -> LobbyView {
    if in_a_room(lobby, user) {
        lobby
    } else {
        LobbyView { users: lobby.users.remove(user), ..lobby }
    }
}

/// The lobby once `user` is not in `room_id` and is not on record for it.
pub open spec fn lobby_left(lobby: LobbyView, user: Seq<char>, room_id: Seq<char>) -> LobbyView {
    LobbyView {
        rooms: if lobby.rooms.contains_key(room_id) {
            lobby.rooms.insert(room_id, without_member(lobby.rooms[room_id], user))
        } else {
            lobby.rooms
        },
        users: if lobby.users.contains_key(user) && lobby.users[user] == room_id {
            lobby.users.remove(user)
        } else {
            lobby.users
        },
    }
}

/// The lobby with a new room, whose owner is on record for it.
pub open spec fn lobby_created(lobby: LobbyView, room: RoomView) -> LobbyView {
    LobbyView {
        rooms: lobby.rooms.insert(room.room_id, room),
        users: lobby.users.insert(room.owner_id, room.room_id),
    }
}

/// The lobby without the rooms `gone`.
pub open spec fn lobby_cleaned(lobby: LobbyView, gone: Set<Seq<char>>) -> LobbyView {
    LobbyView { rooms: lobby.rooms.remove_keys(gone), users: lobby.users }
}

/// Why a user does not get into a room.
#[derive(Debug, Clone, Copy, PartialEq, Eq, Structural)]
pub enum JoinRefusal {
    /// The user is on record for a room.
    AlreadyInRoom,
    /// There is no such room.
    NoSuchRoom,
    /// The room has as many members as it takes.
    Full,
}

/// What comes of `user` asking to get into `room_id`: the room with the user in
/// it, or the first reason against it.
pub open spec fn join_outcome(
    lobby: LobbyView,
    user: Seq<char>,
    room_id: Seq<char>,
) -> Result<RoomView, JoinRefusal> {
    if lobby.users.contains_key(user) {
        Err(JoinRefusal::AlreadyInRoom)
    } else if !lobby.rooms.contains_key(room_id) {
        Err(JoinRefusal::NoSuchRoom)
    } else if is_full(lobby.rooms[room_id]) {
        Err(JoinRefusal::Full)
    } else {
        Ok(with_member(lobby.rooms[room_id], user))
    }
}

/// The lobby once `user` has asked to get into `room_id`. Where the user does not
/// get in, nothing changes.
pub open spec fn lobby_after_join(
    lobby: LobbyView,
    user: Seq<char>,
    room_id: Seq<char>,
) -> LobbyView {
    match join_outcome(lobby, user, room_id) {
        Ok(_) => lobby_joined(lobby, user, room_id),
        Err(_) => lobby,
    }
}

/// An update that tells a room's channel what the room is now, where the room
/// has a channel.
pub open spec fn announcement<T>(
    channels: Map<Seq<char>, T>,
    room_id: Seq<char>,
    room: RoomView,
) -> Option<RoomUpdateView> {
    if channels.contains_key(room_id) {
        Some(RoomUpdateView { room_id, message: ServerMessageView::RoomState(room) })
    } else {
        None
    }
}

impl AppRoomState {
    /// Whether `user` is on record for a room that is there.
    fn has_room(&self, user: &UserIdStr) -> (yes: bool)
        ensures
            yes == in_a_room(self@, user@),
    {
        match self.user_map.get(user) {
            Some(current) => self.room_map.contains_key(current),
            None => false,
        }
    }

    /// Drops the record of `user`, where that is for a room that went.
    pub(crate) fn heal_record(&mut self, user: &UserIdStr)
        ensures
            final(self)@ == lobby_healed(old(self)@, user@),
    {
        if !self.has_room(user) {
            let _ = self.user_map.remove(user);
            assert(self@ =~= lobby_healed(old(self)@, user@));
        }
    }

    /// Puts `user` into `room_id` unless the user is on record for a room, there
    /// is no such room, or the room is full. Gives the room as it then is. On a
    /// refusal nothing changes.
    pub fn add_member(&mut self, user: &UserIdStr, room_id: &RoomId) -> (res: Result<
        Room,
        JoinRefusal,
    >)
        ensures
            match join_outcome(old(self)@, user@, room_id@) {
                Ok(room) => res matches Ok(r) && r@ == room,
                Err(refusal) => res matches Err(e) && e == refusal,
            },
            final(self)@ == lobby_after_join(old(self)@, user@, room_id@),
            res matches Ok(room) ==> room@ == final(self)@.rooms[room_id@]
                && room@.members.contains(user@),
    {
        if self.user_map.contains_key(user) {
            return Err(JoinRefusal::AlreadyInRoom);
        }
        match self.room_map.get(room_id) {
            None => {
                return Err(JoinRefusal::NoSuchRoom);
            },
            Some(room) => {
                if room.members.len() >= room.max_capacity {
                    return Err(JoinRefusal::Full);
                }
            },
        }
        let ghost before = self@;
        match self.room_map.remove(room_id) {
            None => Err(JoinRefusal::NoSuchRoom),
            Some(found) => {
                let mut room: Room = found;
                let _ = room.members.insert(user.clone());
                let joined: Room = room.clone();
                self.room_map.insert(room_id.clone(), room);
                self.user_map.insert(user.clone(), room_id.clone());
                assert(self@ =~= lobby_joined(before, user@, room_id@));
                Ok(joined)
            },
        }
    }

    /// Takes `user` out of `room_id`, and off the record where that is for this
    /// room. Gives the room as it then is, where there is such a room, and whether
    /// the user was in it.
    pub fn remove_member(&mut self, user: &UserIdStr, room_id: &RoomId) -> (left: Option<
        (Room, bool),
    >)
        ensures
            final(self)@ == lobby_left(old(self)@, user@, room_id@),
            match left {
                Some((room, was_in)) => {
                    &&& old(self)@.rooms.contains_key(room_id@)
                    &&& room@ == final(self)@.rooms[room_id@]
                    &&& was_in == old(self)@.rooms[room_id@].members.contains(user@)
                },
                None => !old(self)@.rooms.contains_key(room_id@),
            },
    {
        let ghost before = self@;
        let on_record: bool = match self.user_map.get(user) {
            Some(current) => *current == *room_id,
            None => false,
        };
        if on_record {
            let _ = self.user_map.remove(user);
        }
        match self.room_map.remove(room_id) {
            None => {
                assert(self@ =~= lobby_left(before, user@, room_id@));
                None
            },
            Some(found) => {
                let mut room: Room = found;
                let was_in: bool = room.members.remove(user);
                let copy: Room = room.clone();
                self.room_map.insert(room_id.clone(), room);
                assert(self@ =~= lobby_left(before, user@, room_id@));
                Some((copy, was_in))
            },
        }
    }
}

/// The update for a room's channel, where the room has one.
pub(crate) fn announce<T>(channels: &RoomBroadcaster<T>, room_id: &RoomId, room: &Room) -> (update:
    Option<RoomUpdate>)
    ensures
        update_view(update) == announcement(channels@, room_id@, room@),
{
    if channels.contains_key(room_id) {
        Some(
            RoomUpdate {
                room_id: room_id.clone(),
                message: ServerMessage::RoomState(RoomSerialize::from(room)),
            },
        )
    } else {
        None
    }
}

// Listing.

/// One line for each room on the server.
pub fn get_all_rooms(state: &AppRoomState) -> (rooms: Vec<GetAllRoomsPayload>)
    ensures
        rooms@.len() == state.room_map.order().len(),
        state.room_map.order().no_duplicates(),
        state.room_map.order().to_set() == state@.rooms.dom(),
        forall|i: int|
            0 <= i < rooms@.len() ==> (#[trigger] rooms@[i]).describes(
                state@.rooms[state.room_map.order()[i]],
            ),
{
    let mut rooms: Vec<GetAllRoomsPayload> = Vec::new();
    let count: usize = state.room_map.len();
    let mut i: usize = 0;
    while i < count
        invariant
            i <= count,
            count == state.room_map.order().len(),
            rooms@.len() == i,
            forall|j: int|
                0 <= j < i ==> (#[trigger] rooms@[j]).describes(
                    state@.rooms[state.room_map.order()[j]],
                ),
        decreases count - i,
    {
        let (_, room) = state.room_map.entry(i);
        rooms.push(GetAllRoomsPayload::from(room));
        i = i + 1;
    }
    assert(state@.rooms.dom() =~= state.room_map@.dom());
    rooms
}

// Opening a room.

/// A refusal of a request that cannot be served as it stands.
pub open spec fn bad_request(message: Seq<char>) -> ApiErrorView {
    ApiErrorView { status_code: BAD_REQUEST, message }
}

/// Who asks for a room and under which id it is to stand, where the user's id
/// has the form that goes with the kind of sign-in. A general user's room gets
/// `number`.
pub open spec fn requested_room(auth: AuthInfoType, number: Seq<char>) -> Option<
    (Seq<char>, Seq<char>),
> {
    match auth {
        AuthInfoType::Discord { user_id, guild_id, channel_id } => if "discord-"@.is_prefix_of(
            user_id@,
        ) {
            Some((user_id@, "guild-"@ + guild_id@ + "_"@ + channel_id@))
        } else {
            None
        },
        AuthInfoType::General { user_id } => if "general-"@.is_prefix_of(user_id@) {
            Some((user_id@, "general-"@ + number))
        } else {
            None
        },
    }
}

/// What comes of a request to open a room: the new room, with the one who asked
/// as its owner and only member, or the first reason against it. Whoever is in a
/// room gets no further one.
pub open spec fn create_outcome(
    lobby: LobbyView,
    payload: CreateRoomRequestPayload,
    created_at: Seq<char>,
    number: Seq<char>,
) -> Result<RoomView, ApiErrorView> {
    match requested_room(payload.auth, number) {
        None => Err(bad_request("Invalid user ID format"@)),
        Some((user, room_id)) => if in_a_room(lobby, user) {
            Err(bad_request("User already in a room"@))
        } else if lobby.rooms.contains_key(room_id) {
            Err(bad_request("Room already exists"@))
        } else {
            Ok(
                RoomView {
                    room_id,
                    name: payload.name@,
                    owner_id: user,
                    created_at,
                    max_capacity: payload.max_capacity,
                    members: Set::empty().insert(user),
                },
            )
        },
    }
}

/// Who asks for a room and under which id it is to stand.
fn room_request(auth: AuthInfoType, number: String) -> (request: Option<(UserIdStr, RoomId)>)
    ensures
        match requested_room(auth, number@) {
            Some((user, room_id)) => request matches Some(r) && r.0@ == user && r.1@ == room_id,
            None => request is None,
        },
{
    match auth {
        AuthInfoType::Discord { user_id, guild_id, channel_id } => {
            if starts_with(user_id.as_str(), "discord-") {
                let mut room_id: String = "guild-".to_owned();
                room_id.append(guild_id.as_str());
                room_id.append("_");
                room_id.append(channel_id.as_str());
                Some((user_id, room_id))
            } else {
                None
            }
        },
        AuthInfoType::General { user_id } => {
            if starts_with(user_id.as_str(), "general-") {
                let mut room_id: String = "general-".to_owned();
                room_id.append(number.as_str());
                Some((user_id, room_id))
            } else {
                None
            }
        },
    }
}

/// Opens a room at a given moment: `created_at` stamps it, and `number` is the
/// number that a general user's room gets. The room's updates are to go out on
/// `channel`. On a refusal nothing changes.
pub fn create_room_at<T>(
    state: &mut AppRoomState,
    channels: &mut RoomBroadcaster<T>,
    channel: T,
    payload: CreateRoomRequestPayload,
    created_at: String,
    number: String,
) -> (res: Result<CreateRoomResponsePayload, ApiError>)
    ensures
        match create_outcome(old(state)@, payload, created_at@, number@) {
            Ok(room) => {
                &&& res matches Ok(answer) && answer.describes(room)
                &&& final(state)@ == lobby_created(old(state)@, room)
                &&& final(channels)@ == old(channels)@.insert(room.room_id, channel)
            },
            Err(refusal) => {
                &&& res matches Err(e) && e@ == refusal
                &&& final(state)@ == old(state)@
                &&& final(channels)@ == old(channels)@
            },
        },
        res matches Ok(answer) ==> {
            &&& answer.name@ == payload.name@
            &&& answer.max_capacity == payload.max_capacity
            &&& answer.created_at@ == created_at@
            &&& answer.describes(final(state)@.rooms[answer.room_id@])
        },
{
    let ghost before = state@;
    let name: String = payload.name;
    let max_capacity: usize = payload.max_capacity;
    let (user_id, room_id) = match room_request(payload.auth, number) {
        Some(request) => request,
        None => {
            return Err(
                ApiError {
                    status_code: BAD_REQUEST,
                    message: "Invalid user ID format".to_owned(),
                },
            );
        },
    };
    if state.has_room(&user_id) {
        return Err(
            ApiError { status_code: BAD_REQUEST, message: "User already in a room".to_owned() },
        );
    }
    if state.room_map.contains_key(&room_id) {
        return Err(
            ApiError { status_code: BAD_REQUEST, message: "Room already exists".to_owned() },
        );
    }
    let mut members: StringSet = StringSet::new();
    let _ = members.insert(user_id.clone());
    let room = Room {
        room_id: room_id.clone(),
        name: name.clone(),
        owner_id: user_id.clone(),
        created_at: created_at.clone(),
        max_capacity,
        members,
    };
    let ghost made = room@;
    state.room_map.insert(room_id.clone(), room);
    state.user_map.insert(user_id.clone(), room_id.clone());
    channels.insert(room_id.clone(), channel);
    assert(state@ =~= lobby_created(before, made));
    Ok(CreateRoomResponsePayload::new(room_id, user_id, name, created_at, max_capacity))
}

/// Opens a room now. A general user's room gets a random number. The room's
/// updates are to go out on `channel`. On a refusal nothing changes.
pub fn create_room<T>(
    state: &mut AppRoomState,
    channels: &mut RoomBroadcaster<T>,
    channel: T,
    payload: CreateRoomRequestPayload,
) -> (res: Result<CreateRoomResponsePayload, ApiError>)
    ensures
        exists|created_at: Seq<char>, number: Seq<char>|
            clock_stamp(created_at) && is_room_number(number) && match #[trigger] create_outcome(
                old(state)@,
                payload,
                created_at,
                number,
            ) {
                Ok(room) => {
                    &&& res matches Ok(answer) && answer.describes(room)
                    &&& final(state)@ == lobby_created(old(state)@, room)
                    &&& final(channels)@ == old(channels)@.insert(room.room_id, channel)
                },
                Err(refusal) => {
                    &&& res matches Err(e) && e@ == refusal
                    &&& final(state)@ == old(state)@
                    &&& final(channels)@ == old(channels)@
                },
            },
{
    let created_at: String = now_rfc3339();
    let number: String = generate_room_id();
    let ghost stamp = created_at@;
    let ghost digits = number@;
    let res = create_room_at(state, channels, channel, payload, created_at, number);
    assert(clock_stamp(stamp) && is_room_number(digits));
    res
}

// Joining a room.

/// The refusal of a request to join.
pub open spec fn join_error(refusal: JoinRefusal) -> ApiErrorView {
    match refusal {
        JoinRefusal::AlreadyInRoom => bad_request("User already in room"@),
        JoinRefusal::NoSuchRoom => ApiErrorView {
            status_code: NOT_FOUND,
            message: "Room not found"@,
        },
        JoinRefusal::Full => bad_request("Room is full"@),
    }
}

/// What a request to join gives: the answer, and the update that is to go out on
/// the room's channel.
#[derive(Debug)]
pub struct Joined {
    pub answer: JoinRoomResponsePayload,
    pub update: Option<RoomUpdate>,
}

/// Puts the user who asks into the room, unless the user is on record for a room,
/// there is no such room, or the room is full. On a refusal nothing changes.
pub fn join_room<T>(
    state: &mut AppRoomState,
    channels: &RoomBroadcaster<T>,
    payload: JoinRoomRequestPayload,
) -> (res: Result<Joined, ApiError>)
    ensures
        match join_outcome(old(state)@, payload.user_id@, payload.room_id@) {
            Ok(room) => {
                &&& res matches Ok(joined) && joined.answer.describes(room) && update_view(
                    joined.update,
                ) == announcement(channels@, payload.room_id@, room)
                &&& final(state)@ == lobby_joined(
                    old(state)@,
                    payload.user_id@,
                    payload.room_id@,
                )
            },
            Err(refusal) => {
                &&& res matches Err(e) && e@ == join_error(refusal)
                &&& final(state)@ == old(state)@
            },
        },
        res matches Ok(joined) ==> joined.answer.describes(final(state)@.rooms[payload.room_id@]),
{
    match state.add_member(&payload.user_id, &payload.room_id) {
        Ok(room) => {
            let update: Option<RoomUpdate> = announce(channels, &payload.room_id, &room);
            let members: Vec<String> = room.members.to_vec();
            let answer = JoinRoomResponsePayload::new(
                room.room_id,
                room.name,
                room.owner_id,
                room.created_at,
                room.max_capacity,
                members,
            );
            Ok(Joined { answer, update })
        },
        Err(JoinRefusal::AlreadyInRoom) => Err(
            ApiError { status_code: BAD_REQUEST, message: "User already in room".to_owned() },
        ),
        Err(JoinRefusal::NoSuchRoom) => Err(
            ApiError { status_code: NOT_FOUND, message: "Room not found".to_owned() },
        ),
        Err(JoinRefusal::Full) => Err(
            ApiError { status_code: BAD_REQUEST, message: "Room is full".to_owned() },
        ),
    }
}

// Cleaning up.

/// Whether a room is to be cleaned up at the moment stamped `now`: it is empty
/// and it has outlived its time.
pub open spec fn is_stale(room: RoomView, now: Seq<char>) -> bool {
    &&& room.members == Set::<Seq<char>>::empty()
    &&& expired(rfc3339_instant(room.created_at), rfc3339_instant(now))
}

/// The ids of the rooms that are to be cleaned up at the moment stamped `now`,
/// each once.
pub fn expired_rooms(state: &AppRoomState, now: &str) -> (gone: Vec<RoomId>)
    ensures
        texts(gone@).no_duplicates(),
        forall|id: Seq<char>| #[trigger]
            texts(gone@).contains(id) <==> state@.rooms.contains_key(id) && is_stale(
                state@.rooms[id],
                now@,
            ),
{
    let mut gone: Vec<RoomId> = Vec::new();
    let count: usize = state.room_map.len();
    let ghost order = state.room_map.order();
    let mut i: usize = 0;
    while i < count
        invariant
            i <= count,
            count == order.len(),
            order == state.room_map.order(),
            order.no_duplicates(),
            texts(gone@).no_duplicates(),
            forall|id: Seq<char>| #[trigger]
                texts(gone@).contains(id) <==> order.take(i as int).contains(id) && is_stale(
                    state@.rooms[id],
                    now@,
                ),
        decreases count - i,
    {
        let (id, room) = state.room_map.entry(i);
        let ghost before = texts(gone@);
        proof {
            assert(order.take(i + 1) == order.take(i as int).push(id@));
            assert(!order.take(i as int).contains(id@));
            lemma_contains_push(order.take(i as int), id@);
            lemma_contains_push(before, id@);
            assert(!before.contains(id@));
        }
        if room.members.is_empty() && stamp_expired(room.created_at.as_str(), now) {
            gone.push(id.clone());
            assert(texts(gone@) =~= before.push(id@));
        }
        i = i + 1;
    }
    proof {
        assert(order.take(order.len() as int) == order);
        assert forall|id: Seq<char>| order.contains(id) == state@.rooms.contains_key(id) by {
            assert(order.to_set().contains(id) == order.contains(id));
        }
    }
    gone
}

/// Rooms that are to be cleaned up, and the stamp of the moment at which they were
/// found.
#[derive(Debug)]
pub struct Sweep {
    pub now: String,
    pub gone: Vec<RoomId>,
}

/// The ids of the rooms that are to be cleaned up now, each once.
pub fn rooms_to_delete(state: &AppRoomState) -> (sweep: Sweep)
    ensures
        clock_stamp(sweep.now@),
        texts(sweep.gone@).no_duplicates(),
        forall|id: Seq<char>| #[trigger]
            texts(sweep.gone@).contains(id) <==> state@.rooms.contains_key(id) && is_stale(
                state@.rooms[id],
                sweep.now@,
            ),
{
    let now: String = now_rfc3339();
    let gone: Vec<RoomId> = expired_rooms(state, now.as_str());
    Sweep { now, gone }
}

/// Those of `ids` under which a room stands that is to be cleaned up at the moment
/// stamped `now`.
pub open spec fn stale_among(lobby: LobbyView, ids: Set<Seq<char>>, now: Seq<char>) -> Set<
    Seq<char>,
> {
    ids.filter(|id: Seq<char>| lobby.rooms.contains_key(id) && is_stale(lobby.rooms[id], now))
}

/// Takes out those of the rooms in `gone` that are still empty and past their time
/// at the moment stamped `now`, and their channels. A room that was joined since it
/// was found stays.
pub fn delete_rooms<T>(
    state: &mut AppRoomState,
    channels: &mut RoomBroadcaster<T>,
    gone: &Vec<RoomId>,
    now: &str,
)
    ensures
        final(state)@ == lobby_cleaned(
            old(state)@,
            stale_among(old(state)@, texts(gone@).to_set(), now@),
        ),
        final(channels)@ == old(channels)@.remove_keys(
            stale_among(old(state)@, texts(gone@).to_set(), now@),
        ),
{
    let ghost lobby = state@;
    let ghost rooms = state.room_map@;
    let ghost all = channels@;
    let ghost users = state.user_map@;
    let mut i: usize = 0;
    assert(stale_among(lobby, texts(gone@).take(0).to_set(), now@) =~= Set::<Seq<char>>::empty());
    assert(state.room_map@ =~= rooms.remove_keys(Set::empty()));
    assert(channels@ =~= all.remove_keys(Set::empty()));
    while i < gone.len()
        invariant
            i <= gone.len(),
            lobby == old(state)@,
            lobby.rooms == rooms.map_values(|room: Room| room@),
            state.room_map@ == rooms.remove_keys(
                stale_among(lobby, texts(gone@).take(i as int).to_set(), now@),
            ),
            channels@ == all.remove_keys(
                stale_among(lobby, texts(gone@).take(i as int).to_set(), now@),
            ),
            state.user_map@ == users,
        decreases gone.len() - i,
    {
        let ghost done = texts(gone@).take(i as int);
        let ghost id = texts(gone@)[i as int];
        let ghost taken = stale_among(lobby, done.to_set(), now@);
        let ghost next = stale_among(lobby, done.push(id).to_set(), now@);
        proof {
            assert(texts(gone@).take(i + 1) == done.push(id));
            lemma_contains_push(done, id);
            assert(done.push(id).to_set() =~= done.to_set().insert(id));
        }
        let stale: bool = match state.room_map.get(&gone[i]) {
            Some(room) => room.members.is_empty() && stamp_expired(room.created_at.as_str(), now),
            None => false,
        };
        if stale {
            let _ = state.room_map.remove(&gone[i]);
            let _ = channels.remove(&gone[i]);
            assert(next =~= taken.insert(id));
            assert(rooms.remove_keys(taken).remove(id) =~= rooms.remove_keys(next));
            assert(all.remove_keys(taken).remove(id) =~= all.remove_keys(next));
        } else {
            assert(next =~= taken);
        }
        i = i + 1;
    }
    assert(texts(gone@).take(i as int) == texts(gone@));
    assert(state@ =~= lobby_cleaned(lobby, stale_among(lobby, texts(gone@).to_set(), now@)));
}

/// A sequence with one more element holds what it held and that element.
pub(crate) proof fn lemma_contains_push(s: Seq<Seq<char>>, x: Seq<char>)
    ensures
        forall|y: Seq<char>| #[trigger] s.push(x).contains(y) <==> s.contains(y) || y == x,
{
    assert forall|y: Seq<char>| #[trigger] s.push(x).contains(y) <==> s.contains(y) || y == x by {
        if s.contains(y) {
            assert(s.push(x)[s.index_of(y)] == y);
        }
        if y == x {
            assert(s.push(x)[s.len() as int] == y);
        }
    }
}

// The first room.

/// The room that is there from the start.
pub open spec fn lobby_room() -> RoomView {
    RoomView {
        room_id: "general_lobby_1"@,
        name: "Public Lobby"@,
        owner_id: "system"@,
        created_at: "2025-01-01T00:00:00Z"@,
        max_capacity: 20,
        members: Set::empty(),
    }
}

/// The state to start with: one public room with nobody in it.
pub fn initial_state() -> (state: AppRoomState)
    ensures
        state@.rooms == Map::<Seq<char>, RoomView>::empty().insert(
            "general_lobby_1"@,
            lobby_room(),
        ),
        state@.users == Map::<Seq<char>, Seq<char>>::empty(),
{
    let mut state: AppRoomState = AppRoomState::default();
    let room = Room {
        room_id: "general_lobby_1".to_owned(),
        name: "Public Lobby".to_owned(),
        owner_id: "system".to_owned(),
        created_at: "2025-01-01T00:00:00Z".to_owned(),
        max_capacity: 20,
        members: StringSet::new(),
    };
    let ghost made = room@;
    state.room_map.insert(room.room_id.clone(), room);
    assert(made =~= lobby_room());
    assert(state@.rooms =~= Map::<Seq<char>, RoomView>::empty().insert(
        "general_lobby_1"@,
        lobby_room(),
    ));
    assert(state@.users =~= Map::<Seq<char>, Seq<char>>::empty());
    state
}

} // verus!
