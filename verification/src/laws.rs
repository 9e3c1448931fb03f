//! What holds of the rooms, the voice channels and the conversations as a whole.

use vstd::prelude::*;

use crate::auth::{auth_outcome, connection_outcome, FirstMessage};
use crate::clock::{nanos_between, Instant, ROOM_TTL};
use crate::payloads::CreateRoomRequestPayload;
use crate::rooms::{
    announcement, bad_request, create_outcome, in_a_room, is_stale, join_outcome,
    lobby_after_join, lobby_cleaned, lobby_created, lobby_healed, lobby_joined, lobby_left,
    lobby_room, requested_room, stale_among, with_member, without_member, JoinRefusal,
};
use crate::session::{
    connect_outcome, event_reaction, from_client, lobby_after_connect, lobby_closed, patience,
    session_after, ReactionView, SessionView, SocketEvent, HEARTBEAT_TIMEOUT,
};
use crate::text::{
    decimal, decimal_round_trip, digits_value, lemma_zero_padded, parsed_u64, power_of_ten,
    zero_padded,
};
use crate::types::{
    empty_lobby, ApiErrorView, AuthInfoType, ChannelId, ClientMessage, GuildId, LobbyView,
    RoomView, ServerMessage, ServerMessageView, UserId,
};
use crate::utils::ROOM_NUMBERS;
use crate::voice::{
    channel_left, channels_of, is_gone, members_of, room_departure, user_added, user_removed,
    user_removed_from, voice_entered, voice_left, voice_scanned, voice_updated, SeenUser,
    VoiceState, VoiceView,
};

verus! {

// What every operation on the rooms keeps.

/// Every room stands under its own id.
pub open spec fn keyed_by_id(lobby: LobbyView) -> bool {
    forall|id: Seq<char>| #[trigger]
        lobby.rooms.contains_key(id) ==> lobby.rooms[id].room_id == id
}

/// No room has more members than it takes, except for the one who opened it.
pub open spec fn within_capacity(lobby: LobbyView) -> bool {
    forall|id: Seq<char>| #[trigger]
        lobby.rooms.contains_key(id) ==> {
            &&& lobby.rooms[id].members.finite()
            &&& lobby.rooms[id].members.len() <= lobby.rooms[id].max_capacity
                || lobby.rooms[id].members.len() <= 1
        }
}

/// Whoever is on record for a room is in that room.
pub open spec fn records_true(lobby: LobbyView) -> bool {
    forall|user: Seq<char>| #[trigger]
        lobby.users.contains_key(user) ==> {
            &&& lobby.rooms.contains_key(lobby.users[user])
            &&& lobby.rooms[lobby.users[user]].members.contains(user)
        }
}

/// Whether `user` is a member of the room `id`.
pub open spec fn is_member(lobby: LobbyView, id: Seq<char>, user: Seq<char>) -> bool {
    lobby.rooms.contains_key(id) && lobby.rooms[id].members.contains(user)
}

/// Whoever is in a room is on record for that room.
pub open spec fn members_recorded(lobby: LobbyView) -> bool {
    forall|id: Seq<char>, user: Seq<char>| #[trigger]
        is_member(lobby, id, user) ==> lobby.users.contains_key(user) && lobby.users[user] == id
}

/// The rooms are in order: each under its own id, none over its capacity, and the
/// record of who is where says neither more nor less than the rooms.
pub open spec fn in_order(lobby: LobbyView) -> bool {
    &&& keyed_by_id(lobby)
    &&& within_capacity(lobby)
    &&& records_true(lobby)
    &&& members_recorded(lobby)
}

/// The record is the reverse of the rooms: a user is on record for a room exactly
/// when the user is in it. So nobody is in two rooms.
pub proof fn record_reverses_rooms(
    lobby: LobbyView,
    user: Seq<char>,
    id: Seq<char>,
    other: Seq<char>,
)
    requires
        in_order(lobby),
    ensures
        is_member(lobby, id, user) <==> lobby.users.contains_key(user) && lobby.users[user] == id,
        is_member(lobby, id, user) && is_member(lobby, other, user) ==> id == other,
{
}

/// Every room channel belongs to a room.
pub open spec fn channels_have_rooms<T>(lobby: LobbyView, channels: Map<Seq<char>, T>) -> bool {
    forall|id: Seq<char>| #[trigger] channels.contains_key(id) ==> lobby.rooms.contains_key(id)
}

/// A server without rooms, and one with the public room alone, are in order.
pub proof fn start_is_in_order()
    ensures
        in_order(empty_lobby()),
        in_order(
            LobbyView {
                rooms: Map::<Seq<char>, RoomView>::empty().insert(
                    "general_lobby_1"@,
                    lobby_room(),
                ),
                users: Map::empty(),
            },
        ),
{
}

/// Opening a room keeps the rooms in order and their channels matched to rooms.
pub proof fn opening_keeps_order<T>(
    lobby: LobbyView,
    channels: Map<Seq<char>, T>,
    channel: T,
    payload: CreateRoomRequestPayload,
    created_at: Seq<char>,
    number: Seq<char>,
)
    requires
        create_outcome(lobby, payload, created_at, number) is Ok,
    ensures
        ({
            let room = create_outcome(lobby, payload, created_at, number)->Ok_0;
            &&& in_order(lobby) ==> in_order(lobby_created(lobby, room))
            &&& channels_have_rooms(lobby, channels) ==> channels_have_rooms(
                lobby_created(lobby, room),
                channels.insert(room.room_id, channel),
            )
        }),
{
    let room = create_outcome(lobby, payload, created_at, number)->Ok_0;
    let after = lobby_created(lobby, room);
    if in_order(lobby) {
        assert forall|user: Seq<char>| #[trigger] after.users.contains_key(user) implies {
            &&& after.rooms.contains_key(after.users[user])
            &&& after.rooms[after.users[user]].members.contains(user)
        } by {
            if user != room.owner_id {
                assert(lobby.users.contains_key(user));
            }
        }
        assert forall|id: Seq<char>, user: Seq<char>| #[trigger]
            is_member(after, id, user) implies after.users.contains_key(user)
            && after.users[user] == id by {
            if id != room.room_id {
                assert(is_member(lobby, id, user));
            }
        }
    }
}

/// A request to join keeps the rooms in order and their channels matched to rooms,
/// whatever comes of it.
pub proof fn joining_keeps_order<T>(
    lobby: LobbyView,
    channels: Map<Seq<char>, T>,
    user: Seq<char>,
    room_id: Seq<char>,
)
    ensures
        in_order(lobby) ==> in_order(lobby_after_join(lobby, user, room_id)),
        channels_have_rooms(lobby, channels) ==> channels_have_rooms(
            lobby_after_join(lobby, user, room_id),
            channels,
        ),
{
    let after = lobby_after_join(lobby, user, room_id);
    if in_order(lobby) {
        assert forall|u: Seq<char>| #[trigger] after.users.contains_key(u) implies {
            &&& after.rooms.contains_key(after.users[u])
            &&& after.rooms[after.users[u]].members.contains(u)
        } by {
            if u != user {
                assert(lobby.users.contains_key(u));
            }
        }
        assert forall|id: Seq<char>, u: Seq<char>| #[trigger]
            is_member(after, id, u) implies after.users.contains_key(u) && after.users[u] == id by {
            if u != user || id != room_id {
                assert(is_member(lobby, id, u));
            }
            if u == user && is_member(lobby, id, u) {
                assert(in_a_room(lobby, user));
            }
        }
    }
}

/// A connect message keeps the rooms in order and their channels matched to rooms,
/// whatever comes of it.
pub proof fn connecting_keeps_order<T>(
    lobby: LobbyView,
    channels: Map<Seq<char>, T>,
    places: Map<UserId, (GuildId, ChannelId)>,
    auth: AuthInfoType,
    room_id: Seq<char>,
)
    ensures
        in_order(lobby) ==> in_order(lobby_after_connect(lobby, places, auth, room_id)),
        channels_have_rooms(lobby, channels) ==> channels_have_rooms(
            lobby_after_connect(lobby, places, auth, room_id),
            channels,
        ),
{
    if let Ok(user) = auth_outcome(auth, places) {
        let healed = lobby_healed(lobby, user);
        joining_keeps_order(healed, channels, user, room_id);
        if in_order(lobby) {
            assert(healed.users =~= lobby.users);
        }
    }
}

/// A channel that is made for a joined room belongs to a room.
pub proof fn subscribing_keeps_channels<T>(
    lobby: LobbyView,
    channels: Map<Seq<char>, T>,
    user: Seq<char>,
    room_id: Seq<char>,
    offered: T,
)
    requires
        join_outcome(lobby, user, room_id) is Ok,
        channels_have_rooms(lobby, channels),
    ensures
        channels_have_rooms(
            lobby_joined(lobby, user, room_id),
            channels.insert(room_id, offered),
        ),
{
}

/// Leaving keeps the rooms in order and their channels matched to rooms, whichever
/// room the user names.
pub proof fn leaving_keeps_order<T>(
    lobby: LobbyView,
    channels: Map<Seq<char>, T>,
    user: Seq<char>,
    room_id: Seq<char>,
)
    ensures
        in_order(lobby) ==> in_order(lobby_left(lobby, user, room_id)),
        channels_have_rooms(lobby, channels) ==> channels_have_rooms(
            lobby_left(lobby, user, room_id),
            channels,
        ),
{
    let after = lobby_left(lobby, user, room_id);
    if in_order(lobby) {
        assert forall|u: Seq<char>| #[trigger] after.users.contains_key(u) implies {
            &&& after.rooms.contains_key(after.users[u])
            &&& after.rooms[after.users[u]].members.contains(u)
        } by {
            assert(lobby.users.contains_key(u));
        }
        assert forall|id: Seq<char>, u: Seq<char>| #[trigger]
            is_member(after, id, u) implies after.users.contains_key(u) && after.users[u] == id by {
            assert(is_member(lobby, id, u));
        }
    }
}

/// The clean-up after a conversation keeps the rooms in order.
pub proof fn closing_keeps_order(session: SessionView, lobby: LobbyView)
    requires
        in_order(lobby),
    ensures
        in_order(lobby_closed(session, lobby)),
{
    if session.user is Some && session.room is Some {
        leaving_keeps_order(
            lobby,
            Map::<Seq<char>, int>::empty(),
            session.user->0,
            session.room->0,
        );
    }
}

/// Cleaning up rooms leaves every remaining room under its own id and within its
/// capacity, and the channels matched to rooms.
pub proof fn cleaning_keeps_rooms<T>(
    lobby: LobbyView,
    channels: Map<Seq<char>, T>,
    gone: Set<Seq<char>>,
)
    ensures
        keyed_by_id(lobby) ==> keyed_by_id(lobby_cleaned(lobby, gone)),
        within_capacity(lobby) ==> within_capacity(lobby_cleaned(lobby, gone)),
        channels_have_rooms(lobby, channels) ==> channels_have_rooms(
            lobby_cleaned(lobby, gone),
            channels.remove_keys(gone),
        ),
{
    assert forall|id: Seq<char>| #[trigger]
        lobby_cleaned(lobby, gone).rooms.contains_key(id) implies lobby.rooms.contains_key(id)
        && lobby_cleaned(lobby, gone).rooms[id] == lobby.rooms[id] by {}
}

/// Nobody is on record for a room that stands empty.
pub proof fn empty_rooms_have_no_record(lobby: LobbyView, room_id: Seq<char>, user: Seq<char>)
    requires
        records_true(lobby),
        lobby.rooms.contains_key(room_id),
        lobby.rooms[room_id].members == Set::<Seq<char>>::empty(),
    ensures
        !(lobby.users.contains_key(user) && lobby.users[user] == room_id),
{
}

/// Cleaning up keeps everything in order, whoever joined since the rooms were
/// found.
pub proof fn cleaning_keeps_order(lobby: LobbyView, ids: Set<Seq<char>>, now: Seq<char>)
    requires
        in_order(lobby),
    ensures
        in_order(lobby_cleaned(lobby, stale_among(lobby, ids, now))),
{
    let gone = stale_among(lobby, ids, now);
    let after = lobby_cleaned(lobby, gone);
    cleaning_keeps_rooms(lobby, Map::<Seq<char>, int>::empty(), gone);
    assert forall|u: Seq<char>| #[trigger] after.users.contains_key(u) implies {
        &&& after.rooms.contains_key(after.users[u])
        &&& after.rooms[after.users[u]].members.contains(u)
    } by {
        assert(lobby.users.contains_key(u));
        let id = lobby.users[u];
        if gone.contains(id) {
            empty_rooms_have_no_record(lobby, id, u);
        }
    }
    assert forall|id: Seq<char>, u: Seq<char>| #[trigger]
        is_member(after, id, u) implies after.users.contains_key(u) && after.users[u] == id by {
        assert(is_member(lobby, id, u));
    }
}

/// Cleaning up takes out no room with a member and no room that is within its time,
/// and no channel of such a room.
pub proof fn cleaning_spares_rooms_in_use<T>(
    lobby: LobbyView,
    channels: Map<Seq<char>, T>,
    ids: Set<Seq<char>>,
    now: Seq<char>,
    id: Seq<char>,
)
    requires
        lobby.rooms.contains_key(id),
        lobby.rooms[id].members != Set::<Seq<char>>::empty() || !is_stale(lobby.rooms[id], now),
    ensures
        ({
            let gone = stale_among(lobby, ids, now);
            let after = lobby_cleaned(lobby, gone);
            &&& after.rooms.contains_key(id) && after.rooms[id] == lobby.rooms[id]
            &&& channels.contains_key(id) ==> channels.remove_keys(gone).contains_key(id)
                && channels.remove_keys(gone)[id] == channels[id]
        }),
{
}

/// Leaving a voice channel keeps the rooms in order and their channels matched to
/// rooms.
pub proof fn departing_keeps_order<T>(
    lobby: LobbyView,
    channels: Map<Seq<char>, T>,
    user: Seq<char>,
)
    requires
        in_order(lobby),
    ensures
        in_order(room_departure(lobby, channels, user).lobby),
        channels_have_rooms(lobby, channels) ==> channels_have_rooms(
            room_departure(lobby, channels, user).lobby,
            room_departure(lobby, channels, user).channels,
        ),
{
    let after = room_departure(lobby, channels, user).lobby;
    assert forall|u: Seq<char>| #[trigger] after.users.contains_key(u) implies {
        &&& after.rooms.contains_key(after.users[u])
        &&& after.rooms[after.users[u]].members.contains(u)
    } by {
        assert(lobby.users.contains_key(u));
        if lobby.users.contains_key(user) && u != user && lobby.users[u] == lobby.users[user] {
            let room = without_member(lobby.rooms[lobby.users[user]], user);
            assert(room.members.contains(u));
        }
    }
    assert forall|id: Seq<char>, u: Seq<char>| #[trigger]
        is_member(after, id, u) implies after.users.contains_key(u) && after.users[u] == id by {
        assert(is_member(lobby, id, u));
    }
}

// How requests on the rooms follow on each other.

/// A user who joined a room is refused by every room until the user leaves.
pub proof fn one_room_at_a_time(
    lobby: LobbyView,
    user: Seq<char>,
    room_id: Seq<char>,
    other: Seq<char>,
)
    requires
        join_outcome(lobby, user, room_id) is Ok,
    ensures
        join_outcome(lobby_joined(lobby, user, room_id), user, other) == Err::<
            RoomView,
            JoinRefusal,
        >(JoinRefusal::AlreadyInRoom),
{
}

/// Who opens a room is refused by every room until the user leaves.
pub proof fn owner_joins_no_other_room(
    lobby: LobbyView,
    payload: CreateRoomRequestPayload,
    created_at: Seq<char>,
    number: Seq<char>,
    other: Seq<char>,
)
    requires
        create_outcome(lobby, payload, created_at, number) is Ok,
    ensures
        ({
            let room = create_outcome(lobby, payload, created_at, number)->Ok_0;
            join_outcome(lobby_created(lobby, room), room.owner_id, other) == Err::<
                RoomView,
                JoinRefusal,
            >(JoinRefusal::AlreadyInRoom)
        }),
{
}

/// Whoever is in a room opens no further one.
pub proof fn member_opens_no_room(
    lobby: LobbyView,
    payload: CreateRoomRequestPayload,
    created_at: Seq<char>,
    number: Seq<char>,
)
    requires
        requested_room(payload.auth, number) matches Some((user, _)) && in_a_room(lobby, user),
    ensures
        create_outcome(lobby, payload, created_at, number) == Err::<RoomView, ApiErrorView>(
            bad_request("User already in a room"@),
        ),
{
}

/// A record for a room that went heals with the next sign-in: who asks for that room
/// is told that there is none, and is on record no more.
pub proof fn stale_record_heals(
    lobby: LobbyView,
    places: Map<UserId, (GuildId, ChannelId)>,
    auth: AuthInfoType,
    user: Seq<char>,
)
    requires
        auth_outcome(auth, places) == Ok::<Seq<char>, Seq<char>>(user),
        lobby.users.contains_key(user),
        !lobby.rooms.contains_key(lobby.users[user]),
    ensures
        connect_outcome(lobby, places, auth, lobby.users[user]) == Err::<
            (Seq<char>, RoomView),
            Seq<char>,
        >("Room not found"@),
        lobby_after_connect(lobby, places, auth, lobby.users[user]) == (LobbyView {
            users: lobby.users.remove(user),
            ..lobby
        }),
{
}

/// A joined room holds the user and no more members than it takes.
pub proof fn joining_respects_capacity(lobby: LobbyView, user: Seq<char>, room_id: Seq<char>)
    requires
        join_outcome(lobby, user, room_id) is Ok,
        lobby.rooms[room_id].members.finite(),
    ensures
        ({
            let room = lobby_joined(lobby, user, room_id).rooms[room_id];
            &&& room.members.contains(user)
            &&& room.members.len() <= room.max_capacity
        }),
{
}

/// Leaving the room that was joined undoes the joining, for a user who was not in
/// the room before.
pub proof fn leaving_undoes_joining(lobby: LobbyView, user: Seq<char>, room_id: Seq<char>)
    requires
        join_outcome(lobby, user, room_id) is Ok,
        !is_member(lobby, room_id, user),
    ensures
        lobby_left(lobby_joined(lobby, user, room_id), user, room_id) == lobby,
{
    let room = lobby.rooms[room_id];
    assert(without_member(with_member(room, user), user) =~= room) by {
        assert(room.members.insert(user).remove(user) =~= room.members);
    }
    assert(lobby_left(lobby_joined(lobby, user, room_id), user, room_id) =~= lobby) by {
        let after = lobby_left(lobby_joined(lobby, user, room_id), user, room_id);
        assert(after.rooms =~= lobby.rooms);
        assert(after.users =~= lobby.users);
    }
}

/// A conversation that got a user into a room leaves the rooms as they were before
/// it, where the user was not in the room before.
pub proof fn conversation_leaves_no_trace(
    session: SessionView,
    lobby: LobbyView,
    user: Seq<char>,
    room_id: Seq<char>,
)
    requires
        join_outcome(lobby, user, room_id) is Ok,
        !is_member(lobby, room_id, user),
        session.user == Some(user),
        session.room == Some(room_id),
    ensures
        lobby_closed(session, lobby_joined(lobby, user, room_id)) == lobby,
{
    leaving_undoes_joining(lobby, user, room_id);
}

/// Whoever leaves the room that the record names is on record for no room and in no
/// room, and can get into a room again.
pub proof fn leaving_frees_the_user(
    lobby: LobbyView,
    user: Seq<char>,
    room_id: Seq<char>,
    other: Seq<char>,
)
    requires
        in_order(lobby),
        lobby.users.contains_key(user),
        lobby.users[user] == room_id,
    ensures
        ({
            let after = lobby_left(lobby, user, room_id);
            &&& !after.users.contains_key(user)
            &&& !is_member(after, other, user)
            &&& join_outcome(after, user, other) != Err::<RoomView, JoinRefusal>(
                JoinRefusal::AlreadyInRoom,
            )
        }),
{
    let after = lobby_left(lobby, user, room_id);
    if is_member(after, other, user) {
        assert(is_member(lobby, other, user));
    }
}

/// When a member leaves a room that is within its capacity, a user who is on
/// record for no room can get in.
pub proof fn leaving_makes_room(
    lobby: LobbyView,
    user: Seq<char>,
    room_id: Seq<char>,
    next: Seq<char>,
)
    requires
        lobby.rooms.contains_key(room_id),
        lobby.rooms[room_id].members.finite(),
        lobby.rooms[room_id].members.len() <= lobby.rooms[room_id].max_capacity,
        lobby.rooms[room_id].members.contains(user),
        !lobby.users.contains_key(next),
    ensures
        join_outcome(lobby_left(lobby, user, room_id), next, room_id) is Ok,
{
    assert(lobby.rooms[room_id].members.remove(user).len() < lobby.rooms[room_id].members.len());
}

/// A new room takes a user who is on record for no room, where it takes more than
/// the one who opened it.
pub proof fn new_room_can_be_joined(
    lobby: LobbyView,
    payload: CreateRoomRequestPayload,
    created_at: Seq<char>,
    number: Seq<char>,
    user: Seq<char>,
)
    requires
        create_outcome(lobby, payload, created_at, number) is Ok,
        payload.max_capacity >= 2,
        !lobby.users.contains_key(user),
        user != create_outcome(lobby, payload, created_at, number)->Ok_0.owner_id,
    ensures
        ({
            let room = create_outcome(lobby, payload, created_at, number)->Ok_0;
            join_outcome(lobby_created(lobby, room), user, room.room_id) == Ok::<
                RoomView,
                JoinRefusal,
            >(with_member(room, user))
        }),
{
    let room = create_outcome(lobby, payload, created_at, number)->Ok_0;
    assert(room.members.len() == 1);
}

/// A voice channel has one room at most: while the room stands, a further request
/// to open it is refused, and told so where nothing else is wrong with it.
pub proof fn voice_channel_has_one_room(
    lobby: LobbyView,
    payload: CreateRoomRequestPayload,
    again: CreateRoomRequestPayload,
    first_at: Seq<char>,
    later_at: Seq<char>,
    number: Seq<char>,
    later_number: Seq<char>,
)
    requires
        create_outcome(lobby, payload, first_at, number) is Ok,
        payload.auth matches AuthInfoType::Discord { guild_id, channel_id, .. }
            && again.auth matches AuthInfoType::Discord {
            guild_id: same_guild,
            channel_id: same_channel,
            ..
        } && guild_id@ == same_guild@ && channel_id@ == same_channel@,
    ensures
        ({
            let room = create_outcome(lobby, payload, first_at, number)->Ok_0;
            let outcome = create_outcome(
                lobby_created(lobby, room),
                again,
                later_at,
                later_number,
            );
            &&& outcome is Err
            &&& requested_room(again.auth, later_number) matches Some((user, _)) ==> (
            !in_a_room(lobby_created(lobby, room), user) ==> outcome == Err::<
                RoomView,
                ApiErrorView,
            >(bad_request("Room already exists"@)))
        }),
{
}

/// Two voice channels never share a room, where the guilds are written without an
/// underscore.
pub proof fn voice_channels_have_own_rooms(
    one: AuthInfoType,
    other: AuthInfoType,
    number: Seq<char>,
    other_number: Seq<char>,
)
    requires
        requested_room(one, number) is Some,
        requested_room(other, other_number) is Some,
        (requested_room(one, number)->0).1 == (requested_room(other, other_number)->0).1,
        one matches AuthInfoType::Discord { guild_id, .. } && !guild_id@.contains('_'),
        other matches AuthInfoType::Discord { guild_id, .. } && !guild_id@.contains('_'),
    ensures
        one->guild_id@ == other->guild_id@,
        one->channel_id@ == other->channel_id@,
{
    reveal_strlit("guild-");
    reveal_strlit("_");
    let g = one->guild_id@;
    let h = other->guild_id@;
    let c = one->channel_id@;
    let d = other->channel_id@;
    let id = (requested_room(one, number)->0).1;
    assert(id == "guild-"@ + g + "_"@ + c);
    assert(id == "guild-"@ + h + "_"@ + d);
    assert(id[6 + g.len() as int] == '_');
    assert(id[6 + h.len() as int] == '_');
    if g.len() < h.len() {
        assert(h[g.len() as int] == id[6 + g.len() as int]);
        assert(h.contains('_'));
    }
    if h.len() < g.len() {
        assert(g[h.len() as int] == id[6 + h.len() as int]);
        assert(g.contains('_'));
    }
    assert(g =~= h) by {
        assert forall|i: int| 0 <= i < g.len() implies g[i] == h[i] by {
            assert(g[i] == id[6 + i]);
            assert(h[i] == id[6 + i]);
        }
    }
    assert(c =~= d) by {
        assert forall|i: int| 0 <= i < c.len() implies c[i] == d[i] by {
            assert(c[i] == id[7 + g.len() + i]);
            assert(d[i] == id[7 + g.len() + i]);
        }
    }
}

/// Different numbers give different rooms.
pub proof fn room_numbers_are_distinct(one: u64, other: u64)
    requires
        one < ROOM_NUMBERS,
        other < ROOM_NUMBERS,
        zero_padded(one as nat, 12) == zero_padded(other as nat, 12),
    ensures
        one == other,
{
    reveal_with_fuel(power_of_ten, 13);
    lemma_zero_padded(one as nat, 12);
    lemma_zero_padded(other as nat, 12);
    assert(digits_value(zero_padded(one as nat, 12)) == one);
}

/// A general user's room begins with `general-` and a voice channel's room with
/// `guild-`.
pub proof fn room_ids_tell_their_kind(auth: AuthInfoType, number: Seq<char>)
    requires
        requested_room(auth, number) is Some,
    ensures
        match auth {
            AuthInfoType::Discord { .. } => "guild-"@.is_prefix_of(
                (requested_room(auth, number)->0).1,
            ),
            AuthInfoType::General { .. } => "general-"@.is_prefix_of(
                (requested_room(auth, number)->0).1,
            ),
        },
{
    let id = (requested_room(auth, number)->0).1;
    match auth {
        AuthInfoType::Discord { .. } => {
            assert(id.subrange(0, "guild-"@.len() as int) =~= "guild-"@);
        },
        AuthInfoType::General { .. } => {
            assert(id.subrange(0, "general-"@.len() as int) =~= "general-"@);
        },
    }
}

/// Leaving a voice channel affects nobody in a general room.
pub proof fn general_rooms_outlast_voice<T>(
    lobby: LobbyView,
    channels: Map<Seq<char>, T>,
    user: Seq<char>,
)
    requires
        lobby.users.contains_key(user),
        "general"@.is_prefix_of(lobby.users[user]),
    ensures
        room_departure(lobby, channels, user).lobby == lobby,
        room_departure(lobby, channels, user).channels == channels,
        room_departure(lobby, channels, user).update is None,
        room_departure(lobby, channels, user).closed is None,
{
    reveal_strlit("general");
    reveal_strlit("discord");
    reveal_strlit("guild-");
    let id = lobby.users[user];
    assert(id.subrange(0, 7)[0] == 'g');
    assert(id.subrange(0, 7)[1] == 'e');
    if "discord"@.is_prefix_of(id) {
        assert(id.subrange(0, 7)[0] == 'd');
    }
    if "guild-"@.is_prefix_of(id) {
        assert(id.subrange(0, 6)[1] == 'u');
    }
}

/// Leaving a voice channel takes a user out of a room that was opened for a voice
/// channel. The room goes with its channel when nobody is left, and is told in any
/// case.
pub proof fn voice_room_is_left<T>(
    auth: AuthInfoType,
    number: Seq<char>,
    lobby: LobbyView,
    channels: Map<Seq<char>, T>,
    user: Seq<char>,
)
    requires
        in_order(lobby),
        auth is Discord,
        requested_room(auth, number) is Some,
        lobby.users.contains_key(user),
        lobby.users[user] == (requested_room(auth, number)->0).1,
    ensures
        ({
            let id = lobby.users[user];
            let rest = without_member(lobby.rooms[id], user);
            let departure = room_departure(lobby, channels, user);
            &&& departure.lobby.users == lobby.users.remove(user)
            &&& departure.update == announcement(channels, id, rest)
            &&& if rest.members == Set::<Seq<char>>::empty() {
                &&& departure.lobby.rooms == lobby.rooms.remove(id)
                &&& departure.channels == channels.remove(id)
            } else {
                &&& departure.lobby.rooms == lobby.rooms.insert(id, rest)
                &&& departure.channels == channels
            }
        }),
{
    room_ids_tell_their_kind(auth, number);
}

/// A room that has outlived its time at one moment has done so at every later one,
/// leap seconds aside.
pub proof fn expiry_lasts(created: Instant, now: Instant, later: Instant)
    requires
        nanos_between(created, now) > ROOM_TTL,
        now.0 < later.0 || (now.0 == later.0 && now.1 <= later.1),
        created.1 < 1_000_000_000 && now.1 < 1_000_000_000 && later.1 < 1_000_000_000,
    ensures
        nanos_between(created, later) > ROOM_TTL,
{
}

/// The time from one moment to another is the time back, taken the other way.
pub proof fn time_runs_both_ways(a: Instant, b: Instant)
    ensures
        nanos_between(a, b) == -nanos_between(b, a),
{
}

// What every operation on the voice channels keeps.

/// No guild is listed without channels and no channel without users.
pub open spec fn nothing_empty(guilds: Map<GuildId, Map<ChannelId, Set<UserId>>>) -> bool {
    forall|g: GuildId| #[trigger]
        guilds.contains_key(g) ==> {
            &&& guilds[g] != Map::<ChannelId, Set<UserId>>::empty()
            &&& channels_populated(guilds[g])
        }
}

/// No channel is listed without users.
pub open spec fn channels_populated(channels: Map<ChannelId, Set<UserId>>) -> bool {
    forall|c: ChannelId| #[trigger]
        channels.contains_key(c) ==> channels[c] != Set::<UserId>::empty()
}

/// Whoever is on record for a place sits there.
pub open spec fn places_true(voice: VoiceView) -> bool {
    forall|u: UserId| #[trigger]
        voice.places.contains_key(u) ==> sits(
            voice.guilds,
            voice.places[u].0,
            voice.places[u].1,
            u,
        )
}

/// Whether `u` is listed in the channel.
pub open spec fn sits(
    guilds: Map<GuildId, Map<ChannelId, Set<UserId>>>,
    g: GuildId,
    c: ChannelId,
    u: UserId,
) -> bool {
    guilds.contains_key(g) && guilds[g].contains_key(c) && guilds[g][c].contains(u)
}

/// The voice channels are in order: nothing empty is listed, and the record of who
/// is where is true.
pub open spec fn voice_in_order(voice: VoiceView) -> bool {
    nothing_empty(voice.guilds) && places_true(voice)
}

/// Entering a channel seats the user there and leaves every other seat alone.
pub proof fn entering_seats(
    guilds: Map<GuildId, Map<ChannelId, Set<UserId>>>,
    g: GuildId,
    c: ChannelId,
    u: UserId,
)
    ensures
        forall|g2: GuildId, c2: ChannelId, u2: UserId| #[trigger]
            sits(user_added(guilds, g, c, u), g2, c2, u2) <==> sits(guilds, g2, c2, u2) || (g2 == g
                && c2 == c && u2 == u),
        nothing_empty(guilds) ==> nothing_empty(user_added(guilds, g, c, u)),
{
    let after = user_added(guilds, g, c, u);
    let members = members_of(channels_of(guilds, g), c).insert(u);
    assert(members.contains(u));
    assert(after[g].contains_key(c));
    if nothing_empty(guilds) {
        assert forall|c2: ChannelId| #[trigger] after[g].contains_key(c2) implies after[g][c2]
            != Set::<UserId>::empty() by {}
        assert(channels_populated(after[g]));
        assert(after[g] != Map::<ChannelId, Set<UserId>>::empty());
    }
}

/// Leaving a channel takes the user off that seat and leaves every other seat
/// alone.
pub proof fn leaving_unseats(
    guilds: Map<GuildId, Map<ChannelId, Set<UserId>>>,
    g: GuildId,
    c: ChannelId,
    u: UserId,
)
    ensures
        forall|g2: GuildId, c2: ChannelId, u2: UserId| #[trigger]
            sits(user_removed(guilds, g, c, u), g2, c2, u2) <==> sits(guilds, g2, c2, u2) && !(g2
                == g && c2 == c && u2 == u),
        nothing_empty(guilds) ==> nothing_empty(user_removed(guilds, g, c, u)),
{
    let channels = channels_of(guilds, g);
    let rest = user_removed_from(channels, c, u);
    let after = user_removed(guilds, g, c, u);
    assert forall|c2: ChannelId, u2: UserId| #[trigger]
        members_of(rest, c2).contains(u2) <==> members_of(channels, c2).contains(u2) && !(c2 == c
            && u2 == u) by {
        if channels.contains_key(c) && members_of(channels, c).remove(u) == Set::<
            UserId,
        >::empty() {
            assert(!members_of(channels, c).remove(u).contains(u2));
        }
    }
    assert forall|g2: GuildId, c2: ChannelId, u2: UserId| #[trigger]
        sits(after, g2, c2, u2) <==> sits(guilds, g2, c2, u2) && !(g2 == g && c2 == c && u2
            == u) by {
        assert(members_of(rest, c2).contains(u2) <==> members_of(channels, c2).contains(u2) && !(c2
            == c && u2 == u));
        if guilds.contains_key(g) && rest == Map::<ChannelId, Set<UserId>>::empty() {
            assert(!members_of(rest, c2).contains(u2));
        }
    }
    if nothing_empty(guilds) && guilds.contains_key(g) {
        assert(channels_populated(rest));
    }
}

/// Taking in a voice state keeps the voice channels in order.
pub proof fn voice_update_keeps_order(
    voice: VoiceView,
    before: Option<VoiceState>,
    after: VoiceState,
)
    requires
        voice_in_order(voice),
    ensures
        voice_in_order(voice_updated(voice, before, after)),
{
    if let Some(g) = after.guild_id {
        let left = channel_left(voice.places, before, g, after.user_id);
        if let Some(c) = left {
            leaving_unseats(voice.guilds, g, c, after.user_id);
        }
        let middle = voice_left(voice, g, left, after.user_id);
        assert(voice_in_order(middle));
        if let Some(c) = after.channel_id {
            entering_seats(middle.guilds, g, c, after.user_id);
        }
    }
}

/// Taking in who was found at the start keeps the voice channels in order.
pub proof fn scan_keeps_order(voice: VoiceView, seen: Seq<SeenUser>)
    requires
        voice_in_order(voice),
    ensures
        voice_in_order(voice_scanned(voice, seen)),
    decreases seen.len(),
{
    if seen.len() > 0 {
        scan_keeps_order(voice, seen.drop_last());
        let (g, u, seat) = seen.last();
        if let Some(c) = seat {
            entering_seats(voice_scanned(voice, seen.drop_last()).guilds, g, c, u);
        }
    }
}

/// A user who enters a channel is on record there and sits there; one who only
/// leaves is on record nowhere. Nobody else's place changes.
pub proof fn voice_update_moves_one_user(
    voice: VoiceView,
    before: Option<VoiceState>,
    after: VoiceState,
    other: UserId,
)
    requires
        after.guild_id is Some,
        other != after.user_id,
    ensures
        ({
            let now = voice_updated(voice, before, after);
            let g = after.guild_id->0;
            let u = after.user_id;
            &&& after.channel_id matches Some(c) ==> now.places.contains_key(u) && now.places[u]
                == (g, c) && sits(now.guilds, g, c, u)
            &&& after.channel_id is None && channel_left(voice.places, before, g, u) is Some
                ==> !now.places.contains_key(u)
            &&& now.places.contains_key(other) == voice.places.contains_key(other)
            &&& voice.places.contains_key(other) ==> now.places[other] == voice.places[other]
        }),
{
    let g = after.guild_id->0;
    let left = channel_left(voice.places, before, g, after.user_id);
    let middle = voice_left(voice, g, left, after.user_id);
    if let Some(c) = after.channel_id {
        entering_seats(middle.guilds, g, c, after.user_id);
        assert(sits(user_added(middle.guilds, g, c, after.user_id), g, c, after.user_id));
    }
}

/// A user who was tracked in a guild and for whom no earlier state is given does
/// not sit in the old channel any more, unless it is the one that is entered.
pub proof fn tracked_seat_is_given_up(voice: VoiceView, after: VoiceState)
    requires
        after.guild_id is Some,
        voice.places.contains_key(after.user_id),
        voice.places[after.user_id].0 == after.guild_id->0,
        after.channel_id != Some(voice.places[after.user_id].1),
    ensures
        !sits(
            voice_updated(voice, None, after).guilds,
            after.guild_id->0,
            voice.places[after.user_id].1,
            after.user_id,
        ),
{
    let g = after.guild_id->0;
    let c = voice.places[after.user_id].1;
    let u = after.user_id;
    leaving_unseats(voice.guilds, g, c, u);
    let middle = voice_left(voice, g, Some(c), u);
    assert(!sits(middle.guilds, g, c, u));
    if let Some(d) = after.channel_id {
        entering_seats(middle.guilds, g, d, u);
        assert(!sits(user_added(middle.guilds, g, d, u), g, c, u));
    }
}

/// A user who left a channel is gone from it exactly when the user does not sit
/// there any more. One whose new state names the same channel again still does.
pub proof fn gone_means_unseated(
    voice: VoiceView,
    before: Option<VoiceState>,
    after: VoiceState,
    g: GuildId,
    c: ChannelId,
)
    requires
        after.guild_id == Some(g),
        channel_left(voice.places, before, g, after.user_id) == Some(c),
    ensures
        is_gone(Some(c), after.channel_id) <==> !sits(
            voice_updated(voice, before, after).guilds,
            g,
            c,
            after.user_id,
        ),
{
    let u = after.user_id;
    leaving_unseats(voice.guilds, g, c, u);
    let middle = voice_left(voice, g, Some(c), u);
    assert(!sits(middle.guilds, g, c, u));
    if let Some(d) = after.channel_id {
        entering_seats(middle.guilds, g, d, u);
        assert(sits(user_added(middle.guilds, g, d, u), g, c, u) <==> d == c);
    }
}

/// Leaving the channel that was entered undoes the entering, for a user who was on
/// record nowhere and did not sit there before.
pub proof fn leaving_undoes_entering(voice: VoiceView, g: GuildId, c: ChannelId, u: UserId)
    requires
        nothing_empty(voice.guilds),
        !voice.places.contains_key(u),
        !sits(voice.guilds, g, c, u),
    ensures
        voice_left(voice_entered(voice, g, Some(c), u), g, Some(c), u) == voice,
{
    let entered = voice_entered(voice, g, Some(c), u);
    let back = voice_left(entered, g, Some(c), u);
    let channels = channels_of(voice.guilds, g);
    let members = members_of(channels, c);
    assert(members.insert(u).remove(u) =~= members);
    let grown = channels.insert(c, members.insert(u));
    assert(entered.guilds[g] == grown);
    assert(members_of(grown, c) == members.insert(u));
    let rest = user_removed_from(grown, c, u);
    if channels.contains_key(c) {
        assert(voice.guilds.contains_key(g));
        assert(members != Set::<UserId>::empty());
        assert(rest =~= channels);
    } else {
        assert(members == Set::<UserId>::empty());
        assert(rest =~= channels);
    }
    assert(back.guilds =~= voice.guilds);
    assert(back.places =~= voice.places);
}

// Conversations.

/// Only a connect can make a client a user and put it into a room: no event does,
/// and while the client is a user no event leads to another connect. A client that
/// is none is only lost to silence, to a failure or to the end of its connection.
pub proof fn conversation_has_one_user(session: SessionView, now: u128, event: SocketEvent)
    ensures
        session_after(session, now, event).user == session.user,
        session_after(session, now, event).room == session.room,
        session.user is Some ==> !(event_reaction(session, now, event) is Connect),
        session.user is None && event_reaction(session, now, event) is Close ==> {
            ||| event is Close
            ||| event is Failed
            ||| !from_client(event) && patience(session, now) == 0
        },
{
}

/// A client in a room that asks to leave is taken out of the room that it is in,
/// whichever it names, and off the record, and the conversation ends.
pub proof fn leave_message_leaves(
    session: SessionView,
    now: u128,
    room_id: String,
    lobby: LobbyView,
)
    requires
        session.user is Some,
        session.room is Some,
    ensures
        ({
            let event = SocketEvent::Text(ClientMessage::LeaveRoom { room_id });
            &&& event_reaction(session, now, event) == ReactionView::Close
            &&& lobby_closed(session_after(session, now, event), lobby) == lobby_left(
                lobby,
                session.user->0,
                session.room->0,
            )
        }),
{
}

/// When the client closes the connection, the connection ends or it fails, the
/// conversation ends.
pub proof fn end_of_connection_ends_the_conversation(session: SessionView, now: u128)
    ensures
        event_reaction(session, now, SocketEvent::Close) == ReactionView::Close,
        event_reaction(session, now, SocketEvent::Failed) == ReactionView::Close,
{
}

/// However a conversation ends, the user who was in a room is then in no room and
/// on record for none.
pub proof fn ended_conversation_leaves(
    session: SessionView,
    now: u128,
    event: SocketEvent,
    lobby: LobbyView,
    room_id: Seq<char>,
)
    requires
        in_order(lobby),
        session.user is Some,
        session.room is Some,
        is_member(lobby, session.room->0, session.user->0),
    ensures
        ({
            let after = lobby_closed(session_after(session, now, event), lobby);
            &&& !after.users.contains_key(session.user->0)
            &&& !is_member(after, room_id, session.user->0)
        }),
{
    leaving_frees_the_user(lobby, session.user->0, session.room->0, room_id);
}

/// From the channel a client hears only the state of its own room.
pub proof fn client_hears_own_room_only(
    session: SessionView,
    now: u128,
    message: ServerMessage,
)
    ensures
        match event_reaction(session, now, SocketEvent::Update(message)) {
            ReactionView::Wait => true,
            ReactionView::Close => patience(session, now) == 0,
            ReactionView::Reply(sent) => {
                &&& sent == message@
                &&& sent matches ServerMessageView::RoomState(room) && session.room == Some(
                    room.room_id,
                )
            },
            _ => false,
        },
{
}

/// A client that was heard is not cut off before it has been silent for the whole
/// heartbeat time. After that the next event cuts it off, unless it comes from the
/// client; the time left says how long that is.
pub proof fn silence_ends_the_conversation(
    session: SessionView,
    heard: u128,
    event: SocketEvent,
    now: u128,
    next: SocketEvent,
)
    requires
        from_client(event),
        !from_client(next),
    ensures
        ({
            let after = session_after(session, heard, event);
            &&& now < heard + HEARTBEAT_TIMEOUT ==> event_reaction(after, now, next)
                != ReactionView::Close
            &&& now >= heard + HEARTBEAT_TIMEOUT ==> event_reaction(after, now, next)
                == ReactionView::Close
            &&& heard <= now < heard + HEARTBEAT_TIMEOUT ==> now + patience(after, now) == heard
                + HEARTBEAT_TIMEOUT
        }),
{
}

/// The two checks of a sign-in accept the same clients and refuse the others with
/// the same words. The user whom the one takes as written the other takes by the
/// number written.
pub proof fn sign_in_checks_agree(
    auth: AuthInfoType,
    places: Map<UserId, (GuildId, ChannelId)>,
)
    ensures
        match auth_outcome(auth, places) {
            Ok(user) => {
                &&& connection_outcome(FirstMessage::Auth(auth), places) matches Ok(known)
                &&& auth is General ==> known == user
                &&& auth is Discord ==> parsed_u64(user) is Some && known == decimal(
                    parsed_u64(user)->0 as nat,
                ) && parsed_u64(known) == parsed_u64(user)
            },
            Err(message) => connection_outcome(FirstMessage::Auth(auth), places) == Err::<
                Seq<char>,
                Option<Seq<char>>,
            >(Some(message)),
        },
{
    if auth is Discord && auth_outcome(auth, places) is Ok {
        decimal_round_trip(parsed_u64(auth_outcome(auth, places)->Ok_0)->0);
    }
}

} // verus!
