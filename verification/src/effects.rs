//! What each operation does, told by what goes in and what comes out.

use vstd::arithmetic::power::{lemma_pow0, lemma_pow1, lemma_pow_adds, pow};
use vstd::prelude::*;

use crate::auth::{auth_outcome, connection_outcome, ids_usable, FirstMessage};
use crate::clock::{
    clock_stamp, expired, nanos_between, rfc3339_instant, stamp_form, Instant,
};
use crate::collections::texts;
use crate::config::{named_env, setting_text, AppEnv};
use crate::laws::{entering_seats, keyed_by_id, leaving_unseats, sits};
use crate::payloads::{
    CreateRoomRequestPayload, CreateRoomResponsePayload, GetAllRoomsPayload,
    JoinRoomResponsePayload,
};
use crate::rooms::{
    announcement, create_outcome, is_stale, join_error, join_outcome, lobby_after_join,
    lobby_cleaned, lobby_created, lobby_healed, lobby_joined, lobby_left, lobby_room, stale_among,
    without_member, JoinRefusal,
};
use crate::session::{
    closing_update, connect_outcome, event_reaction, lobby_after_connect, lobby_closed, patience,
    session_after, Reaction, ReactionView, Session, SessionView, SocketEvent,
};
use crate::text::{
    decimal, digit_char, digit_value, digits_value, is_digit, parsed_u64, zero_padded,
};
use crate::types::{
    empty_lobby, update_view, ApiError, ApiErrorView, AppRoomState, AuthInfoType, ChannelId,
    ClientMessage, GuildId, LobbyView, Room, RoomSerialize, RoomUpdate, RoomView, ServerMessage,
    ServerMessageView, UserId, UserVoiceMap, VoiceChannelMap,
};
use crate::utils::{is_room_number, is_uuid_v4};
use crate::voice::{
    channel_in_guild, channel_left, room_departure, user_added, user_removed, user_removed_from,
    voice_left, voice_scanned, voice_updated, voice_view, SeenUser, VoiceState, VoiceView,
};

verus! {

// What stays.

/// Every room but the one under `id` is there before and after, and is the same.
pub open spec fn other_rooms_kept(before: LobbyView, after: LobbyView, id: Seq<char>) -> bool {
    forall|k: Seq<char>|
        #![trigger before.rooms.contains_key(k)]
        #![trigger after.rooms.contains_key(k)]
        k != id ==> {
            &&& before.rooms.contains_key(k) == after.rooms.contains_key(k)
            &&& before.rooms.contains_key(k) ==> before.rooms[k] == after.rooms[k]
        }
}

/// The record of everyone but `user` is the same before and after.
pub open spec fn other_records_kept(before: LobbyView, after: LobbyView, user: Seq<char>) -> bool {
    forall|u: Seq<char>|
        #![trigger before.users.contains_key(u)]
        #![trigger after.users.contains_key(u)]
        u != user ==> {
            &&& before.users.contains_key(u) == after.users.contains_key(u)
            &&& before.users.contains_key(u) ==> before.users[u] == after.users[u]
        }
}

/// Two rooms tell the same of themselves, their members aside.
pub open spec fn same_but_for_members(a: RoomView, b: RoomView) -> bool {
    &&& a.room_id == b.room_id
    &&& a.name == b.name
    &&& a.owner_id == b.owner_id
    &&& a.created_at == b.created_at
    &&& a.max_capacity == b.max_capacity
}

/// `after` has the members of `before`, and `user` besides.
pub open spec fn gained(before: RoomView, after: RoomView, user: Seq<char>) -> bool {
    &&& same_but_for_members(before, after)
    &&& forall|u: Seq<char>| #[trigger]
        after.members.contains(u) <==> before.members.contains(u) || u == user
}

/// `after` has the members of `before`, but for `user`.
pub open spec fn lost(before: RoomView, after: RoomView, user: Seq<char>) -> bool {
    &&& same_but_for_members(before, after)
    &&& forall|u: Seq<char>| #[trigger]
        after.members.contains(u) <==> before.members.contains(u) && u != user
}

// Joining and leaving.

/// A request to join is refused for a record, for want of the room and for want of
/// a place, in this order, and for nothing else.
pub proof fn join_reasons(lobby: LobbyView, user: Seq<char>, room_id: Seq<char>)
    ensures
        ({
            let outcome = join_outcome(lobby, user, room_id);
            let recorded = lobby.users.contains_key(user);
            let there = lobby.rooms.contains_key(room_id);
            let places_left = lobby.rooms[room_id].members.len()
                < lobby.rooms[room_id].max_capacity;
            &&& recorded ==> outcome == Err::<RoomView, JoinRefusal>(JoinRefusal::AlreadyInRoom)
            &&& !recorded && !there ==> outcome == Err::<RoomView, JoinRefusal>(
                JoinRefusal::NoSuchRoom,
            )
            &&& !recorded && there && !places_left ==> outcome == Err::<RoomView, JoinRefusal>(
                JoinRefusal::Full,
            )
            &&& !recorded && there && places_left ==> outcome is Ok
        }),
{
}

/// Whoever gets into a room is then among its members, beside everyone who was, and
/// on record for it. The room that comes back is the one that then stands under its
/// id. Nothing else changes.
pub proof fn joining_puts_the_user_in(lobby: LobbyView, user: Seq<char>, room_id: Seq<char>)
    requires
        join_outcome(lobby, user, room_id) is Ok,
    ensures
        ({
            let given = join_outcome(lobby, user, room_id)->Ok_0;
            let after = lobby_joined(lobby, user, room_id);
            &&& after.rooms.contains_key(room_id)
            &&& given == after.rooms[room_id]
            &&& given.members.contains(user)
            &&& gained(lobby.rooms[room_id], given, user)
            &&& after.users.contains_key(user) && after.users[user] == room_id
            &&& other_rooms_kept(lobby, after, room_id)
            &&& other_records_kept(lobby, after, user)
            &&& lobby_after_join(lobby, user, room_id) == after
        }),
{
}

/// Whoever does not get into a room changes nothing.
pub proof fn refused_join_changes_nothing(lobby: LobbyView, user: Seq<char>, room_id: Seq<char>)
    requires
        join_outcome(lobby, user, room_id) is Err,
    ensures
        lobby_after_join(lobby, user, room_id) == lobby,
{
}

/// Whoever asks twice for a room gets in at most once, and what the first request
/// gave back is what the second one finds.
pub proof fn second_join_is_refused(
    lobby: LobbyView,
    user: Seq<char>,
    next: Seq<char>,
    room_id: Seq<char>,
)
    requires
        join_outcome(lobby, user, room_id) is Ok,
        join_outcome(lobby_joined(lobby, user, room_id), next, room_id) is Ok,
    ensures
        user != next,
        gained(
            join_outcome(lobby, user, room_id)->Ok_0,
            join_outcome(lobby_joined(lobby, user, room_id), next, room_id)->Ok_0,
            next,
        ),
        join_outcome(lobby_joined(lobby, user, room_id), next, room_id)->Ok_0.members.contains(user),
{
}

/// Whoever leaves a room is not among its members any more, and everyone else is
/// who was. A record for that room is dropped, one for another room is not. Nothing
/// else changes.
pub proof fn leaving_takes_the_user_out(lobby: LobbyView, user: Seq<char>, room_id: Seq<char>)
    ensures
        ({
            let after = lobby_left(lobby, user, room_id);
            &&& after.rooms.contains_key(room_id) == lobby.rooms.contains_key(room_id)
            &&& lobby.rooms.contains_key(room_id) ==> lost(
                lobby.rooms[room_id],
                after.rooms[room_id],
                user,
            )
            &&& after.users.contains_key(user) <==> lobby.users.contains_key(user)
                && lobby.users[user] != room_id
            &&& after.users.contains_key(user) ==> after.users[user] == lobby.users[user]
            &&& other_rooms_kept(lobby, after, room_id)
            &&& other_records_kept(lobby, after, user)
        }),
{
}

/// A record for a room that is not there is dropped, one for a room that is there
/// is kept. Nothing else changes.
pub proof fn healing_drops_a_stale_record(lobby: LobbyView, user: Seq<char>)
    ensures
        ({
            let after = lobby_healed(lobby, user);
            &&& after.rooms == lobby.rooms
            &&& after.users.contains_key(user) <==> lobby.users.contains_key(user)
                && lobby.rooms.contains_key(lobby.users[user])
            &&& after.users.contains_key(user) ==> after.users[user] == lobby.users[user]
            &&& other_records_kept(lobby, after, user)
        }),
{
}

/// The update for a room goes out exactly where the room has a channel, on that
/// channel, and tells the whole room.
pub proof fn updates_tell_the_room<T>(
    channels: Map<Seq<char>, T>,
    room_id: Seq<char>,
    room: RoomView,
)
    ensures
        channels.contains_key(room_id) <==> announcement(channels, room_id, room) is Some,
        announcement(channels, room_id, room) matches Some(update) ==> update.room_id == room_id
            && update.message == ServerMessageView::RoomState(room),
{
}

/// Each refusal of a request to join has its status and its words.
pub proof fn join_refusals_are_worded()
    ensures
        join_error(JoinRefusal::AlreadyInRoom) == (ApiErrorView {
            status_code: 400,
            message: "User already in room"@,
        }),
        join_error(JoinRefusal::NoSuchRoom) == (ApiErrorView {
            status_code: 404,
            message: "Room not found"@,
        }),
        join_error(JoinRefusal::Full) == (ApiErrorView {
            status_code: 400,
            message: "Room is full"@,
        }),
{
}

// Opening.

/// Who signs in, as the client wrote it.
pub open spec fn signed_in_as(auth: AuthInfoType) -> Seq<char> {
    match auth {
        AuthInfoType::Discord { user_id, .. } => user_id@,
        AuthInfoType::General { user_id } => user_id@,
    }
}

/// What the id of a user begins with, by the kind of sign-in.
pub open spec fn sign_in_mark(auth: AuthInfoType) -> Seq<char> {
    match auth {
        AuthInfoType::Discord { .. } => "discord-"@,
        AuthInfoType::General { .. } => "general-"@,
    }
}

/// The id under which a room that is opened stands.
pub open spec fn room_id_for(auth: AuthInfoType, number: Seq<char>) -> Seq<char> {
    match auth {
        AuthInfoType::Discord { guild_id, channel_id, .. } => "guild-"@ + guild_id@ + "_"@
            + channel_id@,
        AuthInfoType::General { .. } => "general-"@ + number,
    }
}

/// A request to open a room is refused for the form of the user's id, for a room
/// that the user is in and for a room that stands under the same id, in this order,
/// and for nothing else: neither the name nor the capacity matters.
pub proof fn opening_reasons(
    lobby: LobbyView,
    payload: CreateRoomRequestPayload,
    created_at: Seq<char>,
    number: Seq<char>,
)
    ensures
        ({
            let outcome = create_outcome(lobby, payload, created_at, number);
            let user = signed_in_as(payload.auth);
            let formed = sign_in_mark(payload.auth).is_prefix_of(user);
            let busy = lobby.users.contains_key(user) && lobby.rooms.contains_key(
                lobby.users[user],
            );
            let taken = lobby.rooms.contains_key(room_id_for(payload.auth, number));
            &&& !formed ==> outcome == Err::<RoomView, ApiErrorView>(
                ApiErrorView { status_code: 400, message: "Invalid user ID format"@ },
            )
            &&& formed && busy ==> outcome == Err::<RoomView, ApiErrorView>(
                ApiErrorView { status_code: 400, message: "User already in a room"@ },
            )
            &&& formed && !busy && taken ==> outcome == Err::<RoomView, ApiErrorView>(
                ApiErrorView { status_code: 400, message: "Room already exists"@ },
            )
            &&& formed && !busy && !taken ==> outcome is Ok
        }),
{
}

/// A new room has the name and the capacity that were asked for, whichever kind of
/// sign-in asked, the stamp of its moment, and the one who asked as its owner and
/// only member.
pub proof fn opening_follows_the_request(
    lobby: LobbyView,
    payload: CreateRoomRequestPayload,
    created_at: Seq<char>,
    number: Seq<char>,
)
    requires
        create_outcome(lobby, payload, created_at, number) is Ok,
    ensures
        ({
            let room = create_outcome(lobby, payload, created_at, number)->Ok_0;
            let user = signed_in_as(payload.auth);
            &&& room.room_id == room_id_for(payload.auth, number)
            &&& room.name == payload.name@
            &&& room.owner_id == user
            &&& room.created_at == created_at
            &&& room.max_capacity == payload.max_capacity
            &&& forall|u: Seq<char>| #[trigger] room.members.contains(u) <==> u == user
        }),
{
}

/// A new room stands under its id, and its owner is on record for it. Nothing else
/// changes.
pub proof fn opening_adds_the_room(
    lobby: LobbyView,
    payload: CreateRoomRequestPayload,
    created_at: Seq<char>,
    number: Seq<char>,
)
    requires
        create_outcome(lobby, payload, created_at, number) is Ok,
    ensures
        ({
            let room = create_outcome(lobby, payload, created_at, number)->Ok_0;
            let after = lobby_created(lobby, room);
            let id = room_id_for(payload.auth, number);
            let user = signed_in_as(payload.auth);
            &&& !lobby.rooms.contains_key(id)
            &&& after.rooms.contains_key(id) && after.rooms[id] == room
            &&& after.users.contains_key(user) && after.users[user] == id
            &&& other_rooms_kept(lobby, after, id)
            &&& other_records_kept(lobby, after, user)
        }),
{
}

/// The public room that is there from the start.
pub proof fn public_room_is_as_announced()
    ensures
        lobby_room().room_id == "general_lobby_1"@,
        lobby_room().name == "Public Lobby"@,
        lobby_room().owner_id == "system"@,
        lobby_room().created_at == "2025-01-01T00:00:00Z"@,
        lobby_room().max_capacity == 20,
        forall|u: Seq<char>| !#[trigger] lobby_room().members.contains(u),
{
}

// Answers.

/// A line of the list tells a room's texts and its capacity, and counts its members.
pub proof fn list_lines_tell_the_room(line: GetAllRoomsPayload, room: RoomView)
    requires
        line.describes(room),
    ensures
        line.room_id@ == room.room_id,
        line.name@ == room.name,
        line.owner_id@ == room.owner_id,
        line.created_at@ == room.created_at,
        line.max_capacity == room.max_capacity,
        line.number_of_members == room.members.len(),
{
}

/// The answer to a request to open a room is marked as such and tells the room.
pub proof fn opening_answers_tell_the_room(answer: CreateRoomResponsePayload, room: RoomView)
    requires
        answer.describes(room),
    ensures
        answer.response_type@ == "create_room"@,
        answer.room_id@ == room.room_id,
        answer.owner_id@ == room.owner_id,
        answer.name@ == room.name,
        answer.created_at@ == room.created_at,
        answer.max_capacity == room.max_capacity,
{
}

/// The answer to a request to join is marked as such and tells the room, with every
/// member listed once and nobody else.
pub proof fn joining_answers_tell_the_room(answer: JoinRoomResponsePayload, room: RoomView)
    requires
        answer.describes(room),
    ensures
        answer.response_type@ == "join_room"@,
        answer.room_id@ == room.room_id,
        answer.name@ == room.name,
        answer.owner_id@ == room.owner_id,
        answer.created_at@ == room.created_at,
        answer.max_capacity == room.max_capacity,
        forall|i: int|
            0 <= i < answer.members@.len() ==> room.members.contains(
                (#[trigger] answer.members@[i])@,
            ),
        forall|u: Seq<char>| #[trigger]
            room.members.contains(u) ==> exists|i: int|
                0 <= i < answer.members@.len() && (#[trigger] answer.members@[i])@ == u,
        forall|i: int, j: int|
            0 <= i < j < answer.members@.len() ==> (#[trigger] answer.members@[i])@ != (
            #[trigger] answer.members@[j])@,
{
    let listed = texts(answer.members@);
    assert forall|i: int| 0 <= i < answer.members@.len() implies room.members.contains(
        (#[trigger] answer.members@[i])@,
    ) by {
        assert(listed[i] == answer.members@[i]@);
        assert(listed.contains(listed[i]));
        assert(listed.to_set().contains(listed[i]));
    }
    assert forall|u: Seq<char>| #[trigger] room.members.contains(u) implies exists|i: int|
        0 <= i < answer.members@.len() && (#[trigger] answer.members@[i])@ == u by {
        assert(listed.to_set().contains(u));
        let i = listed.index_of(u);
        assert(listed.contains(u));
        assert(answer.members@[i]@ == u);
    }
    assert forall|i: int, j: int| 0 <= i < j < answer.members@.len() implies (
    #[trigger] answer.members@[i])@ != (#[trigger] answer.members@[j])@ by {
        assert(listed[i] != listed[j]);
    }
}

/// A list of texts tells each string as it is, in the same order.
pub proof fn texts_tell_the_strings(list: Seq<String>)
    ensures
        texts(list).len() == list.len(),
        forall|i: int| 0 <= i < list.len() ==> #[trigger] texts(list)[i] == list[i]@,
{
}

// Cleaning up.

/// Whether nobody is in the room.
pub open spec fn nobody_in(room: RoomView) -> bool {
    forall|u: Seq<char>| !#[trigger] room.members.contains(u)
}

/// Whether both stamps can be read, and the second is more than five minutes after
/// the first.
pub open spec fn five_minutes_apart(created_at: Seq<char>, now: Seq<char>) -> bool {
    match (rfc3339_instant(created_at), rfc3339_instant(now)) {
        (Some(then), Some(at)) => nanos_between(then, at) > 5 * 60 * 1_000_000_000,
        _ => false,
    }
}

/// A room is to be cleaned up exactly when nobody is in it and it was opened more
/// than five minutes ago. Its id, its name, its owner and its capacity do not
/// matter.
pub proof fn stale_means_empty_and_old(room: RoomView, now: Seq<char>)
    ensures
        is_stale(room, now) <==> nobody_in(room) && five_minutes_apart(room.created_at, now),
{
    if nobody_in(room) {
        assert(room.members =~= Set::<Seq<char>>::empty());
    }
}

/// Two empty rooms with the same stamp share their fate.
pub proof fn equal_stamps_share_a_fate(one: RoomView, other: RoomView, now: Seq<char>)
    requires
        nobody_in(one),
        nobody_in(other),
        one.created_at == other.created_at,
    ensures
        is_stale(one, now) == is_stale(other, now),
{
    stale_means_empty_and_old(one, now);
    stale_means_empty_and_old(other, now);
}

/// Of the rooms that were found, cleaning up takes out every one that is empty and
/// old, with its channel, whatever its id, its name or its owner. It takes out no
/// other, and nobody's record changes.
pub proof fn cleaning_takes_the_empty_and_old<T>(
    lobby: LobbyView,
    channels: Map<Seq<char>, T>,
    ids: Set<Seq<char>>,
    now: Seq<char>,
    id: Seq<char>,
)
    ensures
        ({
            let gone = stale_among(lobby, ids, now);
            let after = lobby_cleaned(lobby, gone);
            let left = channels.remove_keys(gone);
            let due = ids.contains(id) && lobby.rooms.contains_key(id) && nobody_in(
                lobby.rooms[id],
            ) && five_minutes_apart(lobby.rooms[id].created_at, now);
            &&& gone.contains(id) <==> due
            &&& after.rooms.contains_key(id) <==> lobby.rooms.contains_key(id) && !due
            &&& after.rooms.contains_key(id) ==> after.rooms[id] == lobby.rooms[id]
            &&& left.contains_key(id) <==> channels.contains_key(id) && !due
            &&& left.contains_key(id) ==> left[id] == channels[id]
            &&& after.users == lobby.users
        }),
{
    if lobby.rooms.contains_key(id) {
        stale_means_empty_and_old(lobby.rooms[id], now);
    }
}

/// A room that is found and cleaned up at one moment is gone, and so is its
/// channel; cleaning up at the same moment again changes nothing.
pub proof fn cleaning_is_done_once(
    lobby: LobbyView,
    ids: Set<Seq<char>>,
    now: Seq<char>,
)
    ensures
        ({
            let after = lobby_cleaned(lobby, stale_among(lobby, ids, now));
            lobby_cleaned(after, stale_among(after, ids, now)) == after
        }),
{
    let after = lobby_cleaned(lobby, stale_among(lobby, ids, now));
    assert(stale_among(after, ids, now) =~= Set::<Seq<char>>::empty());
    assert(lobby_cleaned(after, stale_among(after, ids, now)).rooms =~= after.rooms);
}

// Time.

/// Outside leap seconds the time between two moments is the difference of their
/// seconds and nanoseconds.
pub proof fn time_is_a_difference(then: Instant, now: Instant)
    requires
        then.1 < 1_000_000_000,
        now.1 < 1_000_000_000,
    ensures
        nanos_between(then, now) == (now.0 * 1_000_000_000 + now.1) - (then.0 * 1_000_000_000
            + then.1),
{
}

/// From inside a leap second to a later time of a day it is a second longer than
/// the difference says, and to any other moment that is in none just as long.
pub proof fn time_from_a_leap_second(then: Instant, now: Instant)
    requires
        then.1 >= 1_000_000_000,
        now.1 < 1_000_000_000,
    ensures
        ({
            let plain = (now.0 * 1_000_000_000 + now.1) - (then.0 * 1_000_000_000 + then.1);
            if now.0 as int % 86_400 > then.0 as int % 86_400 {
                nanos_between(then, now) == plain + 1_000_000_000
            } else {
                nanos_between(then, now) == plain
            }
        }),
{
}

/// Between two leap seconds at the same time of the day the difference stands; at
/// different times one leap second counts.
pub proof fn time_between_leap_seconds(then: Instant, now: Instant)
    requires
        then.1 >= 1_000_000_000,
        now.1 >= 1_000_000_000,
    ensures
        ({
            let plain = (now.0 * 1_000_000_000 + now.1) - (then.0 * 1_000_000_000 + then.1);
            let a = then.0 as int % 86_400;
            let b = now.0 as int % 86_400;
            &&& a == b ==> nanos_between(then, now) == plain
            &&& a < b ==> nanos_between(then, now) == plain + 1_000_000_000
            &&& a > b ==> nanos_between(then, now) == plain - 1_000_000_000
        }),
{
}

/// What was made has expired exactly when both moments are known and more than
/// five minutes lie between them.
pub proof fn expiry_takes_five_minutes(created: Option<Instant>, now: Option<Instant>)
    ensures
        expired(created, now) <==> created is Some && now is Some && nanos_between(
            created->0,
            now->0,
        ) > 5 * 60 * 1_000_000_000,
{
}

// Voice channels.

/// Whether the channel is listed.
pub open spec fn listed(
    guilds: Map<GuildId, Map<ChannelId, Set<UserId>>>,
    g: GuildId,
    c: ChannelId,
) -> bool {
    guilds.contains_key(g) && guilds[g].contains_key(c)
}

/// Entering lists the channel that is entered, and its guild, and no other.
pub proof fn entering_lists_the_channel(
    guilds: Map<GuildId, Map<ChannelId, Set<UserId>>>,
    g: GuildId,
    c: ChannelId,
    u: UserId,
)
    ensures
        forall|g2: GuildId| #[trigger]
            user_added(guilds, g, c, u).contains_key(g2) <==> guilds.contains_key(g2) || g2 == g,
        forall|g2: GuildId, c2: ChannelId| #[trigger]
            listed(user_added(guilds, g, c, u), g2, c2) <==> listed(guilds, g2, c2) || (g2 == g
                && c2 == c),
{
}

/// Leaving takes a channel off the list exactly when nobody else sits in it, and a
/// guild exactly when it has no channel left. No other is taken off.
pub proof fn leaving_unlists_what_is_empty(
    guilds: Map<GuildId, Map<ChannelId, Set<UserId>>>,
    g: GuildId,
    c: ChannelId,
    u: UserId,
)
    ensures
        forall|g2: GuildId, c2: ChannelId| #[trigger]
            listed(user_removed(guilds, g, c, u), g2, c2) <==> listed(guilds, g2, c2) && (g2 != g
                || c2 != c || exists|u2: UserId| u2 != u && #[trigger] sits(guilds, g, c, u2)),
        forall|g2: GuildId| #[trigger]
            user_removed(guilds, g, c, u).contains_key(g2) <==> guilds.contains_key(g2) && (g2
                != g || exists|c2: ChannelId| #[trigger]
                listed(user_removed(guilds, g, c, u), g, c2)),
{
    let after = user_removed(guilds, g, c, u);
    let others = exists|u2: UserId| u2 != u && #[trigger] sits(guilds, g, c, u2);
    if listed(guilds, g, c) {
        let rest = guilds[g][c].remove(u);
        if others {
            let u2 = choose|u2: UserId| u2 != u && #[trigger] sits(guilds, g, c, u2);
            assert(rest.contains(u2));
        } else {
            assert(rest =~= Set::<UserId>::empty()) by {
                assert forall|u2: UserId| !rest.contains(u2) by {
                    assert(!(u2 != u && sits(guilds, g, c, u2)));
                }
            }
        }
    }
    if guilds.contains_key(g) {
        let kept = user_removed_from(guilds[g], c, u);
        assert forall|c2: ChannelId| #[trigger] kept.contains_key(c2) <==> guilds[g].contains_key(
            c2,
        ) && (c2 != c || others) by {}
        assert forall|c2: ChannelId| #[trigger] listed(after, g, c2) <==> kept.contains_key(
            c2,
        ) by {
            if kept.contains_key(c2) {
                assert(!Map::<ChannelId, Set<UserId>>::empty().contains_key(c2));
            }
        }
        if after.contains_key(g) {
            if forall|c2: ChannelId| !kept.contains_key(c2) {
                assert(kept =~= Map::<ChannelId, Set<UserId>>::empty());
            }
            let c2 = choose|c2: ChannelId| kept.contains_key(c2);
            assert(listed(after, g, c2));
        }
    }
    assert forall|g2: GuildId, c2: ChannelId| #[trigger]
        listed(after, g2, c2) <==> listed(guilds, g2, c2) && (g2 != g || c2 != c || others) by {
        if guilds.contains_key(g) {
            let kept = user_removed_from(guilds[g], c, u);
            assert(listed(after, g, c2) <==> kept.contains_key(c2));
        }
    }
}

/// The channel that a new state makes a user leave: the one of the state before,
/// where there is such a state, and the one on record in the same guild where there
/// is none.
pub proof fn earlier_state_names_the_channel_left(
    places: Map<UserId, (GuildId, ChannelId)>,
    before: Option<VoiceState>,
    g: GuildId,
    u: UserId,
    c: ChannelId,
)
    ensures
        before is Some ==> channel_left(places, before, g, u) == before->0.channel_id,
        before is None ==> (channel_left(places, before, g, u) == Some(c) <==> places.contains_key(
            u,
        ) && places[u] == (g, c)),
{
}

/// A new state in a guild moves its user: off the seat that is left, onto the seat
/// that is entered. The record follows, and is dropped where a seat is left and none
/// is entered. No other seat and no other record changes.
pub proof fn voice_update_moves_the_user(
    voice: VoiceView,
    before: Option<VoiceState>,
    after: VoiceState,
)
    requires
        after.guild_id is Some,
    ensures
        ({
            let now = voice_updated(voice, before, after);
            let g = after.guild_id->0;
            let u = after.user_id;
            let left = channel_left(voice.places, before, g, u);
            &&& forall|g2: GuildId, c2: ChannelId, u2: UserId| #[trigger]
                sits(now.guilds, g2, c2, u2) <==> {
                    ||| g2 == g && u2 == u && after.channel_id == Some(c2)
                    ||| sits(voice.guilds, g2, c2, u2) && !(g2 == g && u2 == u && left == Some(c2))
                }
            &&& after.channel_id is Some ==> now.places.contains_key(u) && now.places[u] == (
                g,
                after.channel_id->0,
            )
            &&& after.channel_id is None && left is Some ==> !now.places.contains_key(u)
            &&& after.channel_id is None && left is None ==> now.places == voice.places
            &&& forall|u2: UserId|
                #![trigger now.places.contains_key(u2)]
                #![trigger voice.places.contains_key(u2)]
                u2 != u ==> {
                    &&& now.places.contains_key(u2) == voice.places.contains_key(u2)
                    &&& voice.places.contains_key(u2) ==> now.places[u2] == voice.places[u2]
                }
        }),
{
    let g = after.guild_id->0;
    let u = after.user_id;
    let left = channel_left(voice.places, before, g, u);
    let middle = voice_left(voice, g, left, u);
    if let Some(c) = left {
        leaving_unseats(voice.guilds, g, c, u);
    }
    if let Some(c) = after.channel_id {
        entering_seats(middle.guilds, g, c, u);
    }
    let now = voice_updated(voice, before, after);
    assert forall|g2: GuildId, c2: ChannelId, u2: UserId| #[trigger]
        sits(now.guilds, g2, c2, u2) <==> {
            ||| g2 == g && u2 == u && after.channel_id == Some(c2)
            ||| sits(voice.guilds, g2, c2, u2) && !(g2 == g && u2 == u && left == Some(c2))
        } by {
        assert(sits(middle.guilds, g2, c2, u2) <==> sits(voice.guilds, g2, c2, u2) && !(g2 == g
            && u2 == u && left == Some(c2)));
    }
}

/// A state that belongs to no guild changes nothing.
pub proof fn state_without_guild_is_ignored(
    voice: VoiceView,
    before: Option<VoiceState>,
    after: VoiceState,
)
    requires
        after.guild_id is None,
    ensures
        voice_updated(voice, before, after) == voice,
{
}

/// Whether the user was seen in the channel.
pub open spec fn seen_in(seen: Seq<SeenUser>, g: GuildId, c: ChannelId, u: UserId) -> bool {
    exists|i: int| 0 <= i < seen.len() && #[trigger] seen[i] == (g, u, Some(c))
}

/// Whether the entry at `i` is the last one that sees its user in a channel.
pub open spec fn last_seat(seen: Seq<SeenUser>, i: int) -> bool {
    &&& 0 <= i < seen.len()
    &&& seen[i].2 is Some
    &&& forall|j: int|
        i < j < seen.len() && (#[trigger] seen[j]).1 == seen[i].1 ==> seen[j].2 is None
}

/// Whether no entry sees the user in a channel.
pub open spec fn never_seated(seen: Seq<SeenUser>, u: UserId) -> bool {
    forall|i: int| 0 <= i < seen.len() && (#[trigger] seen[i]).1 == u ==> seen[i].2 is None
}

/// After the scan everyone who was seen in a channel sits there, beside everyone who
/// sat somewhere before, and nobody else sits anywhere. Whoever was seen in a channel
/// is on record where they were seen last, and the record of everyone else is as
/// before.
pub proof fn scan_seats_everyone(voice: VoiceView, seen: Seq<SeenUser>)
    ensures
        ({
            let now = voice_scanned(voice, seen);
            &&& forall|g: GuildId, c: ChannelId, u: UserId| #[trigger]
                sits(now.guilds, g, c, u) <==> sits(voice.guilds, g, c, u) || seen_in(
                    seen,
                    g,
                    c,
                    u,
                )
            &&& forall|i: int| #[trigger]
                last_seat(seen, i) ==> now.places.contains_key(seen[i].1)
                    && now.places[seen[i].1] == (seen[i].0, seen[i].2->0)
            &&& forall|u: UserId| #[trigger]
                never_seated(seen, u) ==> {
                    &&& now.places.contains_key(u) == voice.places.contains_key(u)
                    &&& voice.places.contains_key(u) ==> now.places[u] == voice.places[u]
                }
        }),
    decreases seen.len(),
{
    let now = voice_scanned(voice, seen);
    if seen.len() > 0 {
        let rest = seen.drop_last();
        let n = seen.len() - 1;
        let (g0, u0, seat) = seen.last();
        let middle = voice_scanned(voice, rest);
        scan_seats_everyone(voice, rest);
        if let Some(c0) = seat {
            entering_seats(middle.guilds, g0, c0, u0);
        }
        assert forall|g: GuildId, c: ChannelId, u: UserId| #[trigger]
            sits(now.guilds, g, c, u) <==> sits(voice.guilds, g, c, u) || seen_in(
                seen,
                g,
                c,
                u,
            ) by {
            assert(sits(middle.guilds, g, c, u) <==> sits(voice.guilds, g, c, u) || seen_in(
                rest,
                g,
                c,
                u,
            ));
            if seen_in(rest, g, c, u) {
                let i = choose|i: int| 0 <= i < rest.len() && #[trigger] rest[i] == (g, u, Some(c));
                assert(seen[i] == (g, u, Some(c)));
            }
            if seen_in(seen, g, c, u) && !seen_in(rest, g, c, u) {
                let i = choose|i: int| 0 <= i < seen.len() && #[trigger] seen[i] == (g, u, Some(c));
                if i < n {
                    assert(rest[i] == (g, u, Some(c)));
                }
            }
            if seat == Some(c) && g == g0 && u == u0 {
                assert(seen[n] == (g, u, Some(c)));
            }
        }
        assert forall|i: int| #[trigger] last_seat(seen, i) implies now.places.contains_key(
            seen[i].1,
        ) && now.places[seen[i].1] == (seen[i].0, seen[i].2->0) by {
            if i < n {
                assert(rest[i] == seen[i]);
                assert forall|j: int|
                    i < j < rest.len() && (#[trigger] rest[j]).1 == rest[i].1 implies rest[j].2
                    is None by {
                    assert(seen[j] == rest[j]);
                }
                assert(last_seat(rest, i));
                assert(seen[n].1 == seen[i].1 ==> seen[n].2 is None);
            }
        }
        assert forall|u: UserId| #[trigger] never_seated(seen, u) implies {
            &&& now.places.contains_key(u) == voice.places.contains_key(u)
            &&& voice.places.contains_key(u) ==> now.places[u] == voice.places[u]
        } by {
            assert forall|i: int| 0 <= i < rest.len() && (#[trigger] rest[i]).1 == u implies rest[i].2
                is None by {
                assert(seen[i] == rest[i]);
            }
            assert(never_seated(rest, u));
            assert(seen[n].1 == u ==> seen[n].2 is None);
        }
    }
}

/// A scan in two parts is a scan of the whole.
pub proof fn scan_can_be_split(voice: VoiceView, first: Seq<SeenUser>, second: Seq<SeenUser>)
    ensures
        voice_scanned(voice_scanned(voice, first), second) == voice_scanned(voice, first + second),
    decreases second.len(),
{
    if second.len() == 0 {
        assert(first + second == first);
    } else {
        scan_can_be_split(voice, first, second.drop_last());
        assert((first + second).drop_last() == first + second.drop_last());
        assert((first + second).last() == second.last());
    }
}

/// The channel in which a command is given: the one on record, where that is in the
/// guild of the command.
pub proof fn command_goes_by_the_record(
    places: Map<UserId, (GuildId, ChannelId)>,
    g: GuildId,
    u: UserId,
    c: ChannelId,
)
    ensures
        channel_in_guild(places, g, u) == Some(c) <==> places.contains_key(u) && places[u] == (
            g,
            c,
        ),
{
}

/// Whoever leaves a voice channel while on record for the room of a voice channel
/// is taken off the record and out of the room. The room is told as it then is, if
/// it has a channel. It goes, with its channel, when nobody is left, and stays with
/// everyone else otherwise. Nothing else changes.
pub proof fn leaving_voice_leaves_the_room<T>(
    lobby: LobbyView,
    channels: Map<Seq<char>, T>,
    user: Seq<char>,
    id: Seq<char>,
)
    requires
        keyed_by_id(lobby),
        lobby.users.contains_key(user),
        lobby.users[user] == id,
        lobby.rooms.contains_key(id),
        "guild-"@.is_prefix_of(id) || "discord"@.is_prefix_of(id),
    ensures
        ({
            let departure = room_departure(lobby, channels, user);
            let after = departure.lobby;
            let alone = forall|u: Seq<char>| #[trigger]
                lobby.rooms[id].members.contains(u) ==> u == user;
            &&& !after.users.contains_key(user)
            &&& other_records_kept(lobby, after, user)
            &&& other_rooms_kept(lobby, after, id)
            &&& after.rooms.contains_key(id) <==> !alone
            &&& !alone ==> lost(lobby.rooms[id], after.rooms[id], user)
            &&& departure.update is Some <==> channels.contains_key(id)
            &&& departure.update is Some ==> departure.update->0.room_id == id
                && departure.update->0.message is RoomState && lost(
                lobby.rooms[id],
                departure.update->0.message->RoomState_0,
                user,
            )
            &&& !alone ==> departure.channels == channels && departure.closed is None
            &&& alone ==> !departure.channels.contains_key(id) && (departure.closed is Some
                <==> channels.contains_key(id))
            &&& departure.closed is Some ==> departure.closed->0 == channels[id]
            &&& forall|k: Seq<char>|
                #![trigger channels.contains_key(k)]
                #![trigger departure.channels.contains_key(k)]
                k != id ==> {
                    &&& departure.channels.contains_key(k) == channels.contains_key(k)
                    &&& channels.contains_key(k) ==> departure.channels[k] == channels[k]
                }
        }),
{
    let rest = without_member(lobby.rooms[id], user);
    let alone = forall|u: Seq<char>| #[trigger]
        lobby.rooms[id].members.contains(u) ==> u == user;
    if alone {
        assert(rest.members =~= Set::<Seq<char>>::empty());
    } else {
        let u = choose|u: Seq<char>| #[trigger]
            lobby.rooms[id].members.contains(u) && u != user;
        assert(rest.members.contains(u));
    }
}

/// Whoever leaves a voice channel while on record for no room, or for a room that
/// belongs to no voice channel, changes nothing. A record for a room that went is
/// dropped.
pub proof fn leaving_voice_spares_the_rest<T>(
    lobby: LobbyView,
    channels: Map<Seq<char>, T>,
    user: Seq<char>,
)
    requires
        lobby.users.contains_key(user) && ("guild-"@.is_prefix_of(lobby.users[user])
            || "discord"@.is_prefix_of(lobby.users[user])) ==> !lobby.rooms.contains_key(
            lobby.users[user],
        ),
    ensures
        ({
            let departure = room_departure(lobby, channels, user);
            let stale = lobby.users.contains_key(user) && ("guild-"@.is_prefix_of(
                lobby.users[user],
            ) || "discord"@.is_prefix_of(lobby.users[user]));
            &&& departure.lobby.rooms == lobby.rooms
            &&& other_records_kept(lobby, departure.lobby, user)
            &&& stale ==> !departure.lobby.users.contains_key(user)
            &&& !stale ==> departure.lobby == lobby
            &&& departure.channels == channels
            &&& departure.update is None
            &&& departure.closed is None
        }),
{
}

// Conversations.

/// When a conversation ends, its user goes out of its room as on leaving. Where a
/// user or a room is missing, nothing changes and nobody is told.
pub proof fn closing_takes_the_user_out<T>(
    session: SessionView,
    lobby: LobbyView,
    channels: Map<Seq<char>, T>,
)
    ensures
        ({
            let after = lobby_closed(session, lobby);
            if session.user is Some && session.room is Some {
                let user = session.user->0;
                let id = session.room->0;
                &&& after.rooms.contains_key(id) == lobby.rooms.contains_key(id)
                &&& lobby.rooms.contains_key(id) ==> lost(
                    lobby.rooms[id],
                    after.rooms[id],
                    user,
                )
                &&& after.users.contains_key(user) <==> lobby.users.contains_key(user)
                    && lobby.users[user] != id
                &&& after.users.contains_key(user) ==> after.users[user] == lobby.users[user]
                &&& other_rooms_kept(lobby, after, id)
                &&& other_records_kept(lobby, after, user)
            } else {
                &&& after == lobby
                &&& closing_update(session, lobby, channels) is None
            }
        }),
{
}

/// When a conversation ends for a user who is in the room, and the room has a
/// channel, everyone on it is told the room as it then stands: without the user, and
/// with everyone else who was in it, however many are left. In no other case is
/// anyone told.
pub proof fn closing_tells_those_who_stay<T>(
    session: SessionView,
    lobby: LobbyView,
    channels: Map<Seq<char>, T>,
    user: Seq<char>,
    id: Seq<char>,
)
    requires
        session.user == Some(user),
        session.room == Some(id),
    ensures
        ({
            let update = closing_update(session, lobby, channels);
            let after = lobby_closed(session, lobby);
            &&& update is Some <==> lobby.rooms.contains_key(id)
                && lobby.rooms[id].members.contains(user) && channels.contains_key(id)
            &&& update is Some ==> {
                &&& update->0.room_id == id
                &&& update->0.message == ServerMessageView::RoomState(after.rooms[id])
                &&& lost(lobby.rooms[id], after.rooms[id], user)
            }
        }),
{
}

/// What a client in a room is told to its messages.
pub proof fn messages_in_a_room(
    session: SessionView,
    now: u128,
    auth: AuthInfoType,
    text: String,
    capacity: usize,
)
    requires
        session.user is Some,
    ensures
        event_reaction(session, now, SocketEvent::Text(ClientMessage::Ping))
            == ReactionView::Reply(ServerMessageView::Pong),
        event_reaction(
            session,
            now,
            SocketEvent::Text(ClientMessage::LeaveRoom { room_id: text }),
        ) == ReactionView::Close,
        event_reaction(
            session,
            now,
            SocketEvent::Text(ClientMessage::Connect { auth, room_id: text }),
        ) == ReactionView::Reply(ServerMessageView::Error { message: "Already in a room."@ }),
        event_reaction(
            session,
            now,
            SocketEvent::Text(
                ClientMessage::CreateRoom { auth, max_capacity: capacity, name: text },
            ),
        ) == ReactionView::Reply(ServerMessageView::Error { message: "Already in a room."@ }),
{
}

/// What a client that is in no room is told to its messages. Only a connect is
/// followed up, as it was sent.
pub proof fn messages_before_a_room(
    session: SessionView,
    now: u128,
    auth: AuthInfoType,
    text: String,
    capacity: usize,
)
    requires
        session.user is None,
    ensures
        ({
            let told = ReactionView::Reply(
                ServerMessageView::Error {
                    message: "Not connected. Send a Connect message first."@,
                },
            );
            &&& event_reaction(session, now, SocketEvent::Text(ClientMessage::Ping)) == told
            &&& event_reaction(
                session,
                now,
                SocketEvent::Text(ClientMessage::LeaveRoom { room_id: text }),
            ) == told
            &&& event_reaction(
                session,
                now,
                SocketEvent::Text(
                    ClientMessage::CreateRoom { auth, max_capacity: capacity, name: text },
                ),
            ) == told
            &&& event_reaction(
                session,
                now,
                SocketEvent::Text(ClientMessage::Connect { auth, room_id: text }),
            ) == (ReactionView::Connect { auth, room_id: text@ })
        }),
{
}

/// A text that is no message is answered with what is wrong with it. Frames without
/// a text are waited out, and a failure or the end of the connection ends the
/// conversation.
pub proof fn other_frames(session: SessionView, now: u128, error: String)
    ensures
        event_reaction(session, now, SocketEvent::Malformed { error }) == ReactionView::Reply(
            ServerMessageView::Error { message: "Invalid message: "@ + error@ },
        ),
        event_reaction(session, now, SocketEvent::Ping) == ReactionView::Wait,
        event_reaction(session, now, SocketEvent::Pong) == ReactionView::Wait,
        event_reaction(session, now, SocketEvent::Other) == ReactionView::Wait,
        event_reaction(session, now, SocketEvent::Close) == ReactionView::Close,
        event_reaction(session, now, SocketEvent::Failed) == ReactionView::Close,
{
}

/// While the client is not silent for too long, the state of its own room is passed
/// on as it came, and no other message from the channel is. The timer, missed
/// messages and the end of the channel are waited out.
pub proof fn updates_are_relayed(
    session: SessionView,
    now: u128,
    message: ServerMessage,
    missed: u64,
)
    requires
        now < session.last_heartbeat + 30 * 1_000_000_000,
    ensures
        ({
            let ours = message@ matches ServerMessageView::RoomState(room) && session.room == Some(
                room.room_id,
            );
            let reaction = event_reaction(session, now, SocketEvent::Update(message));
            &&& ours ==> reaction == ReactionView::Reply(message@)
            &&& !ours ==> reaction == ReactionView::Wait
            &&& event_reaction(session, now, SocketEvent::Timer) == ReactionView::Wait
            &&& event_reaction(session, now, SocketEvent::Lagged { missed }) == ReactionView::Wait
            &&& event_reaction(session, now, SocketEvent::ChannelClosed) == ReactionView::Wait
        }),
{
}

/// A client that has been silent for thirty seconds is cut off by the timer and by
/// whatever comes from the room's channel.
pub proof fn thirty_seconds_are_the_limit(
    session: SessionView,
    now: u128,
    message: ServerMessage,
    missed: u64,
)
    requires
        now >= session.last_heartbeat + 30 * 1_000_000_000,
    ensures
        event_reaction(session, now, SocketEvent::Timer) == ReactionView::Close,
        event_reaction(session, now, SocketEvent::Update(message)) == ReactionView::Close,
        event_reaction(session, now, SocketEvent::Lagged { missed }) == ReactionView::Close,
        event_reaction(session, now, SocketEvent::ChannelClosed) == ReactionView::Close,
{
}

/// The time left is what lacks to thirty seconds of silence, never less than none
/// and never more than the whole.
pub proof fn time_left_lacks_to_the_limit(session: SessionView, now: u128)
    ensures
        now < session.last_heartbeat ==> patience(session, now) == 30 * 1_000_000_000,
        session.last_heartbeat <= now <= session.last_heartbeat + 30 * 1_000_000_000 ==> now
            + patience(session, now) == session.last_heartbeat + 30 * 1_000_000_000,
        now > session.last_heartbeat + 30 * 1_000_000_000 ==> patience(session, now) == 0,
{
}

/// Whatever the client sends counts as a sign of life, and nothing else does. Only
/// the end of the channel ends a subscription. The user and the room stay.
pub proof fn events_leave_the_session(session: SessionView, now: u128, event: SocketEvent)
    ensures
        ({
            let after = session_after(session, now, event);
            let own = event is Text || event is Malformed || event is Close || event is Ping
                || event is Pong || event is Failed || event is Other;
            &&& own ==> after.last_heartbeat == now
            &&& !own ==> after.last_heartbeat == session.last_heartbeat
            &&& event is ChannelClosed ==> !after.subscribed
            &&& !(event is ChannelClosed) ==> after.subscribed == session.subscribed
            &&& after.user == session.user
            &&& after.room == session.room
        }),
{
}

/// A connect gets its user into the room exactly when the sign-in holds, the user is
/// in no room that is there, and the room is there and has a place. Each reason
/// against it has its words.
pub proof fn connect_reasons(
    lobby: LobbyView,
    places: Map<UserId, (GuildId, ChannelId)>,
    auth: AuthInfoType,
    room_id: Seq<char>,
)
    ensures
        ({
            let outcome = connect_outcome(lobby, places, auth, room_id);
            let known = auth_outcome(auth, places) is Ok;
            let user = signed_in_as(auth);
            let busy = lobby.users.contains_key(user) && lobby.rooms.contains_key(
                lobby.users[user],
            );
            let there = lobby.rooms.contains_key(room_id);
            let places_left = lobby.rooms[room_id].members.len()
                < lobby.rooms[room_id].max_capacity;
            &&& !known ==> outcome == Err::<(Seq<char>, RoomView), Seq<char>>(
                auth_outcome(auth, places)->Err_0,
            )
            &&& known && busy ==> outcome == Err::<(Seq<char>, RoomView), Seq<char>>(
                "User is already in a room."@,
            )
            &&& known && !busy && !there ==> outcome == Err::<(Seq<char>, RoomView), Seq<char>>(
                "Room not found"@,
            )
            &&& known && !busy && there && !places_left ==> outcome == Err::<
                (Seq<char>, RoomView),
                Seq<char>,
            >("Room is full"@)
            &&& known && !busy && there && places_left ==> outcome is Ok
        }),
{
}

/// Whoever gets in by a connect is the one who signed in, is then among the members
/// beside everyone who was, and is on record for the room. The room that comes back
/// is the one that then stands. Nothing else changes.
pub proof fn connecting_puts_the_user_in(
    lobby: LobbyView,
    places: Map<UserId, (GuildId, ChannelId)>,
    auth: AuthInfoType,
    room_id: Seq<char>,
)
    requires
        connect_outcome(lobby, places, auth, room_id) is Ok,
    ensures
        ({
            let given = connect_outcome(lobby, places, auth, room_id)->Ok_0;
            let after = lobby_after_connect(lobby, places, auth, room_id);
            let user = signed_in_as(auth);
            &&& given.0 == user
            &&& after.rooms.contains_key(room_id)
            &&& given.1 == after.rooms[room_id]
            &&& given.1.members.contains(user)
            &&& gained(lobby.rooms[room_id], given.1, user)
            &&& after.users.contains_key(user) && after.users[user] == room_id
            &&& other_rooms_kept(lobby, after, room_id)
            &&& other_records_kept(lobby, after, user)
        }),
{
}

/// A refused connect leaves the rooms alone, and every record but one for a room
/// that went.
pub proof fn refused_connect_keeps_the_rooms(
    lobby: LobbyView,
    places: Map<UserId, (GuildId, ChannelId)>,
    auth: AuthInfoType,
    room_id: Seq<char>,
)
    requires
        connect_outcome(lobby, places, auth, room_id) is Err,
    ensures
        ({
            let after = lobby_after_connect(lobby, places, auth, room_id);
            let user = signed_in_as(auth);
            &&& after.rooms == lobby.rooms
            &&& other_records_kept(lobby, after, user)
            &&& auth_outcome(auth, places) is Err ==> after == lobby
            &&& lobby.users.contains_key(user) && lobby.rooms.contains_key(lobby.users[user])
                ==> after == lobby
            &&& auth_outcome(auth, places) is Ok && !(lobby.users.contains_key(user)
                && lobby.rooms.contains_key(lobby.users[user])) ==> !after.users.contains_key(
                user,
            )
        }),
{
}

// Sign-in.

/// A general user is taken at their word, by both checks.
pub proof fn general_users_are_believed(
    user_id: String,
    places: Map<UserId, (GuildId, ChannelId)>,
)
    ensures
        auth_outcome(AuthInfoType::General { user_id }, places) == Ok::<Seq<char>, Seq<char>>(
            user_id@,
        ),
        connection_outcome(FirstMessage::Auth(AuthInfoType::General { user_id }), places) == Ok::<
            Seq<char>,
            Option<Seq<char>>,
        >(user_id@),
        ids_usable(AuthInfoType::General { user_id }),
{
}

/// A user of the chat service is accepted exactly when the three ids are numbers and
/// the user is on record in that channel of that guild. The check of a connect gives
/// the user as written, the other one by the number.
pub proof fn chat_users_must_sit_there(
    user_id: String,
    guild_id: String,
    channel_id: String,
    places: Map<UserId, (GuildId, ChannelId)>,
)
    ensures
        ({
            let auth = AuthInfoType::Discord { user_id, guild_id, channel_id };
            let checked = auth_outcome(auth, places);
            let awaited = connection_outcome(FirstMessage::Auth(auth), places);
            let numbers = parsed_u64(user_id@) is Some && parsed_u64(guild_id@) is Some
                && parsed_u64(channel_id@) is Some;
            let u = parsed_u64(user_id@)->0;
            let seated = places.contains_key(u) && places[u].0 == parsed_u64(guild_id@)->0
                && places[u].1 == parsed_u64(channel_id@)->0;
            &&& !numbers ==> checked == Err::<Seq<char>, Seq<char>>(
                "Invalid user, guild or channel ID"@,
            ) && awaited == Err::<Seq<char>, Option<Seq<char>>>(
                Some("Invalid user, guild or channel ID"@),
            )
            &&& numbers && !seated ==> checked == Err::<Seq<char>, Seq<char>>(
                "Invalid voice channel"@,
            ) && awaited == Err::<Seq<char>, Option<Seq<char>>>(Some("Invalid voice channel"@))
            &&& numbers && seated ==> checked == Ok::<Seq<char>, Seq<char>>(user_id@) && awaited
                == Ok::<Seq<char>, Option<Seq<char>>>(decimal(u as nat))
            &&& ids_usable(auth) <==> parsed_u64(user_id@) != Some(0u64) && parsed_u64(guild_id@)
                != Some(0u64) && parsed_u64(channel_id@) != Some(0u64)
        }),
{
}

/// A first message that is no sign-in is answered with what is wrong with it, and
/// one that never comes with nothing.
pub proof fn first_messages_without_sign_in(
    error: String,
    places: Map<UserId, (GuildId, ChannelId)>,
)
    ensures
        connection_outcome(FirstMessage::Malformed { error }, places) == Err::<
            Seq<char>,
            Option<Seq<char>>,
        >(Some("Invalid auth message format: "@ + error@)),
        connection_outcome(FirstMessage::Missing, places) == Err::<Seq<char>, Option<Seq<char>>>(
            None,
        ),
{
}

// Settings.

/// The surroundings go by the setting: development where it says so or says nothing,
/// production where it says so, and nothing else is known.
pub proof fn settings_name_the_surroundings(name: Seq<char>)
    ensures
        named_env(None) == Some(AppEnv::Development),
        named_env(Some("development"@)) == Some(AppEnv::Development),
        named_env(Some("production"@)) == Some(AppEnv::Production),
        name != "development"@ && name != "production"@ ==> named_env(Some(name)) is None,
        setting_text(None) is None,
        forall|text: &str| #[trigger] setting_text(Some(text)) == Some(text@),
{
    reveal_strlit("development");
    reveal_strlit("production");
    assert("development"@.len() != "production"@.len());
}

// Numbers as text.

/// The decimal digits stand for the numbers below ten, each for its own.
pub proof fn digits_stand_for_themselves(d: int, c: char)
    ensures
        0 <= d < 10 ==> digit_char(d) as int == '0' as int + d && is_digit(digit_char(d))
            && digit_value(digit_char(d)) == d,
        is_digit(c) <==> '0' as int <= c as int <= '9' as int,
        is_digit(c) ==> digit_char(digit_value(c)) == c,
{
}

/// A run of digits counts by places: what stands before `n` digits counts ten to the
/// power of `n` times. One digit stands for itself, and no digit for nothing.
pub proof fn digits_count_by_places(a: Seq<char>, b: Seq<char>, c: char)
    ensures
        digits_value(Seq::<char>::empty()) == 0,
        digits_value(seq![c]) == c as int - '0' as int,
        digits_value(a + b) == digits_value(a) * pow(10, b.len()) + digits_value(b),
    decreases b.len(),
{
    assert(seq![c].drop_last() == Seq::<char>::empty());
    assert(digits_value(seq![c].drop_last()) == 0);
    if b.len() == 0 {
        assert(a + b == a);
        lemma_pow0(10);
    } else {
        digits_count_by_places(a, b.drop_last(), c);
        assert((a + b).drop_last() == a + b.drop_last());
        assert((a + b).last() == b.last());
        lemma_pow_adds(10, 1, (b.len() - 1) as nat);
        lemma_pow1(10);
        let p = pow(10, (b.len() - 1) as nat);
        let v = digits_value(a);
        assert(10 * (v * p) == v * (10 * p)) by (nonlinear_arith);
    }
}

/// A run of digits can be read exactly when it is not empty and not too large, with
/// or without a plus sign before it, and gives the number that it stands for.
pub proof fn digits_can_be_read(d: Seq<char>)
    requires
        forall|i: int| 0 <= i < d.len() ==> '0' <= #[trigger] d[i] <= '9',
    ensures
        d.len() > 0 && digits_value(d) <= u64::MAX ==> parsed_u64(d) == Some(
            digits_value(d) as u64,
        ) && digits_value(d) >= 0,
        d.len() == 0 || digits_value(d) > u64::MAX ==> parsed_u64(d) is None,
        parsed_u64(seq!['+'] + d) == parsed_u64(d),
{
    let signed = seq!['+'] + d;
    assert(signed.skip(1) == d);
    if d.len() > 0 {
        assert(d[0] != '+');
    }
    lemma_not_negative(d);
}

/// A run of digits stands for no negative number.
proof fn lemma_not_negative(d: Seq<char>)
    requires
        forall|i: int| 0 <= i < d.len() ==> '0' <= #[trigger] d[i] <= '9',
    ensures
        digits_value(d) >= 0,
    decreases d.len(),
{
    if d.len() > 0 {
        lemma_not_negative(d.drop_last());
        assert('0' <= d[d.len() - 1]);
    }
}

/// A text with anything but digits in it, past a plus sign at the start, cannot be
/// read.
pub proof fn nothing_else_can_be_read(s: Seq<char>, i: int)
    requires
        0 <= i < s.len(),
        !('0' <= s[i] <= '9'),
        i > 0 || s[0] != '+',
    ensures
        parsed_u64(s) is None,
{
    if s[0] == '+' {
        assert(s.skip(1)[i - 1] == s[i]);
    }
}

/// A number is written in digits, with none too many at the front, and stands for
/// itself.
pub proof fn decimal_is_plain(n: nat)
    ensures
        decimal(n).len() > 0,
        forall|i: int| 0 <= i < decimal(n).len() ==> '0' <= #[trigger] decimal(n)[i] <= '9',
        decimal(n)[0] == '0' ==> n == 0 && decimal(n).len() == 1,
        digits_value(decimal(n)) == n,
    decreases n,
{
    if n < 10 {
        assert(decimal(n).drop_last() == Seq::<char>::empty());
        assert(digits_value(Seq::<char>::empty()) == 0);
    } else {
        decimal_is_plain(n / 10);
        assert(decimal(n).drop_last() == decimal(n / 10));
        assert(decimal(n)[0] == decimal(n / 10)[0]);
    }
}

/// A number is written to a width with that many digits, and stands for itself where
/// it fits.
pub proof fn padding_keeps_the_number(n: nat, width: nat)
    ensures
        zero_padded(n, width).len() == width,
        forall|i: int| 0 <= i < width ==> '0' <= #[trigger] zero_padded(n, width)[i] <= '9',
        n < pow(10, width) ==> digits_value(zero_padded(n, width)) == n,
    decreases width,
{
    if width == 0 {
        lemma_pow0(10);
    } else {
        padding_keeps_the_number(n / 10, (width - 1) as nat);
        assert(zero_padded(n, width).drop_last() == zero_padded(n / 10, (width - 1) as nat));
        lemma_pow_adds(10, 1, (width - 1) as nat);
        lemma_pow1(10);
    }
}

/// The number of a room has twelve decimal digits.
pub proof fn room_numbers_have_twelve_digits(s: Seq<char>)
    ensures
        is_room_number(s) <==> s.len() == 12 && forall|i: int|
            0 <= i < 12 ==> '0' <= #[trigger] s[i] <= '9',
{
    if s.len() == 12 && forall|i: int| 0 <= i < 12 ==> '0' <= #[trigger] s[i] <= '9' {
        assert forall|i: int| 0 <= i < s.len() implies is_digit(#[trigger] s[i]) by {}
    }
    if is_room_number(s) {
        assert forall|i: int| 0 <= i < 12 implies '0' <= #[trigger] s[i] <= '9' by {
            assert(is_digit(s[i]));
        }
    }
}

/// A random UUID has its hyphens, its version and its variant in their places, and
/// lower-case hexadecimal digits everywhere else.
pub proof fn uuids_have_their_marks(s: Seq<char>, i: int)
    requires
        is_uuid_v4(s),
        0 <= i < 36,
    ensures
        s.len() == 36,
        s[8] == '-' && s[13] == '-' && s[18] == '-' && s[23] == '-',
        s[14] == '4',
        s[19] == '8' || s[19] == '9' || s[19] == 'a' || s[19] == 'b',
        s[i] == '-' || '0' <= s[i] <= '9' || 'a' <= s[i] <= 'f',
{
}

/// A stamp of the clock is long enough for a date, a time and the offset of UTC, and
/// ends in that offset. One with a year of four digits has its separators in their
/// places and can be read back.
pub proof fn clock_stamps_have_a_form(stamp: Seq<char>)
    requires
        clock_stamp(stamp),
    ensures
        stamp.len() >= 25,
        "+00:00"@.is_suffix_of(stamp),
        stamp[0] == '+' || '0' <= stamp[0] <= '9',
        stamp[0] != '+' ==> {
            &&& stamp[4] == '-' && stamp[7] == '-' && stamp[10] == 'T'
            &&& stamp[13] == ':' && stamp[16] == ':'
            &&& rfc3339_instant(stamp) is Some
        },
{
    let y = choose|y: int| #[trigger] stamp_form(stamp, y);
    if y == 4 {
        assert(is_digit(stamp[0]));
    }
}

// What the models show of the data.

/// A room, and a room as it goes out, show each of their fields.
pub proof fn rooms_show_their_fields(room: Room, sent: RoomSerialize)
    ensures
        room@.room_id == room.room_id@,
        room@.name == room.name@,
        room@.owner_id == room.owner_id@,
        room@.created_at == room.created_at@,
        room@.max_capacity == room.max_capacity,
        room@.members == room.members@,
        sent@.room_id == sent.room_id@,
        sent@.name == sent.name@,
        sent@.owner_id == sent.owner_id@,
        sent@.created_at == sent.created_at@,
        sent@.max_capacity == sent.max_capacity,
        sent@.members == sent.members@,
{
}

/// A state without anything shows no room and no record.
pub proof fn empty_state_shows_nothing(id: Seq<char>)
    ensures
        !empty_lobby().rooms.contains_key(id),
        !empty_lobby().users.contains_key(id),
{
}

/// The state shows every room and every record, and no other.
pub proof fn state_shows_rooms_and_records(state: AppRoomState, id: Seq<char>)
    ensures
        state@.rooms.contains_key(id) == state.room_map@.contains_key(id),
        state@.rooms.contains_key(id) ==> state@.rooms[id] == state.room_map@[id]@,
        state@.users.contains_key(id) == state.user_map@.contains_key(id),
        state@.users.contains_key(id) ==> state@.users[id] == state.user_map@[id]@,
{
}

/// The voice channels show every guild, every channel and every user in one, and no
/// other.
pub proof fn voice_shows_every_seat(
    voice_map: VoiceChannelMap,
    places: UserVoiceMap,
    g: GuildId,
    c: ChannelId,
    u: UserId,
)
    ensures
        ({
            let shown = voice_view(voice_map, places);
            let kept = voice_map.map@;
            &&& shown.guilds.contains_key(g) == kept.contains_key(g)
            &&& listed(shown.guilds, g, c) <==> kept.contains_key(g) && kept[g]@.contains_key(c)
            &&& sits(shown.guilds, g, c, u) <==> kept.contains_key(g) && kept[g]@.contains_key(c)
                && kept[g]@[c]@.contains(u)
            &&& shown.places == places@
        }),
{
}

/// A message, an update, a reaction and a refusal show what they carry.
pub proof fn messages_show_what_they_carry(
    text: String,
    room: RoomSerialize,
    message: ServerMessage,
    update: RoomUpdate,
    auth: AuthInfoType,
    error: ApiError,
)
    ensures
        (ServerMessage::Error { message: text })@ == (ServerMessageView::Error { message: text@ }),
        ServerMessage::RoomState(room)@ == ServerMessageView::RoomState(room@),
        ServerMessage::Pong@ == ServerMessageView::Pong,
        update@.room_id == update.room_id@,
        update@.message == update.message@,
        update_view(Some(update)) == Some(update@),
        update_view(None) is None,
        Reaction::Wait@ == ReactionView::Wait,
        Reaction::Reply(message)@ == ReactionView::Reply(message@),
        Reaction::Dismiss(message)@ == ReactionView::Dismiss(message@),
        Reaction::Close@ == ReactionView::Close,
        (Reaction::Connect { auth, room_id: text })@ == (ReactionView::Connect {
            auth,
            room_id: text@,
        }),
        error@.status_code == error.status_code,
        error@.message == error.message@,
{
}

/// A session shows its user, its room, its subscription and its last sign of life.
pub proof fn sessions_show_their_fields(session: Session)
    ensures
        session@.user is Some <==> session.user_id is Some,
        session.user_id is Some ==> session@.user->0 == session.user_id->0@,
        session@.room is Some <==> session.current_room_id is Some,
        session.current_room_id is Some ==> session@.room->0 == session.current_room_id->0@,
        session@.subscribed == session.subscribed,
        session@.last_heartbeat == session.last_heartbeat,
{
}

} // verus!
