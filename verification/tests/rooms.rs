use activity_lobby::clock::{is_expired, nanos_from, stamp_expired};
use activity_lobby::collections::{StringMap, StringSet};
use activity_lobby::payloads::{
    CreateRoomRequestPayload, CreateRoomResponsePayload, GetAllRoomsPayload,
    JoinRoomRequestPayload, JoinRoomResponsePayload,
};
use activity_lobby::rooms::{
    create_room, create_room_at, delete_rooms, expired_rooms, get_all_rooms, initial_state,
    join_room, rooms_to_delete, JoinRefusal, Joined,
};
use activity_lobby::types::{
    ApiError, AppRoomState, AuthInfoType, Room, RoomSerialize, ServerMessage,
};
use activity_lobby::utils::{generate_random_uuid, generate_room_id, room_number_text};
use chrono::{DateTime, Utc};

fn s(text: &str) -> String {
    text.to_string()
}

fn discord(user: &str, guild: &str, channel: &str) -> AuthInfoType {
    AuthInfoType::Discord {
        user_id: s(user),
        guild_id: s(guild),
        channel_id: s(channel),
    }
}

fn general(user: &str) -> AuthInfoType {
    AuthInfoType::General { user_id: s(user) }
}

fn request(name: &str, max_capacity: usize, auth: AuthInfoType) -> CreateRoomRequestPayload {
    CreateRoomRequestPayload {
        name: s(name),
        max_capacity,
        auth,
    }
}

fn open(
    state: &mut AppRoomState,
    channels: &mut StringMap<u8>,
    max_capacity: usize,
    auth: AuthInfoType,
) -> Result<CreateRoomResponsePayload, ApiError> {
    create_room_at(
        state,
        channels,
        7,
        request("Fight", max_capacity, auth),
        s("2025-06-01T12:00:00+00:00"),
        s("000000000042"),
    )
}

fn join(
    state: &mut AppRoomState,
    channels: &StringMap<u8>,
    user: &str,
    room: &str,
) -> Result<Joined, ApiError> {
    join_room(
        state,
        channels,
        JoinRoomRequestPayload {
            user_id: s(user),
            room_id: s(room),
        },
    )
}

fn sorted(mut list: Vec<String>) -> Vec<String> {
    list.sort();
    list
}

fn members(state: &AppRoomState, room: &str) -> Vec<String> {
    sorted(state.room_map.get(&s(room)).unwrap().members.to_vec())
}

fn refusal<T>(res: Result<T, ApiError>) -> (u16, String) {
    match res {
        Ok(_) => panic!("expected a refusal"),
        Err(e) => (e.status_code, e.message),
    }
}

#[test]
fn starts_with_the_public_lobby() {
    let state = initial_state();
    let lines = get_all_rooms(&state);
    assert_eq!(lines.len(), 1);
    assert_eq!(lines[0].room_id, "general_lobby_1");
    assert_eq!(lines[0].name, "Public Lobby");
    assert_eq!(lines[0].owner_id, "system");
    assert_eq!(lines[0].created_at, "2025-01-01T00:00:00Z");
    assert_eq!(lines[0].max_capacity, 20);
    assert_eq!(lines[0].number_of_members, 0);
    assert_eq!(state.user_map.len(), 0);
}

#[test]
fn opens_a_voice_channel_room() {
    let mut state = AppRoomState::default();
    let mut channels: StringMap<u8> = StringMap::new();
    let answer = open(&mut state, &mut channels, 4, discord("discord-5", "11", "22")).unwrap();
    assert_eq!(answer.response_type, "create_room");
    assert_eq!(answer.room_id, "guild-11_22");
    assert_eq!(answer.owner_id, "discord-5");
    assert_eq!(answer.name, "Fight");
    assert_eq!(answer.created_at, "2025-06-01T12:00:00+00:00");
    assert_eq!(answer.max_capacity, 4);
    assert_eq!(members(&state, "guild-11_22"), vec![s("discord-5")]);
    assert_eq!(state.user_map.get(&s("discord-5")), Some(&s("guild-11_22")));
    assert_eq!(channels.get(&s("guild-11_22")), Some(&7));
}

#[test]
fn opens_a_general_room() {
    let mut state = AppRoomState::default();
    let mut channels: StringMap<u8> = StringMap::new();
    let answer = open(&mut state, &mut channels, 4, general("general-x")).unwrap();
    assert_eq!(answer.room_id, "general-000000000042");
    assert_eq!(answer.owner_id, "general-x");
}

#[test]
fn refuses_a_user_id_of_the_wrong_kind() {
    let mut state = AppRoomState::default();
    let mut channels: StringMap<u8> = StringMap::new();
    for auth in [
        discord("general-5", "11", "22"),
        general("discord-5"),
        general(""),
        discord("Discord-5", "11", "22"),
        discord("discordant", "11", "22"),
        discord("discord", "11", "22"),
        general("generally"),
    ] {
        let res = open(&mut state, &mut channels, 4, auth);
        assert_eq!(refusal(res), (400, s("Invalid user ID format")));
    }
    assert_eq!(state.room_map.len(), 0);
    assert_eq!(state.user_map.len(), 0);
    assert_eq!(channels.len(), 0);
}

#[test]
fn refuses_a_second_room_for_a_voice_channel() {
    let mut state = AppRoomState::default();
    let mut channels: StringMap<u8> = StringMap::new();
    open(&mut state, &mut channels, 4, discord("discord-5", "11", "22")).unwrap();
    let res = open(&mut state, &mut channels, 4, discord("discord-6", "11", "22"));
    assert_eq!(refusal(res), (400, s("Room already exists")));
    assert_eq!(members(&state, "guild-11_22"), vec![s("discord-5")]);
    assert!(!state.user_map.contains_key(&s("discord-6")));
}

#[test]
fn a_user_id_may_equal_a_room_id() {
    let mut state = AppRoomState::default();
    let mut channels: StringMap<u8> = StringMap::new();
    open(&mut state, &mut channels, 4, general("general-a")).unwrap();
    let answer = create_room_at(
        &mut state,
        &mut channels,
        7,
        request("Other", 4, general("general-000000000042")),
        s("2025-06-01T12:00:00+00:00"),
        s("000000000043"),
    );
    assert_eq!(answer.unwrap().room_id, "general-000000000043");
}

#[test]
fn a_user_in_a_room_opens_no_other() {
    let mut state = initial_state();
    let mut channels: StringMap<u8> = StringMap::new();
    open(&mut state, &mut channels, 4, discord("discord-5", "11", "22")).unwrap();
    join(&mut state, &channels, "general-b", "general_lobby_1").unwrap();
    for auth in [discord("discord-5", "11", "33"), general("general-b")] {
        let res = open(&mut state, &mut channels, 4, auth);
        assert_eq!(refusal(res), (400, s("User already in a room")));
    }
    assert_eq!(state.room_map.len(), 2);
    assert_eq!(channels.len(), 1);
    assert_eq!(state.user_map.get(&s("discord-5")), Some(&s("guild-11_22")));
    state.remove_member(&s("discord-5"), &s("guild-11_22"));
    open(&mut state, &mut channels, 4, discord("discord-5", "11", "33")).unwrap();
}

#[test]
fn opens_a_room_now() {
    let mut state = AppRoomState::default();
    let mut channels: StringMap<u8> = StringMap::new();
    let before = Utc::now();
    let answer = create_room(
        &mut state,
        &mut channels,
        1,
        request("Now", 3, general("general-a")),
    )
    .unwrap();
    let after = Utc::now();
    let made = DateTime::parse_from_rfc3339(&answer.created_at).unwrap();
    assert!(before <= made && made <= after);
    assert!(answer.created_at.ends_with("+00:00"));
    let number = answer.room_id.strip_prefix("general-").unwrap();
    assert_eq!(number.len(), 12);
    assert!(number.chars().all(|c| c.is_ascii_digit()));
    assert_eq!(channels.get(&answer.room_id), Some(&1));
}

#[test]
fn room_numbers_differ() {
    let ids: Vec<String> = (0..20).map(|_| generate_room_id()).collect();
    assert!(ids.iter().any(|id| *id != ids[0]));
    assert!(ids.iter().all(|id| id.len() == 12));
    assert_eq!(room_number_text(0), "000000000000");
    assert_eq!(room_number_text(42), "000000000042");
    assert_eq!(room_number_text(999_999_999_999), "999999999999");
}

#[test]
fn uuids_have_the_usual_form() {
    let id = generate_random_uuid();
    let chars: Vec<char> = id.chars().collect();
    assert_eq!(chars.len(), 36);
    for i in [8, 13, 18, 23] {
        assert_eq!(chars[i], '-');
    }
    assert_eq!(chars[14], '4');
    assert!("89ab".contains(chars[19]));
    assert_eq!(uuid::Uuid::parse_str(&id).unwrap().to_string(), id);
    assert_ne!(id, generate_random_uuid());
}

#[test]
fn joins_a_room_and_tells_it() {
    let mut state = AppRoomState::default();
    let mut channels: StringMap<u8> = StringMap::new();
    open(&mut state, &mut channels, 2, discord("discord-5", "11", "22")).unwrap();
    let joined = join(&mut state, &channels, "bob", "guild-11_22").unwrap();
    assert_eq!(joined.answer.response_type, "join_room");
    assert_eq!(joined.answer.room_id, "guild-11_22");
    assert_eq!(joined.answer.name, "Fight");
    assert_eq!(joined.answer.owner_id, "discord-5");
    assert_eq!(joined.answer.created_at, "2025-06-01T12:00:00+00:00");
    assert_eq!(joined.answer.max_capacity, 2);
    assert_eq!(sorted(joined.answer.members), vec![s("bob"), s("discord-5")]);
    let update = joined.update.unwrap();
    assert_eq!(update.room_id, "guild-11_22");
    match update.message {
        ServerMessage::RoomState(room) => {
            assert_eq!(room.room_id, "guild-11_22");
            assert_eq!(sorted(room.members.to_vec()), vec![s("bob"), s("discord-5")]);
        }
        _ => panic!("expected the state of the room"),
    }
}

#[test]
fn joins_a_room_without_a_channel_in_silence() {
    let mut state = initial_state();
    let channels: StringMap<u8> = StringMap::new();
    let joined = join(&mut state, &channels, "bob", "general_lobby_1").unwrap();
    assert!(joined.update.is_none());
    assert_eq!(members(&state, "general_lobby_1"), vec![s("bob")]);
}

#[test]
fn refuses_to_join_when_in_a_room() {
    let mut state = initial_state();
    let mut channels: StringMap<u8> = StringMap::new();
    open(&mut state, &mut channels, 4, discord("discord-5", "11", "22")).unwrap();
    join(&mut state, &channels, "bob", "general_lobby_1").unwrap();
    for room in ["general_lobby_1", "guild-11_22", "nowhere"] {
        let res = join(&mut state, &channels, "bob", room);
        assert_eq!(refusal(res), (400, s("User already in room")));
    }
    let res = join(&mut state, &channels, "discord-5", "general_lobby_1");
    assert_eq!(refusal(res), (400, s("User already in room")));
    assert_eq!(members(&state, "guild-11_22"), vec![s("discord-5")]);
}

#[test]
fn refuses_to_join_an_unknown_room() {
    let mut state = initial_state();
    let channels: StringMap<u8> = StringMap::new();
    let res = join(&mut state, &channels, "bob", "nowhere");
    assert_eq!(refusal(res), (404, s("Room not found")));
    assert_eq!(state.user_map.len(), 0);
}

#[test]
fn refuses_to_join_a_full_room() {
    let mut state = AppRoomState::default();
    let mut channels: StringMap<u8> = StringMap::new();
    open(&mut state, &mut channels, 2, discord("discord-5", "11", "22")).unwrap();
    join(&mut state, &channels, "bob", "guild-11_22").unwrap();
    let res = join(&mut state, &channels, "eve", "guild-11_22");
    assert_eq!(refusal(res), (400, s("Room is full")));
    assert_eq!(members(&state, "guild-11_22"), vec![s("bob"), s("discord-5")]);
    assert!(!state.user_map.contains_key(&s("eve")));
}

#[test]
fn a_room_for_nobody_still_holds_its_owner() {
    let mut state = AppRoomState::default();
    let mut channels: StringMap<u8> = StringMap::new();
    open(&mut state, &mut channels, 0, discord("discord-5", "11", "22")).unwrap();
    assert_eq!(members(&state, "guild-11_22"), vec![s("discord-5")]);
    let res = join(&mut state, &channels, "bob", "guild-11_22");
    assert_eq!(refusal(res), (400, s("Room is full")));
}

#[test]
fn leaving_undoes_joining_and_makes_room() {
    let mut state = AppRoomState::default();
    let mut channels: StringMap<u8> = StringMap::new();
    open(&mut state, &mut channels, 2, discord("discord-5", "11", "22")).unwrap();
    join(&mut state, &channels, "bob", "guild-11_22").unwrap();
    let (room, was_in) = state.remove_member(&s("bob"), &s("guild-11_22")).unwrap();
    assert!(was_in);
    assert_eq!(room.members.to_vec(), vec![s("discord-5")]);
    assert_eq!(members(&state, "guild-11_22"), vec![s("discord-5")]);
    assert!(!state.user_map.contains_key(&s("bob")));
    join(&mut state, &channels, "eve", "guild-11_22").unwrap();
    assert_eq!(members(&state, "guild-11_22"), vec![s("discord-5"), s("eve")]);
}

#[test]
fn leaving_a_room_one_is_not_in() {
    let mut state = initial_state();
    let channels: StringMap<u8> = StringMap::new();
    join(&mut state, &channels, "bob", "general_lobby_1").unwrap();
    assert!(state.remove_member(&s("bob"), &s("nowhere")).is_none());
    assert!(state.user_map.contains_key(&s("bob")));
    assert_eq!(members(&state, "general_lobby_1"), vec![s("bob")]);
    let (_, was_in) = state.remove_member(&s("eve"), &s("general_lobby_1")).unwrap();
    assert!(!was_in);
}

#[test]
fn members_are_added_one_by_one() {
    let mut state = initial_state();
    let room = state.add_member(&s("bob"), &s("general_lobby_1")).unwrap();
    assert_eq!(room.members.to_vec(), vec![s("bob")]);
    assert_eq!(
        state.add_member(&s("bob"), &s("general_lobby_1")).unwrap_err(),
        JoinRefusal::AlreadyInRoom
    );
    assert_eq!(
        state.add_member(&s("eve"), &s("nowhere")).unwrap_err(),
        JoinRefusal::NoSuchRoom
    );
}

#[test]
fn lists_every_room_once() {
    let mut state = initial_state();
    let mut channels: StringMap<u8> = StringMap::new();
    open(&mut state, &mut channels, 4, discord("discord-5", "11", "22")).unwrap();
    open(&mut state, &mut channels, 4, general("general-a")).unwrap();
    join(&mut state, &channels, "bob", "guild-11_22").unwrap();
    let mut lines: Vec<(String, usize)> = get_all_rooms(&state)
        .into_iter()
        .map(|line| (line.room_id, line.number_of_members))
        .collect();
    lines.sort();
    assert_eq!(
        lines,
        vec![
            (s("general-000000000042"), 1),
            (s("general_lobby_1"), 0),
            (s("guild-11_22"), 2),
        ]
    );
}

#[test]
fn cleans_up_empty_expired_rooms_only() {
    let mut state = initial_state();
    let mut channels: StringMap<u8> = StringMap::new();
    open(&mut state, &mut channels, 4, discord("discord-5", "11", "22")).unwrap();
    open(&mut state, &mut channels, 4, discord("discord-6", "11", "33")).unwrap();
    state.remove_member(&s("discord-6"), &s("guild-11_33"));
    // Five minutes to the nanosecond are not over the time.
    let gone = expired_rooms(&state, "2025-06-01T12:05:00+00:00");
    assert_eq!(gone, vec![s("general_lobby_1")]);
    let gone = sorted(expired_rooms(&state, "2025-06-01T12:05:00.000000001+00:00"));
    assert_eq!(gone, vec![s("general_lobby_1"), s("guild-11_33")]);
    delete_rooms(
        &mut state,
        &mut channels,
        &gone,
        "2025-06-01T12:05:00.000000001+00:00",
    );
    assert_eq!(state.room_map.len(), 1);
    assert!(state.room_map.contains_key(&s("guild-11_22")));
    assert!(channels.contains_key(&s("guild-11_22")));
    assert!(!channels.contains_key(&s("guild-11_33")));
    assert_eq!(state.user_map.get(&s("discord-5")), Some(&s("guild-11_22")));
}

#[test]
fn keeps_rooms_whose_stamp_cannot_be_read() {
    let mut state = AppRoomState::default();
    let mut channels: StringMap<u8> = StringMap::new();
    create_room_at(
        &mut state,
        &mut channels,
        7,
        request("Odd", 4, discord("discord-5", "11", "22")),
        s("yesterday"),
        s(""),
    )
    .unwrap();
    state.remove_member(&s("discord-5"), &s("guild-11_22"));
    assert!(expired_rooms(&state, "2030-01-01T00:00:00Z").is_empty());
    assert!(expired_rooms(&initial_state(), "no time").is_empty());
}

#[test]
fn the_public_lobby_goes_by_now() {
    let sweep = rooms_to_delete(&initial_state());
    assert_eq!(sweep.gone, vec![s("general_lobby_1")]);
    assert!(DateTime::parse_from_rfc3339(&sweep.now).is_ok());
    assert!(sweep.now.ends_with("+00:00"));
}

#[test]
fn a_new_room_does_not_expire_at_once() {
    let mut state = AppRoomState::default();
    let mut channels: StringMap<u8> = StringMap::new();
    let answer = create_room(
        &mut state,
        &mut channels,
        1,
        request("Now", 3, general("general-a")),
    )
    .unwrap();
    state.remove_member(&s("general-a"), &answer.room_id);
    assert!(rooms_to_delete(&state).gone.is_empty());
}

#[test]
fn a_record_for_a_room_that_went_bars_joining() {
    let mut state = initial_state();
    let channels: StringMap<u8> = StringMap::new();
    state.user_map.insert(s("bob"), s("gone"));
    for room in ["gone", "general_lobby_1"] {
        let res = join(&mut state, &channels, "bob", room);
        assert_eq!(refusal(res), (400, s("User already in room")));
        assert_eq!(state.user_map.get(&s("bob")), Some(&s("gone")));
    }
    assert_eq!(members(&state, "general_lobby_1"), Vec::<String>::new());
}

#[test]
fn a_record_for_a_room_that_went_does_not_bar_opening() {
    let mut state = initial_state();
    let mut channels: StringMap<u8> = StringMap::new();
    state.user_map.insert(s("general-a"), s("gone"));
    let answer = open(&mut state, &mut channels, 4, general("general-a")).unwrap();
    assert_eq!(answer.room_id, "general-000000000042");
    assert_eq!(state.user_map.get(&s("general-a")), Some(&answer.room_id));
}

#[test]
fn a_room_that_was_joined_is_not_cleaned_up() {
    let mut state = initial_state();
    let mut channels: StringMap<u8> = StringMap::new();
    channels.insert(s("general_lobby_1"), 3);
    let gone = expired_rooms(&state, "2025-06-01T00:00:00Z");
    assert_eq!(gone, vec![s("general_lobby_1")]);
    join(&mut state, &channels, "bob", "general_lobby_1").unwrap();
    delete_rooms(&mut state, &mut channels, &gone, "2025-06-01T00:00:00Z");
    assert_eq!(members(&state, "general_lobby_1"), vec![s("bob")]);
    assert_eq!(channels.get(&s("general_lobby_1")), Some(&3));
    state.remove_member(&s("bob"), &s("general_lobby_1"));
    delete_rooms(&mut state, &mut channels, &gone, "2025-01-01T00:01:00Z");
    assert_eq!(state.room_map.len(), 1);
    delete_rooms(&mut state, &mut channels, &gone, "2025-06-01T00:00:00Z");
    assert_eq!(state.room_map.len(), 0);
    assert_eq!(channels.len(), 0);
}

#[test]
fn leaving_keeps_a_record_for_another_room() {
    let mut state = initial_state();
    let mut channels: StringMap<u8> = StringMap::new();
    open(&mut state, &mut channels, 4, discord("discord-5", "11", "22")).unwrap();
    state.remove_member(&s("discord-5"), &s("general_lobby_1"));
    assert_eq!(state.user_map.get(&s("discord-5")), Some(&s("guild-11_22")));
    assert_eq!(members(&state, "guild-11_22"), vec![s("discord-5")]);
}

fn instant(stamp: &str) -> (i64, u32) {
    let t = DateTime::parse_from_rfc3339(stamp).unwrap();
    (t.timestamp(), t.timestamp_subsec_nanos())
}

#[test]
fn time_is_counted_as_the_calendar_counts_it() {
    let stamps = [
        "1969-12-31T23:59:59.5Z",
        "1970-01-01T00:00:00Z",
        "2016-12-31T23:59:59Z",
        "2016-12-31T23:59:60Z",
        "2016-12-31T23:59:60.25Z",
        "2017-01-01T00:00:00Z",
        "2015-06-30T23:59:60.75Z",
        "2025-06-01T12:00:00.123456789+02:00",
        "0000-01-01T00:00:00Z",
        "9999-12-31T23:59:59Z",
    ];
    for then in stamps {
        for now in stamps {
            let expected = DateTime::parse_from_rfc3339(now)
                .unwrap()
                .with_timezone(&Utc)
                .signed_duration_since(DateTime::parse_from_rfc3339(then).unwrap());
            let nanos = i128::from(expected.num_seconds()) * 1_000_000_000
                + i128::from(expected.subsec_nanos());
            assert_eq!(nanos_from(instant(then), instant(now)), nanos, "{then} {now}");
            assert_eq!(nanos_from(instant(now), instant(then)), -nanos, "{then} {now}");
            let old = expected.to_std().unwrap_or_default() > std::time::Duration::from_secs(300);
            assert_eq!(stamp_expired(then, now), old, "{then} {now}");
        }
    }
    assert_eq!(nanos_from((0, 0), (1, 5)), 1_000_000_005);
}

#[test]
fn expiry_is_past_five_minutes() {
    assert!(!is_expired(Some((1_000, 0)), Some((1_300, 0))));
    assert!(is_expired(Some((1_000, 0)), Some((1_300, 1))));
    assert!(is_expired(Some((1_000, 0)), Some((2_000, 0))));
    assert!(!is_expired(Some((2_000, 0)), Some((1_000, 0))));
    assert!(!is_expired(None, Some((2_000, 0))));
    assert!(!is_expired(Some((1_000, 0)), None));
    assert!(!stamp_expired("2025-01-01T00:00:00Z", "2025-01-01T01:05:00+01:00"));
    assert!(stamp_expired("2025-01-01T00:00:00Z", "2025-01-01T01:05:00.001+01:00"));
    assert!(!stamp_expired("2025-01-01 00:00:00", "2025-01-02T00:00:00Z"));
}

fn sample_room() -> Room {
    let mut members = StringSet::new();
    members.insert(s("a"));
    members.insert(s("b"));
    Room {
        room_id: s("r"),
        name: s("n"),
        owner_id: s("o"),
        created_at: s("t"),
        max_capacity: 9,
        members,
    }
}

#[test]
fn rooms_go_out_as_they_are() {
    let room = sample_room();
    let sent = RoomSerialize::from(room.as_ref());
    assert_eq!(sent.room_id, "r");
    assert_eq!(sent.name, "n");
    assert_eq!(sent.owner_id, "o");
    assert_eq!(sent.created_at, "t");
    assert_eq!(sent.max_capacity, 9);
    assert_eq!(sorted(sent.members.to_vec()), vec![s("a"), s("b")]);
    let line = GetAllRoomsPayload::from(&room.clone());
    assert_eq!(line.room_id, "r");
    assert_eq!(line.name, "n");
    assert_eq!(line.owner_id, "o");
    assert_eq!(line.created_at, "t");
    assert_eq!(line.max_capacity, 9);
    assert_eq!(line.number_of_members, 2);
}

#[test]
fn answers_are_marked_with_their_kind() {
    let joined = JoinRoomResponsePayload::new(s("r"), s("n"), s("o"), s("t"), 9, vec![s("a")]);
    assert_eq!(joined.response_type, "join_room");
    assert_eq!(joined.room_id, "r");
    assert_eq!(joined.name, "n");
    assert_eq!(joined.owner_id, "o");
    assert_eq!(joined.created_at, "t");
    assert_eq!(joined.max_capacity, 9);
    assert_eq!(joined.members, vec![s("a")]);
    let created = CreateRoomResponsePayload::new(s("r"), s("o"), s("n"), s("t"), 9);
    assert_eq!(created.response_type, "create_room");
    assert_eq!(created.room_id, "r");
    assert_eq!(created.owner_id, "o");
    assert_eq!(created.name, "n");
    assert_eq!(created.created_at, "t");
    assert_eq!(created.max_capacity, 9);
}

#[test]
fn refusals_carry_their_status_twice() {
    let error = ApiError {
        status_code: 404,
        message: s("Room not found"),
    };
    let (status, body) = error.into_response();
    assert_eq!(status, 404);
    assert!(body.error);
    assert_eq!(body.code, 404);
    assert_eq!(body.message, "Room not found");
}

#[test]
fn sets_hold_nothing_twice() {
    let mut set = StringSet::new();
    assert!(set.is_empty());
    assert!(set.insert(s("a")));
    assert!(!set.insert(s("a")));
    assert!(set.insert(s("b")));
    assert_eq!(set.len(), 2);
    assert!(set.contains(&s("a")));
    assert!(set.remove(&s("a")));
    assert!(!set.remove(&s("a")));
    assert!(!set.contains(&s("a")));
    assert_eq!(set.clone().to_vec(), vec![s("b")]);
    assert!(!set.is_empty());
}

#[test]
fn maps_hold_one_value_per_key() {
    let mut map: StringMap<u8> = StringMap::new();
    map.insert(s("a"), 1);
    map.insert(s("b"), 2);
    map.insert(s("a"), 3);
    assert_eq!(map.len(), 2);
    assert_eq!(map.get(&s("a")), Some(&3));
    assert_eq!(map.get(&s("b")), Some(&2));
    assert_eq!(map.get(&s("c")), None);
    let mut entries: Vec<(String, u8)> = (0..map.len())
        .map(|i| {
            let (key, value) = map.entry(i);
            (key.clone(), *value)
        })
        .collect();
    entries.sort();
    assert_eq!(entries, vec![(s("a"), 3), (s("b"), 2)]);
    assert_eq!(map.remove(&s("a")), Some(3));
    assert_eq!(map.remove(&s("a")), None);
    assert!(!map.contains_key(&s("a")));
    assert_eq!(map.len(), 1);
}

#[test]
fn voice_channels_do_not_share_rooms() {
    let mut state = AppRoomState::default();
    let mut channels: StringMap<u8> = StringMap::new();
    let mut ids: Vec<String> = Vec::new();
    for (i, (guild, channel)) in [("1", "22"), ("12", "2"), ("1", "2"), ("2", "1")]
        .into_iter()
        .enumerate()
    {
        let user = format!("discord-{i}");
        let answer = open(&mut state, &mut channels, 4, discord(&user, guild, channel));
        ids.push(answer.unwrap().room_id);
    }
    assert_eq!(
        ids,
        vec![
            s("guild-1_22"),
            s("guild-12_2"),
            s("guild-1_2"),
            s("guild-2_1")
        ]
    );
    // An underscore in the guild can make two of them meet.
    open(&mut state, &mut channels, 4, discord("discord-8", "7", "8_9")).unwrap();
    let res = open(&mut state, &mut channels, 4, discord("discord-9", "7_8", "9"));
    assert_eq!(refusal(res), (400, s("Room already exists")));
}

#[test]
fn an_owner_who_left_can_join_again() {
    let mut state = AppRoomState::default();
    let mut channels: StringMap<u8> = StringMap::new();
    open(&mut state, &mut channels, 1, general("general-a")).unwrap();
    let id = "general-000000000042";
    let res = join(&mut state, &channels, "bob", id);
    assert_eq!(refusal(res), (400, s("Room is full")));
    state.remove_member(&s("general-a"), &s(id));
    join(&mut state, &channels, "bob", id).unwrap();
    let res = join(&mut state, &channels, "general-a", id);
    assert_eq!(refusal(res), (400, s("Room is full")));
}

#[test]
fn expired_rooms_stay_expired() {
    let state = initial_state();
    for now in [
        "2025-01-01T00:05:01Z",
        "2025-01-02T00:00:00Z",
        "2035-01-01T00:00:00Z",
    ] {
        assert_eq!(expired_rooms(&state, now), vec![s("general_lobby_1")]);
    }
}
