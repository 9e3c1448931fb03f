use activity_lobby::auth::{
    exchange_code_for_token, has_usable_ids, token_form, validate_auth_info, validate_connection,
    ConnectionCheck, FirstMessage, TokenReply,
};
use activity_lobby::collections::StringMap;
use activity_lobby::config::{build_cors, AppEnv, CorsPolicy};
use activity_lobby::rooms::initial_state;
use activity_lobby::session::{Reaction, Session, SocketEvent, HEARTBEAT_TIMEOUT};
use activity_lobby::text::{
    characters, decimal_text, parse_u64, same_text, starts_with, zero_padded_text,
};
use activity_lobby::types::{
    AppRoomState, AuthInfoType, ClientMessage, DiscordTokenResponse, RoomSerialize, ServerMessage,
    TokenRequest, UserVoiceMap,
};

fn s(text: &str) -> String {
    text.to_string()
}

fn discord(user: &str, guild: &str, channel: &str) -> AuthInfoType {
    AuthInfoType::Discord {
        user_id: s(user),
        guild_id: s(guild),
        channel_id: s(channel),
    }
}

fn general(user: &str) -> AuthInfoType {
    AuthInfoType::General { user_id: s(user) }
}

fn places() -> UserVoiceMap {
    let mut places = UserVoiceMap::new();
    places.insert(100, (1, 10));
    places
}

fn error_text(message: ServerMessage) -> String {
    match message {
        ServerMessage::Error { message } => message,
        _ => panic!("expected an error"),
    }
}

fn dismissal(reaction: Reaction) -> String {
    match reaction {
        Reaction::Dismiss(message) => error_text(message),
        _ => panic!("expected a dismissal"),
    }
}

fn reply_error(reaction: Reaction) -> String {
    match reaction {
        Reaction::Reply(message) => error_text(message),
        _ => panic!("expected a reply"),
    }
}

fn connected(room: &str) -> (Session, AppRoomState) {
    let mut state = initial_state();
    let mut session = Session::new(0);
    session
        .connect(&mut state, &places(), general("bob"), s(room))
        .unwrap();
    (session, state)
}

#[test]
fn silence_closes_the_conversation() {
    let mut session = Session::new(5);
    let reaction = session.on_event(5 + HEARTBEAT_TIMEOUT - 1, SocketEvent::Timer);
    assert!(matches!(reaction, Reaction::Wait));
    let reaction = session.on_event(5 + HEARTBEAT_TIMEOUT, SocketEvent::Timer);
    assert!(matches!(reaction, Reaction::Close));
    let reaction = session.on_event(0, SocketEvent::Timer);
    assert!(matches!(reaction, Reaction::Wait));
    assert_eq!(HEARTBEAT_TIMEOUT, 30 * 1_000_000_000);
}

#[test]
fn every_frame_counts_as_a_heartbeat() {
    for event in [
        SocketEvent::Ping,
        SocketEvent::Pong,
        SocketEvent::Other,
        SocketEvent::Text(ClientMessage::Ping),
        SocketEvent::Malformed { error: s("x") },
    ] {
        let mut session = Session::new(0);
        session.on_event(20_000_000_000, event);
        let reaction = session.on_event(49_999_999_999, SocketEvent::Timer);
        assert!(matches!(reaction, Reaction::Wait));
        let reaction = session.on_event(50_000_000_000, SocketEvent::Timer);
        assert!(matches!(reaction, Reaction::Close));
    }
}

#[test]
fn updates_are_no_heartbeat() {
    let (mut session, _) = connected("general_lobby_1");
    session.on_event(20_000_000_000, SocketEvent::Update(ServerMessage::Pong));
    session.on_event(20_000_000_000, SocketEvent::Lagged { missed: 3 });
    let reaction = session.on_event(30_000_000_000, SocketEvent::Timer);
    assert!(matches!(reaction, Reaction::Close));
}

#[test]
fn closing_and_failing_end_the_conversation() {
    let mut session = Session::new(0);
    assert!(matches!(session.on_event(1, SocketEvent::Close), Reaction::Close));
    assert!(matches!(session.on_event(1, SocketEvent::Failed), Reaction::Close));
}

#[test]
fn malformed_texts_are_answered() {
    let mut session = Session::new(0);
    let reaction = session.on_event(
        1,
        SocketEvent::Malformed {
            error: s("missing field"),
        },
    );
    assert_eq!(reply_error(reaction), "Invalid message: missing field");
}

#[test]
fn a_client_must_connect_first() {
    let mut session = Session::new(0);
    for message in [
        ClientMessage::Ping,
        ClientMessage::LeaveRoom { room_id: s("r") },
        ClientMessage::CreateRoom {
            auth: general("bob"),
            max_capacity: 2,
            name: s("n"),
        },
    ] {
        let reaction = session.on_event(1, SocketEvent::Text(message));
        assert_eq!(
            reply_error(reaction),
            "Not connected. Send a Connect message first."
        );
        assert_eq!(session.current_room_id, None);
    }
    let reaction = session.on_event(
        1,
        SocketEvent::Text(ClientMessage::Connect {
            auth: general("bob"),
            room_id: s("r"),
        }),
    );
    match reaction {
        Reaction::Connect { auth, room_id } => {
            assert!(matches!(auth, AuthInfoType::General { user_id } if user_id == "bob"));
            assert_eq!(room_id, "r");
        }
        _ => panic!("expected a connect"),
    }
}

#[test]
fn a_client_in_a_room_can_ping_and_leave() {
    let (mut session, _) = connected("general_lobby_1");
    let reaction = session.on_event(1, SocketEvent::Text(ClientMessage::Ping));
    assert!(matches!(reaction, Reaction::Reply(ServerMessage::Pong)));
    for message in [
        ClientMessage::Connect {
            auth: general("eve"),
            room_id: s("r"),
        },
        ClientMessage::CreateRoom {
            auth: general("bob"),
            max_capacity: 2,
            name: s("n"),
        },
    ] {
        let reaction = session.on_event(1, SocketEvent::Text(message));
        assert_eq!(reply_error(reaction), "Already in a room.");
    }
    let leave = ClientMessage::LeaveRoom { room_id: s("x") };
    let reaction = session.on_event(1, SocketEvent::Text(leave));
    assert!(matches!(reaction, Reaction::Close));
    assert_eq!(session.current_room_id, Some(s("general_lobby_1")));
    assert_eq!(session.user_id, Some(s("bob")));
}

#[test]
fn connecting_gets_into_the_room() {
    let mut state = initial_state();
    let mut session = Session::new(0);
    let outcome = session
        .connect(&mut state, &places(), discord("+100", "1", "010"), s("general_lobby_1"))
        .unwrap();
    assert_eq!(session.user_id, Some(s("+100")));
    assert_eq!(session.current_room_id, Some(s("general_lobby_1")));
    match outcome.reply {
        ServerMessage::RoomState(room) => assert_eq!(room.members.to_vec(), vec![s("+100")]),
        _ => panic!("expected the state of the room"),
    }
    assert_eq!(outcome.update.room_id, "general_lobby_1");
    assert!(matches!(outcome.update.message, ServerMessage::RoomState(_)));
    assert_eq!(state.user_map.get(&s("+100")), Some(&s("general_lobby_1")));
}

#[test]
fn connecting_is_refused_with_a_reason() {
    let mut state = initial_state();
    let mut session = Session::new(0);
    let cases = [
        (discord("x", "1", "10"), "general_lobby_1", "Invalid user, guild or channel ID"),
        (discord("100", "1", "11"), "general_lobby_1", "Invalid voice channel"),
        (discord("101", "1", "10"), "general_lobby_1", "Invalid voice channel"),
        (general("bob"), "nowhere", "Room not found"),
    ];
    for (auth, room, expected) in cases {
        let refused = session.connect(&mut state, &places(), auth, s(room));
        assert_eq!(dismissal(refused.unwrap_err()), expected);
        assert_eq!(session.user_id, None);
        assert_eq!(session.current_room_id, None);
        assert_eq!(state.user_map.len(), 0);
    }
    for i in 0..20 {
        state.add_member(&format!("u{i}"), &s("general_lobby_1")).unwrap();
    }
    let refused = session.connect(&mut state, &places(), general("bob"), s("general_lobby_1"));
    assert_eq!(dismissal(refused.unwrap_err()), "Room is full");
    let refused = session.connect(&mut state, &places(), general("u3"), s("general_lobby_1"));
    assert_eq!(dismissal(refused.unwrap_err()), "User is already in a room.");
}

#[test]
fn subscribing_makes_a_missing_channel() {
    let (mut session, _) = connected("general_lobby_1");
    let mut channels: StringMap<u8> = StringMap::new();
    assert!(!session.subscribe(&mut channels, &s("general_lobby_1"), 4));
    assert!(session.subscribed);
    assert_eq!(channels.get(&s("general_lobby_1")), Some(&4));
    assert!(session.subscribe(&mut channels, &s("general_lobby_1"), 5));
    assert_eq!(channels.get(&s("general_lobby_1")), Some(&4));
    assert!(matches!(
        session.on_event(1, SocketEvent::ChannelClosed),
        Reaction::Wait
    ));
    assert!(!session.subscribed);
}

#[test]
fn updates_of_the_own_room_are_passed_on() {
    let (mut session, state) = connected("general_lobby_1");
    let room = RoomSerialize::from(state.room_map.get(&s("general_lobby_1")).unwrap());
    let mut other = room.clone();
    other.room_id = s("elsewhere");
    match session.on_event(1, SocketEvent::Update(ServerMessage::RoomState(room))) {
        Reaction::Reply(ServerMessage::RoomState(sent)) => {
            assert_eq!(sent.room_id, "general_lobby_1");
            assert_eq!(sent.members.to_vec(), vec![s("bob")]);
        }
        _ => panic!("expected the state of the room"),
    }
    let reaction = session.on_event(1, SocketEvent::Update(ServerMessage::RoomState(other)));
    assert!(matches!(reaction, Reaction::Wait));
    let reaction = session.on_event(1, SocketEvent::Update(ServerMessage::Pong));
    assert!(matches!(reaction, Reaction::Wait));
}

#[test]
fn a_conversation_leaves_no_trace() {
    let (session, mut state) = connected("general_lobby_1");
    let mut channels: StringMap<u8> = StringMap::new();
    channels.insert(s("general_lobby_1"), 1);
    let update = session.close(&mut state, &channels).unwrap();
    assert_eq!(update.room_id, "general_lobby_1");
    match update.message {
        ServerMessage::RoomState(room) => assert!(room.members.is_empty()),
        _ => panic!("expected the state of the room"),
    }
    assert_eq!(state.user_map.len(), 0);
    assert!(state.room_map.get(&s("general_lobby_1")).unwrap().members.is_empty());
}

#[test]
fn leaving_leaves_the_own_room() {
    let (mut session, mut state) = connected("general_lobby_1");
    let leave = ClientMessage::LeaveRoom { room_id: s("nowhere") };
    let reaction = session.on_event(1, SocketEvent::Text(leave));
    assert!(matches!(reaction, Reaction::Close));
    let mut channels: StringMap<u8> = StringMap::new();
    channels.insert(s("general_lobby_1"), 1);
    let update = session.close(&mut state, &channels).unwrap();
    assert_eq!(update.room_id, "general_lobby_1");
    assert_eq!(state.user_map.len(), 0);
    assert!(state.room_map.get(&s("general_lobby_1")).unwrap().members.is_empty());
}

#[test]
fn a_silent_client_in_a_busy_room_is_cut_off() {
    for event in [
        SocketEvent::Timer,
        SocketEvent::Update(ServerMessage::Pong),
        SocketEvent::Lagged { missed: 1 },
        SocketEvent::ChannelClosed,
    ] {
        let (mut session, _) = connected("general_lobby_1");
        session.on_event(10, SocketEvent::Pong);
        let reaction = session.on_event(HEARTBEAT_TIMEOUT + 10, event);
        assert!(matches!(reaction, Reaction::Close));
    }
}

#[test]
fn the_time_left_runs_out() {
    let mut session = Session::new(100);
    assert_eq!(session.time_left(100), 30_000_000_000);
    assert_eq!(session.time_left(50), 30_000_000_000);
    assert_eq!(session.time_left(20_000_000_100), 10_000_000_000);
    assert_eq!(session.time_left(30_000_000_099), 1);
    assert_eq!(session.time_left(30_000_000_100), 0);
    assert_eq!(session.time_left(u128::MAX), 0);
    session.on_event(20_000_000_100, SocketEvent::Ping);
    assert_eq!(session.time_left(30_000_000_100), 20_000_000_000);
}

#[test]
fn connecting_heals_a_record_for_a_room_that_went() {
    let mut state = initial_state();
    state.user_map.insert(s("bob"), s("gone"));
    let mut session = Session::new(0);
    let refused = session.connect(&mut state, &places(), general("bob"), s("gone"));
    assert_eq!(dismissal(refused.unwrap_err()), "Room not found");
    assert_eq!(state.user_map.len(), 0);
    assert_eq!(session.user_id, None);
}

#[test]
fn closing_without_a_user_changes_nothing() {
    let (_, mut state) = connected("general_lobby_1");
    let mut channels: StringMap<u8> = StringMap::new();
    channels.insert(s("general_lobby_1"), 1);
    assert!(Session::new(0).close(&mut state, &channels).is_none());
    assert_eq!(state.user_map.len(), 1);
}

#[test]
fn closing_without_a_channel_is_silent() {
    let (session, mut state) = connected("general_lobby_1");
    let channels: StringMap<u8> = StringMap::new();
    assert!(session.close(&mut state, &channels).is_none());
    assert_eq!(state.user_map.len(), 0);
}

#[test]
fn sign_in_with_a_connect_message() {
    let places = places();
    assert_eq!(validate_auth_info(discord("100", "1", "10"), &places), Ok(s("100")));
    assert_eq!(validate_auth_info(discord("0100", "+1", "10"), &places), Ok(s("0100")));
    assert_eq!(validate_auth_info(general("anyone"), &places), Ok(s("anyone")));
    for auth in [
        discord("discord-100", "1", "10"),
        discord("100", "", "10"),
        discord("100", "1", "18446744073709551616"),
    ] {
        assert_eq!(
            validate_auth_info(auth, &places),
            Err(s("Invalid user, guild or channel ID"))
        );
    }
    assert_eq!(
        validate_auth_info(discord("100", "2", "10"), &places),
        Err(s("Invalid voice channel"))
    );
}

#[test]
fn sign_in_as_the_first_message() {
    let places = places();
    match validate_connection(FirstMessage::Auth(discord("+0100", "1", "10")), &places) {
        ConnectionCheck::Accepted { user_id } => assert_eq!(user_id, "100"),
        _ => panic!("expected a user"),
    }
    match validate_connection(FirstMessage::Auth(general("0100")), &places) {
        ConnectionCheck::Accepted { user_id } => assert_eq!(user_id, "0100"),
        _ => panic!("expected a user"),
    }
    let cases = [
        (
            FirstMessage::Malformed { error: s("bad") },
            "Invalid auth message format: bad",
        ),
        (
            FirstMessage::Auth(discord("x", "1", "10")),
            "Invalid user, guild or channel ID",
        ),
        (
            FirstMessage::Auth(discord("100", "1", "9")),
            "Invalid voice channel",
        ),
    ];
    for (first, expected) in cases {
        match validate_connection(first, &places) {
            ConnectionCheck::Rejected { reply } => assert_eq!(error_text(reply), expected),
            _ => panic!("expected a refusal"),
        }
    }
    let check = validate_connection(FirstMessage::Missing, &places);
    assert!(matches!(check, ConnectionCheck::Gone));
}

#[test]
fn zero_is_no_id() {
    assert!(has_usable_ids(&discord("1", "2", "3")));
    assert!(has_usable_ids(&discord("x", "", "-")));
    assert!(has_usable_ids(&general("0")));
    assert!(!has_usable_ids(&discord("0", "2", "3")));
    assert!(!has_usable_ids(&discord("1", "+00", "3")));
    assert!(!has_usable_ids(&discord("x", "2", "0")));
}

#[test]
fn token_exchange() {
    let form = token_form(s("id"), s("secret"), TokenRequest { code: s("c") });
    let expected = [
        ("client_id", "id"),
        ("client_secret", "secret"),
        ("grant_type", "authorization_code"),
        ("code", "c"),
    ];
    assert_eq!(form.len(), 4);
    for (i, (name, value)) in expected.iter().enumerate() {
        assert_eq!(form[i].0, *name);
        assert_eq!(form[i].1, *value);
    }
    let token = DiscordTokenResponse {
        access_token: s("t"),
        token_type: Some(s("Bearer")),
        expires_in: Some(5),
        refresh_token: None,
        scope: None,
    };
    let answer = exchange_code_for_token(TokenReply::Answered(token)).unwrap();
    assert_eq!(answer.access_token, "t");
    assert_eq!(exchange_code_for_token(TokenReply::Unreadable).unwrap_err(), 500);
    assert_eq!(exchange_code_for_token(TokenReply::Unreachable).unwrap_err(), 500);
}

#[test]
fn surroundings_and_other_sites() {
    assert_eq!(AppEnv::from_env(None), AppEnv::Development);
    assert_eq!(AppEnv::from_env(Some("development")), AppEnv::Development);
    assert_eq!(AppEnv::from_env(Some("production")), AppEnv::Production);
    assert!(AppEnv::is_known(None));
    assert!(AppEnv::is_known(Some("production")));
    assert!(!AppEnv::is_known(Some("Production")));
    assert!(!AppEnv::is_known(Some("")));
    assert!(matches!(build_cors(AppEnv::Development), CorsPolicy::Any));
    match build_cors(AppEnv::Production) {
        CorsPolicy::Only {
            origin,
            methods,
            headers,
        } => {
            assert_eq!(origin, "https://example.com");
            assert_eq!(methods, vec![s("GET"), s("POST")]);
            assert_eq!(headers, vec![s("content-type"), s("authorization")]);
        }
        CorsPolicy::Any => panic!("expected limits"),
    }
}

#[test]
fn messages_are_labelled_for_the_log() {
    let error = ServerMessage::Error { message: s("oops") };
    assert_eq!(error.clone().delivery_label(), "oops");
    assert_eq!(ServerMessage::Pong.delivery_label(), "message");
}

#[test]
fn numbers_are_read_as_the_standard_library_reads_them() {
    for text in [
        "", "+", "-", "0", "+0", "-0", "007", "+42", "++1", "1_000", " 1", "1 ", "18446744073709551615",
        "18446744073709551616", "99999999999999999999", "00000000000000000000000001", "12a", "é1", "٣",
    ] {
        assert_eq!(parse_u64(text), text.parse::<u64>().ok(), "{text}");
    }
    for n in [0, 1, 9, 10, 99, 100, 1234567890, u64::MAX] {
        assert_eq!(decimal_text(n), n.to_string());
        assert_eq!(parse_u64(&decimal_text(n)), Some(n));
        assert_eq!(zero_padded_text(n % 1_000_000_000_000, 12), format!("{:012}", n % 1_000_000_000_000));
    }
}

#[test]
fn texts_are_compared_by_character() {
    assert!(starts_with("discord-1", "discord"));
    assert!(starts_with("discord", "discord"));
    assert!(starts_with("", ""));
    assert!(!starts_with("disc", "discord"));
    assert!(!starts_with("Discord", "discord"));
    assert!(starts_with("éa", "é"));
    assert!(same_text("é", "é"));
    assert!(!same_text("a", "ab"));
    assert!(!same_text("ab", "ac"));
    assert_eq!(characters("aé"), vec!['a', 'é']);
}

#[test]
fn the_two_sign_in_checks_agree() {
    let places = places();
    for auth in [
        discord("100", "1", "10"),
        discord("+00100", "01", "10"),
        discord("100", "1", "11"),
        discord("me", "1", "10"),
        general("bob"),
    ] {
        let first = FirstMessage::Auth(auth.clone());
        match (validate_auth_info(auth.clone(), &places), validate_connection(first, &places)) {
            (Ok(written), ConnectionCheck::Accepted { user_id }) => match auth {
                AuthInfoType::Discord { .. } => {
                    assert_eq!(parse_u64(&written), parse_u64(&user_id));
                    assert_eq!(user_id, "100");
                }
                AuthInfoType::General { .. } => assert_eq!(written, user_id),
            },
            (Err(reason), ConnectionCheck::Rejected { reply }) => {
                assert_eq!(reason, error_text(reply))
            }
            _ => panic!("the checks do not agree"),
        }
    }
}

#[test]
fn no_event_changes_the_user() {
    let (mut session, _) = connected("general_lobby_1");
    for event in [
        SocketEvent::Timer,
        SocketEvent::Text(ClientMessage::Connect {
            auth: general("eve"),
            room_id: s("general_lobby_1"),
        }),
        SocketEvent::Text(ClientMessage::LeaveRoom { room_id: s("r") }),
        SocketEvent::ChannelClosed,
        SocketEvent::Close,
    ] {
        let reaction = session.on_event(1, event);
        assert!(!matches!(reaction, Reaction::Connect { .. }));
        assert_eq!(session.user_id, Some(s("bob")));
    }
}
