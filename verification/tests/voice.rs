use std::collections::{HashMap, HashSet};

use activity_lobby::collections::{StringMap, StringSet};
use activity_lobby::rooms::initial_state;
use activity_lobby::types::{
    AppRoomState, Room, ServerMessage, UserVoiceMap, VoiceChannelMap,
};
use activity_lobby::voice::{
    add_user_to_voice_channel, invite_reply, leave_voice_room, ping, play,
    remove_user_from_voice_channel, scan_existing_voice_states, voice_state_update, PlayStep,
    VoiceState,
};

fn s(text: &str) -> String {
    text.to_string()
}

fn empty() -> (VoiceChannelMap, UserVoiceMap) {
    (VoiceChannelMap::default(), UserVoiceMap::new())
}

fn at(guild: u64, channel: Option<u64>, user: u64) -> VoiceState {
    VoiceState {
        guild_id: Some(guild),
        channel_id: channel,
        user_id: user,
    }
}

fn seats(voice: &VoiceChannelMap) -> Vec<(u64, u64, u64)> {
    let mut list: Vec<(u64, u64, u64)> = Vec::new();
    for (guild, channels) in &voice.map {
        for (channel, members) in channels {
            for user in members {
                list.push((*guild, *channel, *user));
            }
        }
    }
    list.sort();
    list
}

#[test]
fn entering_and_leaving_a_channel() {
    let (mut voice, mut places) = empty();
    add_user_to_voice_channel(&mut voice, &mut places, 1, 10, 100);
    add_user_to_voice_channel(&mut voice, &mut places, 1, 10, 101);
    assert_eq!(seats(&voice), vec![(1, 10, 100), (1, 10, 101)]);
    assert_eq!(places.get(&100), Some(&(1, 10)));
    remove_user_from_voice_channel(&mut voice, &mut places, 1, 10, 101);
    assert_eq!(seats(&voice), vec![(1, 10, 100)]);
    assert_eq!(places.get(&101), None);
    remove_user_from_voice_channel(&mut voice, &mut places, 1, 10, 100);
    assert!(voice.map.is_empty());
    assert!(places.is_empty());
}

#[test]
fn leaving_a_channel_one_is_not_in() {
    let (mut voice, mut places) = empty();
    add_user_to_voice_channel(&mut voice, &mut places, 1, 10, 100);
    remove_user_from_voice_channel(&mut voice, &mut places, 1, 11, 100);
    assert_eq!(seats(&voice), vec![(1, 10, 100)]);
    assert_eq!(places.get(&100), None);
    remove_user_from_voice_channel(&mut voice, &mut places, 2, 10, 100);
    assert_eq!(seats(&voice), vec![(1, 10, 100)]);
}

#[test]
fn an_empty_guild_goes_when_someone_leaves() {
    let mut voice = VoiceChannelMap {
        map: HashMap::new(),
    };
    voice.map.insert(1, HashMap::new());
    let mut places = UserVoiceMap::new();
    remove_user_from_voice_channel(&mut voice, &mut places, 1, 10, 100);
    assert!(voice.map.is_empty());
}

#[test]
fn a_user_moves_between_channels() {
    let (mut voice, mut places) = empty();
    let left = voice_state_update(&mut voice, &mut places, &None, &at(1, Some(10), 100));
    assert_eq!(left, None);
    assert_eq!(seats(&voice), vec![(1, 10, 100)]);
    let left = voice_state_update(
        &mut voice,
        &mut places,
        &Some(at(1, Some(10), 100)),
        &at(1, Some(11), 100),
    );
    assert_eq!(left, Some(100));
    assert_eq!(seats(&voice), vec![(1, 11, 100)]);
    assert_eq!(places.get(&100), Some(&(1, 11)));
    let left = voice_state_update(
        &mut voice,
        &mut places,
        &Some(at(1, Some(11), 100)),
        &at(1, None, 100),
    );
    assert_eq!(left, Some(100));
    assert!(voice.map.is_empty());
    assert!(places.is_empty());
}

#[test]
fn a_tracked_user_moves_without_an_earlier_state() {
    let (mut voice, mut places) = empty();
    add_user_to_voice_channel(&mut voice, &mut places, 1, 10, 100);
    let left = voice_state_update(&mut voice, &mut places, &None, &at(1, Some(11), 100));
    assert_eq!(left, Some(100));
    assert_eq!(seats(&voice), vec![(1, 11, 100)]);
    // In another guild the record does not count.
    let left = voice_state_update(&mut voice, &mut places, &None, &at(2, Some(20), 100));
    assert_eq!(left, None);
    assert_eq!(seats(&voice), vec![(1, 11, 100), (2, 20, 100)]);
    assert_eq!(places.get(&100), Some(&(2, 20)));
}

#[test]
fn an_earlier_state_without_a_channel_leaves_nothing() {
    let (mut voice, mut places) = empty();
    add_user_to_voice_channel(&mut voice, &mut places, 1, 10, 100);
    let left = voice_state_update(
        &mut voice,
        &mut places,
        &Some(at(1, None, 100)),
        &at(1, None, 100),
    );
    assert_eq!(left, None);
    assert_eq!(places.get(&100), Some(&(1, 10)));
}

#[test]
fn states_outside_guilds_are_ignored() {
    let (mut voice, mut places) = empty();
    add_user_to_voice_channel(&mut voice, &mut places, 1, 10, 100);
    let after = VoiceState {
        guild_id: None,
        channel_id: Some(5),
        user_id: 100,
    };
    let before = Some(at(1, Some(10), 100));
    assert_eq!(voice_state_update(&mut voice, &mut places, &before, &after), None);
    assert_eq!(seats(&voice), vec![(1, 10, 100)]);
    assert_eq!(places.get(&100), Some(&(1, 10)));
}

#[test]
fn scan_seats_everyone_in_a_channel() {
    let (mut voice, mut places) = empty();
    let seen = vec![
        (1, 100, Some(10)),
        (1, 101, None),
        (2, 102, Some(20)),
        (2, 100, Some(21)),
    ];
    scan_existing_voice_states(&mut voice, &mut places, &seen);
    assert_eq!(seats(&voice), vec![(1, 10, 100), (2, 20, 102), (2, 21, 100)]);
    assert_eq!(places.get(&100), Some(&(2, 21)));
    assert_eq!(places.get(&101), None);
    assert_eq!(places.get(&102), Some(&(2, 20)));
    let expected: HashSet<u64> = [102].into_iter().collect();
    assert_eq!(voice.map[&2][&20], expected);
}

fn with_room(id: &str, members: &[&str]) -> AppRoomState {
    let mut state = AppRoomState::default();
    let mut set = StringSet::new();
    for member in members {
        set.insert(s(member));
        state.user_map.insert(s(member), s(id));
    }
    state.room_map.insert(
        s(id),
        Room {
            room_id: s(id),
            name: s("n"),
            owner_id: s("o"),
            created_at: s("t"),
            max_capacity: 5,
            members: set,
        },
    );
    state
}

#[test]
fn leaving_voice_leaves_the_room_that_goes_with_it() {
    for id in ["guild-1_2", "discord-1_2", "discord_1_2"] {
        let mut state = with_room(id, &["100", "101"]);
        let mut channels: StringMap<u8> = StringMap::new();
        channels.insert(s(id), 9);
        let departed = leave_voice_room(&mut state, &mut channels, 100);
        assert_eq!(departed.closed, None);
        let update = departed.update.unwrap();
        assert_eq!(update.room_id, id);
        match update.message {
            ServerMessage::RoomState(room) => assert_eq!(room.members.to_vec(), vec![s("101")]),
            _ => panic!("expected the state of the room"),
        }
        assert!(!state.user_map.contains_key(&s("100")));
        let departed = leave_voice_room(&mut state, &mut channels, 101);
        assert_eq!(departed.closed, Some(9));
        match departed.update.unwrap().message {
            ServerMessage::RoomState(room) => assert!(room.members.is_empty()),
            _ => panic!("expected the state of the room"),
        }
        assert_eq!(state.room_map.len(), 0);
        assert_eq!(state.user_map.len(), 0);
        assert_eq!(channels.len(), 0);
    }
}

#[test]
fn leaving_voice_leaves_other_rooms_alone() {
    for id in ["general-000000000001", "general_lobby_1", "disc", "guild_1_2"] {
        let mut state = with_room(id, &["100"]);
        let mut channels: StringMap<u8> = StringMap::new();
        channels.insert(s(id), 9);
        let departed = leave_voice_room(&mut state, &mut channels, 100);
        assert!(departed.update.is_none());
        assert_eq!(departed.closed, None);
        assert_eq!(state.user_map.get(&s("100")), Some(&s(id)));
        assert_eq!(
            state.room_map.get(&s(id)).unwrap().members.to_vec(),
            vec![s("100")]
        );
        assert_eq!(channels.len(), 1);
    }
}

#[test]
fn leaving_voice_for_a_room_that_went() {
    let mut state = initial_state();
    state.user_map.insert(s("100"), s("guild-1_2"));
    let mut channels: StringMap<u8> = StringMap::new();
    let departed = leave_voice_room(&mut state, &mut channels, 100);
    assert!(departed.update.is_none());
    assert_eq!(state.user_map.len(), 0);
    assert_eq!(state.room_map.len(), 1);
}

#[test]
fn play_needs_a_guild_and_a_channel() {
    let mut places = UserVoiceMap::new();
    places.insert(100, (1, 10));
    match play(&places, 7, None, 100) {
        PlayStep::Fail { message } => {
            assert_eq!(message, "This command can only be used in a server.")
        }
        _ => panic!("expected a failure"),
    }
    for (guild, user) in [(2, 100), (1, 101)] {
        match play(&places, 7, Some(guild), user) {
            PlayStep::Say { message } => assert_eq!(
                message,
                "You must be in a voice channel to start an activity."
            ),
            _ => panic!("expected an answer"),
        }
    }
    match play(&places, 7, Some(1), 100) {
        PlayStep::Invite {
            channel_id,
            application_id,
            max_uses,
            max_age,
        } => {
            assert_eq!((channel_id, application_id), (10, 7));
            assert_eq!((max_uses, max_age), (100, 86_400));
        }
        _ => panic!("expected an invitation"),
    }
    assert_eq!(invite_reply("abc"), "Join the activity: https://discord.gg/abc");
    assert_eq!(ping(), "Pong!");
}

#[test]
fn a_user_who_stays_in_a_channel_is_not_gone() {
    let (mut voice, mut places) = empty();
    add_user_to_voice_channel(&mut voice, &mut places, 1, 10, 100);
    for before in [Some(at(1, Some(10), 100)), None] {
        let left = voice_state_update(&mut voice, &mut places, &before, &at(1, Some(10), 100));
        assert_eq!(left, None);
        assert_eq!(seats(&voice), vec![(1, 10, 100)]);
        assert_eq!(places.get(&100), Some(&(1, 10)));
    }
}
