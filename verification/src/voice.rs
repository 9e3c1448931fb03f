//! Voice channels: who sits where, what happens when someone moves, and how an
//! activity is launched from there.

use std::collections::{HashMap, HashSet};

use vstd::prelude::*;

use crate::rooms::{announce, announcement, without_member};
use crate::text::{decimal, decimal_text, starts_with};
use crate::types::{
    channels_view, update_view, AppRoomState, ChannelId, GuildId, LobbyView, Room,
    RoomBroadcaster, RoomUpdate, RoomUpdateView, UserId, UserIdStr, UserVoiceMap, VoiceChannelMap,
};

verus! {

broadcast use vstd::std_specs::hash::group_hash_axioms;

/// Where a user is: the guild, if the state belongs to one, and the voice channel,
/// if the user is in one.
#[derive(Debug, Clone, Copy)]
pub struct VoiceState {
    pub guild_id: Option<GuildId>,
    pub channel_id: Option<ChannelId>,
    pub user_id: UserId,
}

/// The users of a channel, or nobody where the channel is not listed.
pub open spec fn members_of(
    channels: Map<ChannelId, Set<UserId>>,
    channel_id: ChannelId,
) -> Set<UserId> {
    if channels.contains_key(channel_id) {
        channels[channel_id]
    } else {
        Set::empty()
    }
}

/// The channels of a guild, or none where the guild is not listed.
pub open spec fn channels_of(
    guilds: Map<GuildId, Map<ChannelId, Set<UserId>>>,
    guild_id: GuildId,
) -> Map<ChannelId, Set<UserId>> {
    if guilds.contains_key(guild_id) {
        guilds[guild_id]
    } else {
        Map::empty()
    }
}

/// The guilds with `user_id` in the channel.
pub open spec fn user_added(
    guilds: Map<GuildId, Map<ChannelId, Set<UserId>>>,
    guild_id: GuildId,
    channel_id: ChannelId,
    user_id: UserId,
) -> Map<GuildId, Map<ChannelId, Set<UserId>>> {
    let channels = channels_of(guilds, guild_id);
    guilds.insert(
        guild_id,
        channels.insert(channel_id, members_of(channels, channel_id).insert(user_id)),
    )
}

/// The channels of a guild without `user_id` in the channel. A channel that is
/// left empty goes.
pub open spec fn user_removed_from(
    channels: Map<ChannelId, Set<UserId>>,
    channel_id: ChannelId,
    user_id: UserId,
) -> Map<ChannelId, Set<UserId>> {
    let rest = members_of(channels, channel_id).remove(user_id);
    if !channels.contains_key(channel_id) {
        channels
    } else if rest == Set::<UserId>::empty() {
        channels.remove(channel_id)
    } else {
        channels.insert(channel_id, rest)
    }
}

/// The guilds without `user_id` in the channel. A channel that is left empty
/// goes, and so does a guild without channels.
pub open spec fn user_removed(
    guilds: Map<GuildId, Map<ChannelId, Set<UserId>>>,
    guild_id: GuildId,
    channel_id: ChannelId,
    user_id: UserId,
) -> Map<GuildId, Map<ChannelId, Set<UserId>>> {
    let rest = user_removed_from(channels_of(guilds, guild_id), channel_id, user_id);
    if !guilds.contains_key(guild_id) {
        guilds
    } else if rest == Map::<ChannelId, Set<UserId>>::empty() {
        guilds.remove(guild_id)
    } else {
        guilds.insert(guild_id, rest)
    }
}

/// Puts `user_id` into the channel and on record as being there.
pub fn add_user_to_voice_channel(
    voice_map: &mut VoiceChannelMap,
    user_voice_map: &mut UserVoiceMap,
    guild_id: GuildId,
    channel_id: ChannelId,
    user_id: UserId,
)
    ensures
        final(voice_map)@ == user_added(old(voice_map)@, guild_id, channel_id, user_id),
        final(user_voice_map)@ == old(user_voice_map)@.insert(user_id, (guild_id, channel_id)),
{
    let mut channels: HashMap<ChannelId, HashSet<UserId>> = match voice_map.map.remove(&guild_id) {
        Some(channels) => channels,
        None => HashMap::new(),
    };
    assert(channels_view(channels) =~= channels_of(old(voice_map)@, guild_id));
    let mut members: HashSet<UserId> = match channels.remove(&channel_id) {
        Some(members) => members,
        None => HashSet::new(),
    };
    assert(members@ =~= members_of(channels_of(old(voice_map)@, guild_id), channel_id));
    members.insert(user_id);
    channels.insert(channel_id, members);
    assert(channels_view(channels) =~= channels_of(old(voice_map)@, guild_id).insert(
        channel_id,
        members@,
    ));
    voice_map.map.insert(guild_id, channels);
    user_voice_map.insert(user_id, (guild_id, channel_id));
    assert(voice_map@ =~= user_added(old(voice_map)@, guild_id, channel_id, user_id));
}

/// Takes `user_id` out of the channel and off the record.
pub fn remove_user_from_voice_channel(
    voice_map: &mut VoiceChannelMap,
    user_voice_map: &mut UserVoiceMap,
    guild_id: GuildId,
    channel_id: ChannelId,
    user_id: UserId,
)
    ensures
        final(voice_map)@ == user_removed(old(voice_map)@, guild_id, channel_id, user_id),
        final(user_voice_map)@ == old(user_voice_map)@.remove(user_id),
{
    user_voice_map.remove(&user_id);
    match voice_map.map.remove(&guild_id) {
        None => {
            assert(voice_map@ =~= user_removed(old(voice_map)@, guild_id, channel_id, user_id));
        },
        Some(found) => {
            let mut channels: HashMap<ChannelId, HashSet<UserId>> = found;
            let ghost before = channels_view(channels);
            assert(before == channels_of(old(voice_map)@, guild_id));
            match channels.remove(&channel_id) {
                None => {
                    assert(channels_view(channels) =~= before);
                },
                Some(seated) => {
                    let mut members: HashSet<UserId> = seated;
                    assert(members@ == before[channel_id]);
                    members.remove(&user_id);
                    if !members.is_empty() {
                        channels.insert(channel_id, members);
                    }
                    assert(channels_view(channels) =~= user_removed_from(
                        before,
                        channel_id,
                        user_id,
                    ));
                },
            }
            assert(channels_view(channels) == user_removed_from(before, channel_id, user_id));
            if !channels.is_empty() {
                voice_map.map.insert(guild_id, channels);
            } else {
                assert(channels_view(channels) =~= Map::<ChannelId, Set<UserId>>::empty());
            }
            assert(voice_map@ =~= user_removed(old(voice_map)@, guild_id, channel_id, user_id));
        },
    }
}

/// Who sits where: the users of each channel, and the place of each user.
#[verifier::ext_equal]
pub struct VoiceView {
    pub guilds: Map<GuildId, Map<ChannelId, Set<UserId>>>,
    pub places: Map<UserId, (GuildId, ChannelId)>,
}

/// The two records of who sits where, together.
pub open spec fn voice_view(voice_map: VoiceChannelMap, user_voice_map: UserVoiceMap) -> VoiceView {
    VoiceView { guilds: voice_map@, places: user_voice_map@ }
}

/// The channel that a user leaves when a new state comes in: the one of the state
/// before, or, where there was no state before, the one that the user is on
/// record for in the same guild.
pub open spec fn channel_left(
    places: Map<UserId, (GuildId, ChannelId)>,
    before: Option<VoiceState>,
    guild_id: GuildId,
    user_id: UserId,
) -> Option<ChannelId> {
    match before {
        Some(state) => state.channel_id,
        None => if places.contains_key(user_id) && places[user_id].0 == guild_id {
            Some(places[user_id].1)
        } else {
            None
        },
    }
}

/// Who sits where once `user_id` has left the channel, if there is one to leave.
pub open spec fn voice_left(
    voice: VoiceView,
    guild_id: GuildId,
    left: Option<ChannelId>,
    user_id: UserId,
) -> VoiceView {
    match left {
        Some(channel_id) => VoiceView {
            guilds: user_removed(voice.guilds, guild_id, channel_id, user_id),
            places: voice.places.remove(user_id),
        },
        None => voice,
    }
}

/// Who sits where once `user_id` has entered the channel, if there is one to
/// enter.
pub open spec fn voice_entered(
    voice: VoiceView,
    guild_id: GuildId,
    entered: Option<ChannelId>,
    user_id: UserId,
) -> VoiceView {
    match entered {
        Some(channel_id) => VoiceView {
            guilds: user_added(voice.guilds, guild_id, channel_id, user_id),
            places: voice.places.insert(user_id, (guild_id, channel_id)),
        },
        None => voice,
    }
}

/// Who sits where once a new state has come in. A state that belongs to no guild
/// is ignored.
pub open spec fn voice_updated(
    voice: VoiceView,
    before: Option<VoiceState>,
    after: VoiceState,
) -> VoiceView {
    match after.guild_id {
        None => voice,
        Some(guild_id) => {
            let left = channel_left(voice.places, before, guild_id, after.user_id);
            voice_entered(
                voice_left(voice, guild_id, left, after.user_id),
                guild_id,
                after.channel_id,
                after.user_id,
            )
        },
    }
}

/// Whether a user is gone from the channel `left` once the user has entered
/// `entered`. One who enters the same channel again is still there.
pub open spec fn is_gone(left: Option<ChannelId>, entered: Option<ChannelId>) -> bool {
    left is Some && entered != left
}

/// Takes in a new voice state. The answer names the user where the user is gone
/// from a channel, and so is to be taken out of the room that goes with it.
pub fn voice_state_update(
    voice_map: &mut VoiceChannelMap,
    user_voice_map: &mut UserVoiceMap,
    before: &Option<VoiceState>,
    after: &VoiceState,
) -> (left: Option<UserId>)
    ensures
        voice_view(*final(voice_map), *final(user_voice_map)) == voice_updated(
            voice_view(*old(voice_map), *old(user_voice_map)),
            *before,
            *after,
        ),
        left == match after.guild_id {
            Some(guild_id) => if is_gone(
                channel_left(old(user_voice_map)@, *before, guild_id, after.user_id),
                after.channel_id,
            ) {
                Some(after.user_id)
            } else {
                None
            },
            None => None,
        },
{
    let guild_id: GuildId = match after.guild_id {
        Some(guild_id) => guild_id,
        None => {
            return None;
        },
    };
    let user_id: UserId = after.user_id;
    let channel_left: Option<ChannelId> = match before {
        Some(state) => state.channel_id,
        None => match user_voice_map.get(&user_id) {
            Some(place) => if place.0 == guild_id {
                Some(place.1)
            } else {
                None
            },
            None => None,
        },
    };
    let mut left: Option<UserId> = None;
    if let Some(channel_id) = channel_left {
        remove_user_from_voice_channel(voice_map, user_voice_map, guild_id, channel_id, user_id);
        let stays: bool = match after.channel_id {
            Some(entered) => entered == channel_id,
            None => false,
        };
        if !stays {
            left = Some(user_id);
        }
    }
    if let Some(channel_id) = after.channel_id {
        add_user_to_voice_channel(voice_map, user_voice_map, guild_id, channel_id, user_id);
    }
    left
}

/// A user who was found in a guild at the start, with the voice channel, if any.
pub type SeenUser = (GuildId, UserId, Option<ChannelId>);

/// Who sits where once everyone in `seen` has been put where they were seen, one
/// after the other.
pub open spec fn voice_scanned(voice: VoiceView, seen: Seq<SeenUser>) -> VoiceView
    decreases seen.len(),
{
    if seen.len() == 0 {
        voice
    } else {
        let (guild_id, user_id, channel_id) = seen.last();
        voice_entered(voice_scanned(voice, seen.drop_last()), guild_id, channel_id, user_id)
    }
}

/// Puts everyone who was found at the start where they were seen.
pub fn scan_existing_voice_states(
    voice_map: &mut VoiceChannelMap,
    user_voice_map: &mut UserVoiceMap,
    seen: &Vec<SeenUser>,
)
    ensures
        voice_view(*final(voice_map), *final(user_voice_map)) == voice_scanned(
            voice_view(*old(voice_map), *old(user_voice_map)),
            seen@,
        ),
{
    let ghost start = voice_view(*voice_map, *user_voice_map);
    let mut i: usize = 0;
    assert(seen@.take(0) == Seq::<SeenUser>::empty());
    while i < seen.len()
        invariant
            i <= seen.len(),
            voice_view(*voice_map, *user_voice_map) == voice_scanned(start, seen@.take(i as int)),
        decreases seen.len() - i,
    {
        let (guild_id, user_id, seat) = seen[i];
        assert(seen@.take(i + 1).drop_last() == seen@.take(i as int));
        if let Some(channel_id) = seat {
            add_user_to_voice_channel(voice_map, user_voice_map, guild_id, channel_id, user_id);
        }
        i = i + 1;
    }
    assert(seen@.take(i as int) == seen@);
}

// Leaving the room that goes with a voice channel.

/// What leaving a voice channel does to the rooms.
pub struct RoomDeparture<T> {
    pub lobby: LobbyView,
    pub channels: Map<Seq<char>, T>,
    pub update: Option<RoomUpdateView>,
    pub closed: Option<T>,
}

/// Whether a room belongs to a voice channel, by its id.
pub open spec fn is_voice_room(room_id: Seq<char>) -> bool {
    "guild-"@.is_prefix_of(room_id) || "discord"@.is_prefix_of(room_id)
}

/// What comes of `user` leaving a voice channel. A user who is on record for the
/// room of a voice channel goes out of it; the room is told, and if nobody is left
/// it goes together with its channel. General rooms are unaffected.
pub open spec fn room_departure<T>(
    lobby: LobbyView,
    channels: Map<Seq<char>, T>,
    user: Seq<char>,
) -> RoomDeparture<T> {
    if !lobby.users.contains_key(user) || !is_voice_room(lobby.users[user]) {
        RoomDeparture { lobby, channels, update: None, closed: None }
    } else {
        let room_id = lobby.users[user];
        let users = lobby.users.remove(user);
        if !lobby.rooms.contains_key(room_id) {
            RoomDeparture {
                lobby: LobbyView { rooms: lobby.rooms, users },
                channels,
                update: None,
                closed: None,
            }
        } else {
            let room = without_member(lobby.rooms[room_id], user);
            let update = announcement(channels, room_id, room);
            if room.members == Set::<Seq<char>>::empty() {
                RoomDeparture {
                    lobby: LobbyView { rooms: lobby.rooms.remove(room_id), users },
                    channels: channels.remove(room.room_id),
                    update,
                    closed: channels.get(room.room_id),
                }
            } else {
                RoomDeparture {
                    lobby: LobbyView { rooms: lobby.rooms.insert(room_id, room), users },
                    channels,
                    update,
                    closed: None,
                }
            }
        }
    }
}

/// What is to be done once a user has left the room of a voice channel: an update
/// to send on the room's channel, and the channel that was closed, if one was.
pub struct Departed<T> {
    pub update: Option<RoomUpdate>,
    pub closed: Option<T>,
}

/// Takes a user who left a voice channel out of the room that goes with it. The
/// user is known to the rooms by the user's number in decimal.
pub fn leave_voice_room<T>(
    state: &mut AppRoomState,
    channels: &mut RoomBroadcaster<T>,
    user_id: UserId,
) -> (departed: Departed<T>)
    ensures
        ({
            let departure = room_departure(old(state)@, old(channels)@, decimal(user_id as nat));
            &&& final(state)@ == departure.lobby
            &&& final(channels)@ == departure.channels
            &&& update_view(departed.update) == departure.update
            &&& departed.closed == departure.closed
        }),
{
    let ghost lobby = state@;
    let user: UserIdStr = decimal_text(user_id);
    let room_id: String = match state.user_map.get(&user) {
        Some(room_id) => room_id.clone(),
        None => {
            return Departed { update: None, closed: None };
        },
    };
    if !starts_with(room_id.as_str(), "guild-") && !starts_with(room_id.as_str(), "discord") {
        return Departed { update: None, closed: None };
    }
    let _ = state.user_map.remove(&user);
    match state.room_map.remove(&room_id) {
        None => {
            assert(state@.rooms =~= lobby.rooms);
            assert(state@.users =~= lobby.users.remove(user@));
            Departed { update: None, closed: None }
        },
        Some(found) => {
            let mut room: Room = found;
            let _ = room.members.remove(&user);
            let ghost now = room@;
            assert(now =~= without_member(lobby.rooms[room_id@], user@));
            let update: Option<RoomUpdate> = announce(channels, &room_id, &room);
            assert(state@.users =~= lobby.users.remove(user@));
            if room.members.is_empty() {
                let closed: Option<T> = channels.remove(&room.room_id);
                assert(state@.rooms =~= lobby.rooms.remove(room_id@));
                Departed { update, closed }
            } else {
                state.room_map.insert(room_id.clone(), room);
                assert(state@.rooms =~= lobby.rooms.insert(room_id@, now));
                Departed { update, closed: None }
            }
        },
    }
}

// Commands.

/// What the command that launches the activity comes to.
#[derive(Debug)]
pub enum PlayStep {
    /// The command fails with this text.
    Fail { message: String },
    /// The command answers with this text.
    Say { message: String },
    /// An invitation to the activity is to be made.
    Invite { channel_id: ChannelId, application_id: u64, max_uses: u8, max_age: u32 },
}

/// The voice channel of a user in a guild, as far as it is on record.
pub open spec fn channel_in_guild(
    places: Map<UserId, (GuildId, ChannelId)>,
    guild_id: GuildId,
    user_id: UserId,
) -> Option<ChannelId> {
    if places.contains_key(user_id) && places[user_id].0 == guild_id {
        Some(places[user_id].1)
    } else {
        None
    }
}

/// Launches the activity in the user's current voice channel: an invitation for
/// up to a hundred users and for one day.
pub fn play(
    user_voice_map: &UserVoiceMap,
    application_id: u64,
    guild_id: Option<GuildId>,
    author_id: UserId,
) -> (step: PlayStep)
    ensures
        match guild_id {
            None => step matches PlayStep::Fail { message } && message@
                == "This command can only be used in a server."@,
            Some(guild) => match channel_in_guild(user_voice_map@, guild, author_id) {
                None => step matches PlayStep::Say { message } && message@
                    == "You must be in a voice channel to start an activity."@,
                Some(channel) => step == (PlayStep::Invite {
                    channel_id: channel,
                    application_id,
                    max_uses: 100,
                    max_age: 86_400,
                }),
            },
        },
{
    match guild_id {
        None => PlayStep::Fail {
            message: "This command can only be used in a server.".to_owned(),
        },
        Some(guild) => {
            let channel: Option<ChannelId> = match user_voice_map.get(&author_id) {
                Some(place) => if place.0 == guild {
                    Some(place.1)
                } else {
                    None
                },
                None => None,
            };
            match channel {
                Some(channel_id) => PlayStep::Invite {
                    channel_id,
                    application_id,
                    max_uses: 100,
                    max_age: 86_400,
                },
                None => PlayStep::Say {
                    message: "You must be in a voice channel to start an activity.".to_owned(),
                },
            }
        },
    }
}

/// What the launch command answers once the invitation with `code` is made.
pub fn invite_reply(code: &str) -> (reply: String)
    ensures
        reply@ == "Join the activity: https://discord.gg/"@ + code@,
{
    let mut reply: String = "Join the activity: https://discord.gg/".to_owned();
    reply.append(code);
    reply
}

/// What the ping command answers.
pub fn ping() -> (reply: String)
    ensures
        reply@ == "Pong!"@,
{
    "Pong!".to_owned()
}

} // verus!
