//! The data that the server keeps and exchanges.

use std::collections::{HashMap, HashSet};

use vstd::prelude::*;

use crate::collections::{StringMap, StringSet};

verus! {

/// A user of the chat service, by number.
pub type UserId = u64;

/// A guild of the chat service, by number.
pub type GuildId = u64;

/// A channel of the chat service, by number.
pub type ChannelId = u64;

/// A user of the rooms, by the text that the client gave.
pub type UserIdStr = String;

/// A room, by its text.
pub type RoomId = String;

/// The request cannot be served as it stands.
pub const BAD_REQUEST: u16 = 400;

/// What the request speaks of does not exist.
pub const NOT_FOUND: u16 = 404;

/// The server failed.
pub const INTERNAL_SERVER_ERROR: u16 = 500;

// Voice channels.

/// The users in voice channels, by guild and then by channel.
pub struct VoiceChannelMap {
    pub map: HashMap<GuildId, HashMap<ChannelId, HashSet<UserId>>>,
}

/// The guild and the channel in which a user was last seen.
pub type UserVoiceMap = HashMap<UserId, (GuildId, ChannelId)>;

impl Default for VoiceChannelMap {
    fn default() -> (map: Self)
        ensures
            map@ == Map::<GuildId, Map<ChannelId, Set<UserId>>>::empty(),
    {
        let map = VoiceChannelMap { map: HashMap::new() };
        assert(map@ =~= Map::<GuildId, Map<ChannelId, Set<UserId>>>::empty());
        map
    }
}

impl View for VoiceChannelMap {
    type V = Map<GuildId, Map<ChannelId, Set<UserId>>>;

    open spec fn view(&self) -> Map<GuildId, Map<ChannelId, Set<UserId>>> {
        self.map@.map_values(|channels: HashMap<ChannelId, HashSet<UserId>>| channels_view(channels))
    }
}

/// The channels of one guild, each with its users.
pub open spec fn channels_view(channels: HashMap<ChannelId, HashSet<UserId>>) -> Map<
    ChannelId,
    Set<UserId>,
> {
    channels@.map_values(|members: HashSet<UserId>| members@)
}

// Sign-in.

/// A request to turn a sign-in code into an access token.
pub struct TokenRequest {
    pub code: String,
}

/// The access token that the client gets.
#[derive(Debug)]
pub struct TokenResponse {
    pub access_token: String,
}

/// What the chat service answers to a token request.
#[derive(Debug)]
pub struct DiscordTokenResponse {
    pub access_token: String,
    pub token_type: Option<String>,
    pub expires_in: Option<u64>,
    pub refresh_token: Option<String>,
    pub scope: Option<String>,
}

// Rooms.

/// A waiting room.
#[derive(Debug)]
pub struct Room {
    pub room_id: RoomId,
    pub name: String,
    pub owner_id: UserIdStr,
    pub created_at: String,
    pub max_capacity: usize,
    /// The users in the room, each as a user of the chat service or as a general
    /// user.
    pub members: StringSet,
}

/// What a room is: the texts that describe it and the set of its members.
#[verifier::ext_equal]
pub struct RoomView {
    pub room_id: Seq<char>,
    pub name: Seq<char>,
    pub owner_id: Seq<char>,
    pub created_at: Seq<char>,
    pub max_capacity: usize,
    pub members: Set<Seq<char>>,
}

impl View for Room {
    type V = RoomView;

    open spec fn view(&self) -> RoomView {
        RoomView {
            room_id: self.room_id@,
            name: self.name@,
            owner_id: self.owner_id@,
            created_at: self.created_at@,
            max_capacity: self.max_capacity,
            members: self.members@,
        }
    }
}

impl Clone for Room {
    fn clone(&self) -> (copy: Self)
        ensures
            copy@ == self@,
    {
        Room {
            room_id: self.room_id.clone(),
            name: self.name.clone(),
            owner_id: self.owner_id.clone(),
            created_at: self.created_at.clone(),
            max_capacity: self.max_capacity,
            members: self.members.clone(),
        }
    }
}

impl Room {
    /// The room itself.
    pub fn as_ref(&self) -> (room: &Room)
        ensures
            room == self,
    {
        self
    }
}

/// A room as it goes out to clients.
#[derive(Debug)]
pub struct RoomSerialize {
    pub room_id: String,
    pub name: String,
    pub owner_id: String,
    pub created_at: String,
    pub max_capacity: usize,
    /// The users in the room, each as a user of the chat service or as a general
    /// user.
    pub members: StringSet,
}

impl View for RoomSerialize {
    type V = RoomView;

    open spec fn view(&self) -> RoomView {
        RoomView {
            room_id: self.room_id@,
            name: self.name@,
            owner_id: self.owner_id@,
            created_at: self.created_at@,
            max_capacity: self.max_capacity,
            members: self.members@,
        }
    }
}

impl Clone for RoomSerialize {
    fn clone(&self) -> (copy: Self)
        ensures
            copy@ == self@,
    {
        RoomSerialize {
            room_id: self.room_id.clone(),
            name: self.name.clone(),
            owner_id: self.owner_id.clone(),
            created_at: self.created_at.clone(),
            max_capacity: self.max_capacity,
            members: self.members.clone(),
        }
    }
}

impl From<&Room> for RoomSerialize {
    /// The room as it goes out: every field as it is.
    fn from(internal: &Room) -> (sent: Self)
        ensures
            sent@ == internal@,
    {
        RoomSerialize {
            room_id: internal.room_id.clone(),
            name: internal.name.clone(),
            owner_id: internal.owner_id.clone(),
            created_at: internal.created_at.clone(),
            max_capacity: internal.max_capacity,
            members: internal.members.clone(),
        }
    }
}

// The set of members is copied: it holds the same texts, but is another value.
impl vstd::std_specs::convert::FromSpecImpl<&Room> for RoomSerialize {
    open spec fn obeys_from_spec() -> bool {
        false
    }

    open spec fn from_spec(internal: &Room) -> Self {
        RoomSerialize {
            room_id: internal.room_id,
            name: internal.name,
            owner_id: internal.owner_id,
            created_at: internal.created_at,
            max_capacity: internal.max_capacity,
            members: internal.members,
        }
    }
}

/// All rooms and all users in them.
#[derive(Debug)]
pub struct AppRoomState {
    /// Every active room, under its id.
    pub room_map: StringMap<Room>,
    /// The reverse: the room of each user who is in one.
    pub user_map: StringMap<RoomId>,
}

/// The rooms by id, and the room of each user.
#[verifier::ext_equal]
pub struct LobbyView {
    pub rooms: Map<Seq<char>, RoomView>,
    pub users: Map<Seq<char>, Seq<char>>,
}

impl View for AppRoomState {
    type V = LobbyView;

    open spec fn view(&self) -> LobbyView {
        LobbyView {
            rooms: self.room_map@.map_values(|room: Room| room@),
            users: self.user_map@.map_values(|room_id: RoomId| room_id@),
        }
    }
}

impl Default for AppRoomState {
    fn default() -> (state: Self)
        ensures
            state@ == empty_lobby(),
    {
        let state = AppRoomState { room_map: StringMap::new(), user_map: StringMap::new() };
        assert(state@ =~= empty_lobby());
        state
    }
}

/// No rooms and no users.
pub open spec fn empty_lobby() -> LobbyView {
    LobbyView { rooms: Map::empty(), users: Map::empty() }
}

/// The channel on which each room's updates go out, under the room's id. `T` is
/// whatever the transport sends on.
pub type RoomBroadcaster<T> = StringMap<T>;

// Socket messages.

/// Who a client says it is.
#[derive(Debug, Clone)]
pub enum AuthInfoType {
    Discord { user_id: String, guild_id: String, channel_id: String },
    General { user_id: String },
}

/// What a client can say over its socket.
#[derive(Debug)]
pub enum ClientMessage {
    Connect { auth: AuthInfoType, room_id: String },
    CreateRoom { auth: AuthInfoType, max_capacity: usize, name: String },
    LeaveRoom { room_id: String },
    Ping,
}

/// What the server can say over a socket.
#[derive(Debug)]
pub enum ServerMessage {
    Error { message: String },
    RoomState(RoomSerialize),
    Pong,
}

/// What a server message says.
#[verifier::ext_equal]
pub enum ServerMessageView {
    Error { message: Seq<char> },
    RoomState(RoomView),
    Pong,
}

impl View for ServerMessage {
    type V = ServerMessageView;

    open spec fn view(&self) -> ServerMessageView {
        match self {
            ServerMessage::Error { message } => ServerMessageView::Error { message: message@ },
            ServerMessage::RoomState(room) => ServerMessageView::RoomState(room@),
            ServerMessage::Pong => ServerMessageView::Pong,
        }
    }
}

impl Clone for ServerMessage {
    fn clone(&self) -> (copy: Self)
        ensures
            copy@ == self@,
    {
        match self {
            ServerMessage::Error { message } => ServerMessage::Error { message: message.clone() },
            ServerMessage::RoomState(room) => ServerMessage::RoomState(room.clone()),
            ServerMessage::Pong => ServerMessage::Pong,
        }
    }
}

impl ServerMessage {
    /// What a failed delivery of this message is called: an error by its own
    /// text, anything else `message`.
    pub fn delivery_label(self) -> (label: String)
        ensures
            label@ == match self@ {
                ServerMessageView::Error { message } => message,
                _ => "message"@,
            },
    {
        match self {
            ServerMessage::Error { message } => message,
            _ => "message".to_owned(),
        }
    }
}

/// An update of a room, to be sent on the room's channel.
#[derive(Debug)]
pub struct RoomUpdate {
    pub room_id: RoomId,
    pub message: ServerMessage,
}

/// Which room an update is for and what it says.
#[verifier::ext_equal]
pub struct RoomUpdateView {
    pub room_id: Seq<char>,
    pub message: ServerMessageView,
}

impl View for RoomUpdate {
    type V = RoomUpdateView;

    open spec fn view(&self) -> RoomUpdateView {
        RoomUpdateView { room_id: self.room_id@, message: self.message@ }
    }
}

/// The update, if there is one.
pub open spec fn update_view(update: Option<RoomUpdate>) -> Option<RoomUpdateView> {
    match update {
        Some(u) => Some(u@),
        None => None,
    }
}

// Errors.

/// Why a request was refused.
#[derive(Debug, Clone)]
pub struct ApiError {
    pub status_code: u16,
    pub message: String,
}

/// The status and the text of a refusal.
#[verifier::ext_equal]
pub struct ApiErrorView {
    pub status_code: u16,
    pub message: Seq<char>,
}

impl View for ApiError {
    type V = ApiErrorView;

    open spec fn view(&self) -> ApiErrorView {
        ApiErrorView { status_code: self.status_code, message: self.message@ }
    }
}

/// The body of a refusal as it goes out.
#[derive(Debug)]
pub struct ErrorBody {
    pub error: bool,
    pub code: u16,
    pub message: String,
}

impl ApiError {
    /// The status and the body to answer with.
    pub fn into_response(self) -> (answer: (u16, ErrorBody))
        ensures
            answer.0 == self.status_code,
            answer.1.error,
            answer.1.code == self.status_code,
            answer.1.message@ == self.message@,
    {
        let code: u16 = self.status_code;
        (code, ErrorBody { error: true, code, message: self.message })
    }
}

} // verus!
