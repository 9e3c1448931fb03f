//! One client's conversation over its socket, from the first message to the
//! clean-up after the last.

use vstd::prelude::*;

use crate::auth::{auth_outcome, ids_usable, validate_auth_info};
use crate::rooms::{
    announce, announcement, join_outcome, lobby_after_join, lobby_healed, lobby_left,
    without_member, JoinRefusal,
};
use crate::types::{
    update_view, AppRoomState, AuthInfoType, ChannelId, ClientMessage, GuildId, LobbyView,
    RoomBroadcaster, RoomId, RoomSerialize, RoomUpdate, RoomUpdateView, RoomView, ServerMessage,
    ServerMessageView, UserId, UserIdStr, UserVoiceMap,
};

verus! {

/// How long a client can be silent before being disconnected: thirty seconds, in
/// nanoseconds.
pub const HEARTBEAT_TIMEOUT: u128 = 30_000_000_000;

/// What the server knows about one client's socket. Times are in nanoseconds from
/// any fixed moment.
#[derive(Debug)]
pub struct Session {
    /// The user, once the client has got into a room.
    pub user_id: Option<UserIdStr>,
    /// The room that the client is in.
    pub current_room_id: Option<RoomId>,
    /// Whether the client gets the updates of a room's channel.
    pub subscribed: bool,
    /// When the client was last heard.
    pub last_heartbeat: u128,
}

/// What the server knows about one client's socket.
#[verifier::ext_equal]
pub struct SessionView {
    pub user: Option<Seq<char>>,
    pub room: Option<Seq<char>>,
    pub subscribed: bool,
    pub last_heartbeat: u128,
}

/// The text, if there is one.
pub open spec fn text_view(text: Option<String>) -> Option<Seq<char>> {
    match text {
        Some(t) => Some(t@),
        None => None,
    }
}

impl View for Session {
    type V = SessionView;

    open spec fn view(&self) -> SessionView {
        SessionView {
            user: text_view(self.user_id),
            room: text_view(self.current_room_id),
            subscribed: self.subscribed,
            last_heartbeat: self.last_heartbeat,
        }
    }
}

/// What can happen on a socket.
#[derive(Debug)]
pub enum SocketEvent {
    /// The time to wait for the client is over.
    Timer,
    /// The client sent a message.
    Text(ClientMessage),
    /// The client sent a text that is no message, with what is wrong with it.
    Malformed { error: String },
    /// The client closed the connection, or nothing more can come from it.
    Close,
    /// The client sent a ping frame.
    Ping,
    /// The client sent a pong frame.
    Pong,
    /// The connection failed.
    Failed,
    /// The client sent a frame of another kind.
    Other,
    /// A message came in on the room's channel.
    Update(ServerMessage),
    /// The client was too slow for the room's channel and missed messages.
    Lagged { missed: u64 },
    /// The room's channel was closed.
    ChannelClosed,
}

/// What is to be done after an event.
#[derive(Debug)]
pub enum Reaction {
    /// Nothing: wait for the next event.
    Wait,
    /// Send the client this message, then wait.
    Reply(ServerMessage),
    /// Send the client this message, then end the conversation and clean up.
    Dismiss(ServerMessage),
    /// End the conversation and clean up.
    Close,
    /// Check the sign-in and try to get the client into the room.
    Connect { auth: AuthInfoType, room_id: RoomId },
}

/// What is to be done after an event.
#[verifier::ext_equal]
pub enum ReactionView {
    Wait,
    Reply(ServerMessageView),
    Dismiss(ServerMessageView),
    Close,
    Connect { auth: AuthInfoType, room_id: Seq<char> },
}

impl View for Reaction {
    type V = ReactionView;

    open spec fn view(&self) -> ReactionView {
        match self {
            Reaction::Wait => ReactionView::Wait,
            Reaction::Reply(message) => ReactionView::Reply(message@),
            Reaction::Dismiss(message) => ReactionView::Dismiss(message@),
            Reaction::Close => ReactionView::Close,
            Reaction::Connect { auth, room_id } => ReactionView::Connect {
                auth: *auth,
                room_id: room_id@,
            },
        }
    }
}

/// A reply that tells the client what went wrong.
pub open spec fn error_reply(message: Seq<char>) -> ReactionView {
    ReactionView::Reply(ServerMessageView::Error { message })
}

/// Whether an event comes from the client rather than from the timer or the room's
/// channel.
pub open spec fn from_client(event: SocketEvent) -> bool {
    match event {
        SocketEvent::Timer => false,
        SocketEvent::Update(_) => false,
        SocketEvent::Lagged { .. } => false,
        SocketEvent::ChannelClosed => false,
        _ => true,
    }
}

/// What is to be done about a message from a client. One who is in a room can
/// leave or ping, one who is not can only connect.
pub open spec fn message_reaction(connected: bool, message: ClientMessage) -> ReactionView {
    match message {
        ClientMessage::Connect { auth, room_id } => if connected {
            error_reply("Already in a room."@)
        } else {
            ReactionView::Connect { auth, room_id: room_id@ }
        },
        ClientMessage::CreateRoom { .. } => if connected {
            error_reply("Already in a room."@)
        } else {
            error_reply("Not connected. Send a Connect message first."@)
        },
        ClientMessage::LeaveRoom { .. } => if connected {
            ReactionView::Close
        } else {
            error_reply("Not connected. Send a Connect message first."@)
        },
        ClientMessage::Ping => if connected {
            ReactionView::Reply(ServerMessageView::Pong)
        } else {
            error_reply("Not connected. Send a Connect message first."@)
        },
    }
}

/// What is to be done about a message from the room's channel: the state of the
/// client's own room is passed on, anything else is not.
pub open spec fn update_reaction(
    room_id: Option<Seq<char>>,
    message: ServerMessageView,
) -> ReactionView {
    match message {
        ServerMessageView::RoomState(room) => if room_id == Some(room.room_id) {
            ReactionView::Reply(message)
        } else {
            ReactionView::Wait
        },
        _ => ReactionView::Wait,
    }
}

/// How long the client has been silent at `now`.
pub open spec fn silence(session: SessionView, now: u128) -> int {
    if now <= session.last_heartbeat {
        0
    } else {
        now - session.last_heartbeat
    }
}

/// How much longer the client can be silent at `now`.
pub open spec fn patience(session: SessionView, now: u128) -> int {
    if silence(session, now) >= HEARTBEAT_TIMEOUT {
        0
    } else {
        HEARTBEAT_TIMEOUT - silence(session, now)
    }
}

/// What is to be done after an event at `now`. Whatever else happens, a client that
/// has been silent for too long is cut off.
pub open spec fn event_reaction(
    session: SessionView,
    now: u128,
    event: SocketEvent,
) -> ReactionView {
    if !from_client(event) && patience(session, now) == 0 {
        ReactionView::Close
    } else {
        match event {
            SocketEvent::Text(message) => message_reaction(session.user is Some, message),
            SocketEvent::Malformed { error } => error_reply("Invalid message: "@ + error@),
            SocketEvent::Close => ReactionView::Close,
            SocketEvent::Failed => ReactionView::Close,
            SocketEvent::Update(message) => update_reaction(session.room, message@),
            _ => ReactionView::Wait,
        }
    }
}

/// What the server knows after an event at `now`. The user and the room stay: a
/// client that asks to leave leaves the room that it is in.
pub open spec fn session_after(
    session: SessionView,
    now: u128,
    event: SocketEvent,
) -> SessionView {
    SessionView {
        subscribed: session.subscribed && !(event is ChannelClosed),
        last_heartbeat: if from_client(event) {
            now
        } else {
            session.last_heartbeat
        },
        ..session
    }
}

/// What comes of a sign-in with a connect message: the user and the room with the
/// user in it, or the first reason against it. A record for a room that went does
/// not count.
pub open spec fn connect_outcome(
    lobby: LobbyView,
    places: Map<UserId, (GuildId, ChannelId)>,
    auth: AuthInfoType,
    room_id: Seq<char>,
) -> Result<(Seq<char>, RoomView), Seq<char>> {
    match auth_outcome(auth, places) {
        Err(message) => Err(message),
        Ok(user) => match join_outcome(lobby_healed(lobby, user), user, room_id) {
            Ok(room) => Ok((user, room)),
            Err(JoinRefusal::AlreadyInRoom) => Err("User is already in a room."@),
            Err(JoinRefusal::NoSuchRoom) => Err("Room not found"@),
            Err(JoinRefusal::Full) => Err("Room is full"@),
        },
    }
}

/// The lobby once a client has sent a connect message. A sign-in that is refused
/// changes nothing; one that is not drops a record for a room that went, whether
/// the user then gets in or not.
pub open spec fn lobby_after_connect(
    lobby: LobbyView,
    places: Map<UserId, (GuildId, ChannelId)>,
    auth: AuthInfoType,
    room_id: Seq<char>,
) -> LobbyView {
    match auth_outcome(auth, places) {
        Ok(user) => lobby_after_join(lobby_healed(lobby, user), user, room_id),
        Err(_) => lobby,
    }
}

/// What goes out once a client has got into a room: a message to the client, and
/// the same to everyone on the room's channel.
#[derive(Debug)]
pub struct Connected {
    pub reply: ServerMessage,
    pub update: RoomUpdate,
}

/// What the clean-up after a conversation does to the rooms.
pub open spec fn lobby_closed(session: SessionView, lobby: LobbyView) -> LobbyView {
    match (session.user, session.room) {
        (Some(user), Some(room_id)) => lobby_left(lobby, user, room_id),
        _ => lobby,
    }
}

/// The update that goes out after a conversation: the room without the user, where
/// the user was in it and the room has a channel.
pub open spec fn closing_update<T>(
    session: SessionView,
    lobby: LobbyView,
    channels: Map<Seq<char>, T>,
) -> Option<RoomUpdateView> {
    match (session.user, session.room) {
        (Some(user), Some(room_id)) => if lobby.rooms.contains_key(room_id)
            && lobby.rooms[room_id].members.contains(user) {
            announcement(channels, room_id, without_member(lobby.rooms[room_id], user))
        } else {
            None
        },
        _ => None,
    }
}

impl Session {
    /// A socket that was opened at `now`.
    pub fn new(now: u128) -> (session: Self)
        ensures
            session@ == (SessionView {
                user: None,
                room: None,
                subscribed: false,
                last_heartbeat: now,
            }),
    {
        Session { user_id: None, current_room_id: None, subscribed: false, last_heartbeat: now }
    }

    /// How much longer the client can be silent at `now`: the time to wait for the
    /// next event.
    pub fn time_left(&self, now: u128) -> (left: u128)
        ensures
            left == patience(self@, now),
    {
        if now <= self.last_heartbeat {
            HEARTBEAT_TIMEOUT
        } else {
            let silent: u128 = now - self.last_heartbeat;
            if silent >= HEARTBEAT_TIMEOUT {
                0
            } else {
                HEARTBEAT_TIMEOUT - silent
            }
        }
    }

    /// Takes in an event at `now`, and says what is to be done.
    pub fn on_event(&mut self, now: u128, event: SocketEvent) -> (reaction: Reaction)
        ensures
            final(self)@ == session_after(old(self)@, now, event),
            reaction@ == event_reaction(old(self)@, now, event),
    {
        match event {
            SocketEvent::Timer => self.unless_silent(now, Reaction::Wait),
            SocketEvent::Update(message) => {
                let reaction: Reaction = self.on_update(message);
                self.unless_silent(now, reaction)
            },
            SocketEvent::Lagged { .. } => self.unless_silent(now, Reaction::Wait),
            SocketEvent::ChannelClosed => {
                self.subscribed = false;
                self.unless_silent(now, Reaction::Wait)
            },
            SocketEvent::Text(message) => {
                self.last_heartbeat = now;
                self.on_message(message)
            },
            SocketEvent::Malformed { error } => {
                self.last_heartbeat = now;
                let mut message: String = "Invalid message: ".to_owned();
                message.append(error.as_str());
                Reaction::Reply(ServerMessage::Error { message })
            },
            SocketEvent::Close => {
                self.last_heartbeat = now;
                Reaction::Close
            },
            SocketEvent::Failed => {
                self.last_heartbeat = now;
                Reaction::Close
            },
            SocketEvent::Ping => {
                self.last_heartbeat = now;
                Reaction::Wait
            },
            SocketEvent::Pong => {
                self.last_heartbeat = now;
                Reaction::Wait
            },
            SocketEvent::Other => {
                self.last_heartbeat = now;
                Reaction::Wait
            },
        }
    }

    /// The reaction to an event that is not the client's own, unless the client has
    /// been silent for too long.
    fn unless_silent(&self, now: u128, reaction: Reaction) -> (res: Reaction)
        ensures
            res@ == if patience(self@, now) == 0 {
                ReactionView::Close
            } else {
                reaction@
            },
    {
        if self.time_left(now) == 0 {
            Reaction::Close
        } else {
            reaction
        }
    }

    /// Passes on a message from the room's channel, where it is about the client's
    /// room.
    fn on_update(&self, message: ServerMessage) -> (reaction: Reaction)
        ensures
            reaction@ == update_reaction(self@.room, message@),
    {
        match message {
            ServerMessage::RoomState(room) => {
                let ours: bool = match &self.current_room_id {
                    Some(current) => *current == room.room_id,
                    None => false,
                };
                if ours {
                    Reaction::Reply(ServerMessage::RoomState(room))
                } else {
                    Reaction::Wait
                }
            },
            _ => Reaction::Wait,
        }
    }

    /// Takes in a message from the client.
    fn on_message(&self, message: ClientMessage) -> (reaction: Reaction)
        ensures
            reaction@ == message_reaction(self@.user is Some, message),
    {
        if self.user_id.is_some() {
            match message {
                ClientMessage::LeaveRoom { .. } => Reaction::Close,
                ClientMessage::Ping => Reaction::Reply(ServerMessage::Pong),
                _ => Reaction::Reply(
                    ServerMessage::Error { message: "Already in a room.".to_owned() },
                ),
            }
        } else {
            match message {
                ClientMessage::Connect { auth, room_id } => Reaction::Connect { auth, room_id },
                _ => Reaction::Reply(
                    ServerMessage::Error {
                        message: "Not connected. Send a Connect message first.".to_owned(),
                    },
                ),
            }
        }
    }

    /// Checks a sign-in and gets the client into the room. On a refusal the client
    /// is told why, and the conversation ends. A record for a room that went is
    /// dropped, whether the user gets in or not.
    pub fn connect(
        &mut self,
        state: &mut AppRoomState,
        places: &UserVoiceMap,
        auth: AuthInfoType,
        room_id: RoomId,
    ) -> (res: Result<Connected, Reaction>)
        requires
            ids_usable(auth),
        ensures
            match connect_outcome(old(state)@, places@, auth, room_id@) {
                Ok((user, room)) => {
                    &&& res matches Ok(connected) && connected.reply@
                        == ServerMessageView::RoomState(room) && connected.update@ == (
                    RoomUpdateView {
                        room_id: room_id@,
                        message: ServerMessageView::RoomState(room),
                    })
                    &&& final(self)@ == (SessionView {
                        user: Some(user),
                        room: Some(room_id@),
                        ..old(self)@
                    })
                },
                Err(message) => {
                    &&& res matches Err(r) && r@ == ReactionView::Dismiss(
                        ServerMessageView::Error { message },
                    )
                    &&& final(self)@ == old(self)@
                },
            },
            final(state)@ == lobby_after_connect(old(state)@, places@, auth, room_id@),
            res matches Ok(connected) ==> connected.reply@ == ServerMessageView::RoomState(
                final(state)@.rooms[room_id@],
            ),
    {
        let user: UserIdStr = match validate_auth_info(auth, places) {
            Ok(user) => user,
            Err(message) => {
                return Err(Reaction::Dismiss(ServerMessage::Error { message }));
            },
        };
        state.heal_record(&user);
        match state.add_member(&user, &room_id) {
            Ok(room) => {
                self.user_id = Some(user);
                self.current_room_id = Some(room_id.clone());
                let reply = ServerMessage::RoomState(RoomSerialize::from(&room));
                let message = ServerMessage::RoomState(RoomSerialize::from(&room));
                Ok(Connected { reply, update: RoomUpdate { room_id, message } })
            },
            Err(JoinRefusal::AlreadyInRoom) => Err(
                Reaction::Dismiss(
                    ServerMessage::Error { message: "User is already in a room.".to_owned() },
                ),
            ),
            Err(JoinRefusal::NoSuchRoom) => Err(
                Reaction::Dismiss(ServerMessage::Error { message: "Room not found".to_owned() }),
            ),
            Err(JoinRefusal::Full) => Err(
                Reaction::Dismiss(ServerMessage::Error { message: "Room is full".to_owned() }),
            ),
        }
    }

    /// Lets the client get the updates of a room. A room without a channel gets the
    /// one that is offered. Says whether there was a channel before.
    pub fn subscribe<T>(
        &mut self,
        channels: &mut RoomBroadcaster<T>,
        room_id: &RoomId,
        offered: T,
    ) -> (existed: bool)
        ensures
            existed == old(channels)@.contains_key(room_id@),
            final(channels)@ == if existed {
                old(channels)@
            } else {
                old(channels)@.insert(room_id@, offered)
            },
            final(self)@ == (SessionView { subscribed: true, ..old(self)@ }),
    {
        self.subscribed = true;
        if channels.contains_key(room_id) {
            true
        } else {
            channels.insert(room_id.clone(), offered);
            false
        }
    }

    /// Cleans up after a conversation: the user goes out of the room and off the
    /// record for it. Gives the update that is to go out on the room's channel.
    pub fn close<T>(self, state: &mut AppRoomState, channels: &RoomBroadcaster<T>) -> (update:
        Option<RoomUpdate>)
        ensures
            final(state)@ == lobby_closed(self@, old(state)@),
            update_view(update) == closing_update(self@, old(state)@, channels@),
            update matches Some(u) ==> u@.message == ServerMessageView::RoomState(
                final(state)@.rooms[u@.room_id],
            ),
    {
        match (self.user_id, self.current_room_id) {
            (Some(user), Some(room_id)) => {
                match state.remove_member(&user, &room_id) {
                    Some((room, was_in)) => {
                        if was_in {
                            announce(channels, &room_id, &room)
                        } else {
                            None
                        }
                    },
                    None => None,
                }
            },
            _ => None,
        }
    }
}

} // verus!
