//! Who a client is: sign-in over the socket, and the exchange of a sign-in code
//! for an access token.

use vstd::prelude::*;

use crate::text::{decimal, decimal_text, parse_u64, parsed_u64};
use crate::types::{
    AuthInfoType, ChannelId, DiscordTokenResponse, GuildId, ServerMessage, ServerMessageView,
    TokenRequest, TokenResponse, UserId, UserIdStr, UserVoiceMap, INTERNAL_SERVER_ERROR,
};

verus! {

broadcast use vstd::std_specs::hash::group_hash_axioms;

// Sign-in over the socket.

/// Whether no number in a sign-in is zero, which stands for nothing in the chat
/// service.
pub open spec fn ids_usable(auth: AuthInfoType) -> bool {
    match auth {
        AuthInfoType::Discord { user_id, guild_id, channel_id } => {
            &&& parsed_u64(user_id@) != Some(0u64)
            &&& parsed_u64(guild_id@) != Some(0u64)
            &&& parsed_u64(channel_id@) != Some(0u64)
        },
        AuthInfoType::General { .. } => true,
    }
}

/// Whether no number in a sign-in is zero.
pub fn has_usable_ids(auth: &AuthInfoType) -> (yes: bool)
    ensures
        yes == ids_usable(*auth),
{
    match auth {
        AuthInfoType::Discord { user_id, guild_id, channel_id } => {
            !is_zero(user_id) && !is_zero(guild_id) && !is_zero(channel_id)
        },
        AuthInfoType::General { .. } => true,
    }
}

/// Whether a text says zero.
fn is_zero(id: &String) -> (yes: bool)
    ensures
        yes == (parsed_u64(id@) == Some(0u64)),
{
    match parse_u64(id.as_str()) {
        Some(n) => n == 0,
        None => false,
    }
}

/// The user, the guild and the channel that a sign-in names, where all three are
/// numbers.
pub open spec fn named_place(
    user_id: Seq<char>,
    guild_id: Seq<char>,
    channel_id: Seq<char>,
) -> Option<(UserId, (GuildId, ChannelId))> {
    match (parsed_u64(user_id), parsed_u64(guild_id), parsed_u64(channel_id)) {
        (Some(u), Some(g), Some(c)) => Some((u, (g, c))),
        _ => None,
    }
}

/// Whether `user` is on record as sitting in `place`.
pub open spec fn sits_in(
    places: Map<UserId, (GuildId, ChannelId)>,
    user: UserId,
    place: (GuildId, ChannelId),
) -> bool {
    places.contains_key(user) && places[user] == place
}

/// What comes of a sign-in with a connect message: the user as the client wrote
/// it, or the reason against it. A user of the chat service must be on record in
/// the voice channel that the sign-in names.
pub open spec fn auth_outcome(
    auth: AuthInfoType,
    places: Map<UserId, (GuildId, ChannelId)>,
) -> Result<Seq<char>, Seq<char>> {
    match auth {
        AuthInfoType::Discord { user_id, guild_id, channel_id } => match named_place(
            user_id@,
            guild_id@,
            channel_id@,
        ) {
            None => Err("Invalid user, guild or channel ID"@),
            Some((user, place)) => if sits_in(places, user, place) {
                Ok(user_id@)
            } else {
                Err("Invalid voice channel"@)
            },
        },
        AuthInfoType::General { user_id } => Ok(user_id@),
    }
}

/// The user, the guild and the channel that a sign-in names.
fn place_named(user_id: &String, guild_id: &String, channel_id: &String) -> (named: Option<
    (UserId, (GuildId, ChannelId)),
>)
    ensures
        named == named_place(user_id@, guild_id@, channel_id@),
{
    match (
        parse_u64(user_id.as_str()),
        parse_u64(guild_id.as_str()),
        parse_u64(channel_id.as_str()),
    ) {
        (Some(u), Some(g), Some(c)) => Some((u, (g, c))),
        _ => None,
    }
}

/// Whether `user` is on record as sitting in `place`.
fn is_seated(places: &UserVoiceMap, user: UserId, place: (GuildId, ChannelId)) -> (yes: bool)
    ensures
        yes == sits_in(places@, user, place),
{
    match places.get(&user) {
        Some(seat) => seat.0 == place.0 && seat.1 == place.1,
        None => false,
    }
}

/// Checks a sign-in that came with a connect message.
pub fn validate_auth_info(auth: AuthInfoType, places: &UserVoiceMap) -> (res: Result<
    UserIdStr,
    String,
>)
    requires
        ids_usable(auth),
    ensures
        match auth_outcome(auth, places@) {
            Ok(user) => res matches Ok(u) && u@ == user,
            Err(message) => res matches Err(m) && m@ == message,
        },
{
    match auth {
        AuthInfoType::Discord { user_id, guild_id, channel_id } => {
            match place_named(&user_id, &guild_id, &channel_id) {
                None => Err("Invalid user, guild or channel ID".to_owned()),
                Some((user, place)) => {
                    if is_seated(places, user, place) {
                        Ok(user_id)
                    } else {
                        Err("Invalid voice channel".to_owned())
                    }
                },
            }
        },
        AuthInfoType::General { user_id } => Ok(user_id),
    }
}

/// The first thing that comes over a socket on which a sign-in is awaited.
#[derive(Debug)]
pub enum FirstMessage {
    /// A sign-in.
    Auth(AuthInfoType),
    /// A text that is no sign-in, with what is wrong with it.
    Malformed { error: String },
    /// Anything else, or the end.
    Missing,
}

/// What comes of waiting for a sign-in.
#[derive(Debug)]
pub enum ConnectionCheck {
    /// The client is this user.
    Accepted { user_id: UserIdStr },
    /// The client is to get this message, and is nobody.
    Rejected { reply: ServerMessage },
    /// The client is gone.
    Gone,
}

/// What comes of waiting for a sign-in: the user, by number where the user belongs
/// to the chat service; or nobody, with the message to send, if any.
pub open spec fn connection_outcome(
    first: FirstMessage,
    places: Map<UserId, (GuildId, ChannelId)>,
) -> Result<Seq<char>, Option<Seq<char>>> {
    match first {
        FirstMessage::Missing => Err(None),
        FirstMessage::Malformed { error } => Err(
            Some("Invalid auth message format: "@ + error@),
        ),
        FirstMessage::Auth(AuthInfoType::Discord { user_id, guild_id, channel_id }) => {
            match named_place(user_id@, guild_id@, channel_id@) {
                None => Err(Some("Invalid user, guild or channel ID"@)),
                Some((user, place)) => if sits_in(places, user, place) {
                    Ok(decimal(user as nat))
                } else {
                    Err(Some("Invalid voice channel"@))
                },
            }
        },
        FirstMessage::Auth(AuthInfoType::General { user_id }) => Ok(user_id@),
    }
}

/// Checks the first message on a socket on which a sign-in is awaited.
pub fn validate_connection(first: FirstMessage, places: &UserVoiceMap) -> (check: ConnectionCheck)
    requires
        first matches FirstMessage::Auth(auth) ==> ids_usable(auth),
    ensures
        match connection_outcome(first, places@) {
            Ok(user) => check matches ConnectionCheck::Accepted { user_id } && user_id@ == user,
            Err(Some(message)) => check matches ConnectionCheck::Rejected { reply } && reply@ == (
            ServerMessageView::Error { message }),
            Err(None) => check is Gone,
        },
{
    match first {
        FirstMessage::Missing => ConnectionCheck::Gone,
        FirstMessage::Malformed { error } => {
            let mut message: String = "Invalid auth message format: ".to_owned();
            message.append(error.as_str());
            ConnectionCheck::Rejected { reply: ServerMessage::Error { message } }
        },
        FirstMessage::Auth(AuthInfoType::Discord { user_id, guild_id, channel_id }) => {
            match place_named(&user_id, &guild_id, &channel_id) {
                None => ConnectionCheck::Rejected {
                    reply: ServerMessage::Error {
                        message: "Invalid user, guild or channel ID".to_owned(),
                    },
                },
                Some((user, place)) => {
                    if is_seated(places, user, place) {
                        ConnectionCheck::Accepted { user_id: decimal_text(user) }
                    } else {
                        ConnectionCheck::Rejected {
                            reply: ServerMessage::Error {
                                message: "Invalid voice channel".to_owned(),
                            },
                        }
                    }
                },
            }
        },
        FirstMessage::Auth(AuthInfoType::General { user_id }) => ConnectionCheck::Accepted {
            user_id,
        },
    }
}

// The exchange of a code for a token.

/// The form that asks the chat service for a token: the application's own id and
/// secret, and the code that the client sent.
pub fn token_form(client_id: String, client_secret: String, request: TokenRequest) -> (form: Vec<
    (String, String),
>)
    ensures
        form@.len() == 4,
        form@[0].0@ == "client_id"@ && form@[0].1@ == client_id@,
        form@[1].0@ == "client_secret"@ && form@[1].1@ == client_secret@,
        form@[2].0@ == "grant_type"@ && form@[2].1@ == "authorization_code"@,
        form@[3].0@ == "code"@ && form@[3].1@ == request.code@,
{
    let mut form: Vec<(String, String)> = Vec::new();
    form.push(("client_id".to_owned(), client_id));
    form.push(("client_secret".to_owned(), client_secret));
    form.push(("grant_type".to_owned(), "authorization_code".to_owned()));
    form.push(("code".to_owned(), request.code));
    form
}

/// What came of asking the chat service for a token.
#[derive(Debug)]
pub enum TokenReply {
    /// An answer that could be read.
    Answered(DiscordTokenResponse),
    /// An answer that could not be read.
    Unreadable,
    /// No answer.
    Unreachable,
}

/// The answer to a client that sent a code: the access token alone, or the
/// failure of the server.
pub fn exchange_code_for_token(reply: TokenReply) -> (res: Result<TokenResponse, u16>)
    ensures
        match reply {
            TokenReply::Answered(token) => res matches Ok(r) && r.access_token@
                == token.access_token@,
            _ => res matches Err(status) && status == INTERNAL_SERVER_ERROR,
        },
{
    match reply {
        TokenReply::Answered(token) => Ok(TokenResponse { access_token: token.access_token }),
        TokenReply::Unreadable => Err(INTERNAL_SERVER_ERROR),
        TokenReply::Unreachable => Err(INTERNAL_SERVER_ERROR),
    }
}

} // verus!
