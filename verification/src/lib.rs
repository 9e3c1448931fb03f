//! The rules of a waiting-room server for a voice-channel game: rooms and their
//! members, the voice channels that users sit in, and the conversation that a
//! client holds over its socket.

pub mod auth;
pub mod clock;
pub mod collections;
pub mod config;
pub mod effects;
pub mod laws;
pub mod payloads;
pub mod rooms;
pub mod session;
pub mod text;
pub mod types;
pub mod utils;
pub mod voice;
