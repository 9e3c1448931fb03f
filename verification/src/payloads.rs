//! What the room endpoints take and give.

use vstd::prelude::*;

use crate::collections::texts;
use crate::types::{AuthInfoType, Room, RoomView};

verus! {

/// One room in the list of all rooms on the server.
#[derive(Debug)]
pub struct GetAllRoomsPayload {
    pub room_id: String,
    pub name: String,
    pub owner_id: String,
    pub created_at: String,
    pub max_capacity: usize,
    pub number_of_members: usize,
}

impl GetAllRoomsPayload {
    /// Whether this line of the list is the one for `room`.
    pub open spec fn describes(self, room: RoomView) -> bool {
        &&& self.room_id@ == room.room_id
        &&& self.name@ == room.name
        &&& self.owner_id@ == room.owner_id
        &&& self.created_at@ == room.created_at
        &&& self.max_capacity == room.max_capacity
        &&& self.number_of_members == room.members.len()
    }
}

impl From<&Room> for GetAllRoomsPayload {
    /// The line for a room: its texts, its capacity and how many are in it.
    fn from(room: &Room) -> (line: Self)
        ensures
            line.describes(room@),
    {
        GetAllRoomsPayload {
            room_id: room.room_id.clone(),
            name: room.name.clone(),
            owner_id: room.owner_id.clone(),
            created_at: room.created_at.clone(),
            max_capacity: room.max_capacity,
            number_of_members: room.members.len(),
        }
    }
}

impl vstd::std_specs::convert::FromSpecImpl<&Room> for GetAllRoomsPayload {
    open spec fn obeys_from_spec() -> bool {
        true
    }

    open spec fn from_spec(room: &Room) -> Self {
        GetAllRoomsPayload {
            room_id: room.room_id,
            name: room.name,
            owner_id: room.owner_id,
            created_at: room.created_at,
            max_capacity: room.max_capacity,
            number_of_members: room.members@.len() as usize,
        }
    }
}

/// A request to open a room.
///
/// A user of the chat service goes by `discord-<user id>` and a general user by
/// `general-<user id>`.
#[derive(Debug, Clone)]
pub struct CreateRoomRequestPayload {
    pub name: String,
    pub max_capacity: usize,
    pub auth: AuthInfoType,
}

/// The answer to a request to open a room.
#[derive(Debug, Clone)]
pub struct CreateRoomResponsePayload {
    pub response_type: String,
    pub room_id: String,
    pub owner_id: String,
    pub name: String,
    pub created_at: String,
    pub max_capacity: usize,
}

/// A request to join a room.
#[derive(Debug, Clone)]
pub struct JoinRoomRequestPayload {
    pub user_id: String,
    pub room_id: String,
}

/// The answer to a request to join a room.
#[derive(Debug, Clone)]
pub struct JoinRoomResponsePayload {
    pub response_type: String,
    pub room_id: String,
    pub name: String,
    pub owner_id: String,
    pub created_at: String,
    pub max_capacity: usize,
    pub members: Vec<String>,
}

impl JoinRoomResponsePayload {
    /// The answer for a room with these data, marked as one to a join request.
    pub fn new(
        room_id: String,
        name: String,
        owner_id: String,
        created_at: String,
        max_capacity: usize,
        members: Vec<String>,
    ) -> (answer: Self)
        ensures
            answer.response_type@ == "join_room"@,
            answer.room_id == room_id,
            answer.name == name,
            answer.owner_id == owner_id,
            answer.created_at == created_at,
            answer.max_capacity == max_capacity,
            answer.members == members,
    {
        JoinRoomResponsePayload {
            response_type: "join_room".to_owned(),
            room_id,
            name,
            owner_id,
            created_at,
            max_capacity,
            members,
        }
    }

    /// Whether this is the answer for `room`, with each member listed once.
    pub open spec fn describes(self, room: RoomView) -> bool {
        &&& self.response_type@ == "join_room"@
        &&& self.room_id@ == room.room_id
        &&& self.name@ == room.name
        &&& self.owner_id@ == room.owner_id
        &&& self.created_at@ == room.created_at
        &&& self.max_capacity == room.max_capacity
        &&& texts(self.members@).no_duplicates()
        &&& texts(self.members@).to_set() == room.members
    }
}

impl CreateRoomResponsePayload {
    /// The answer for a room with these data, marked as one to a request to open
    /// a room.
    pub fn new(
        room_id: String,
        owner_id: String,
        name: String,
        created_at: String,
        max_capacity: usize,
    ) -> (answer: Self)
        ensures
            answer.response_type@ == "create_room"@,
            answer.room_id == room_id,
            answer.owner_id == owner_id,
            answer.name == name,
            answer.created_at == created_at,
            answer.max_capacity == max_capacity,
    {
        CreateRoomResponsePayload {
            response_type: "create_room".to_owned(),
            room_id,
            owner_id,
            name,
            created_at,
            max_capacity,
        }
    }

    /// Whether this is the answer for `room`.
    pub open spec fn describes(self, room: RoomView) -> bool {
        &&& self.response_type@ == "create_room"@
        &&& self.room_id@ == room.room_id
        &&& self.owner_id@ == room.owner_id
        &&& self.name@ == room.name
        &&& self.created_at@ == room.created_at
        &&& self.max_capacity == room.max_capacity
    }
}

} // verus!
