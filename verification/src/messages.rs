use vstd::prelude::*;

use crate::room::{room_like, RoomInfo};
use crate::{RoomId, UserId};

verus! {

/// Kinds of state change a room can undergo.
#[derive(Copy, Clone, Debug)]
pub enum RoomStateChange {
    UserJoined,
}

/// A client's request to the server.
#[derive(Copy, Clone, Debug)]
pub enum RoomRequest {
    CreateRoom,
    JoinRoom(RoomId),
    LeaveRoom,
    Vote(u32),
    RoomInfo,
    UserInfo,
    Reset,
    Reveal,
}

/// A notification pushed to a client.
#[derive(Debug)]
pub enum RoomMessage {
    UserInfo(UserId),
    RoomCreated(RoomId),
    NoSuchRoom(RoomId),
    RoomInfo(RoomInfo),
    UserJoined(UserId),
    UserLeft(UserId),
    UserVoted(UserId),
    CardsRevealed,
    Reset,
    Disconnected,
}

/// Two notifications carry the same content (room snapshots are compared by
/// their data rather than identity).
pub open spec fn message_like(a: RoomMessage, b: RoomMessage) -> bool {
    match (a, b) {
        (RoomMessage::UserInfo(x), RoomMessage::UserInfo(y)) => x == y,
        (RoomMessage::RoomCreated(x), RoomMessage::RoomCreated(y)) => x == y,
        (RoomMessage::NoSuchRoom(x), RoomMessage::NoSuchRoom(y)) => x == y,
        (RoomMessage::RoomInfo(x), RoomMessage::RoomInfo(y)) => room_like(x, y),
        (RoomMessage::UserJoined(x), RoomMessage::UserJoined(y)) => x == y,
        (RoomMessage::UserLeft(x), RoomMessage::UserLeft(y)) => x == y,
        (RoomMessage::UserVoted(x), RoomMessage::UserVoted(y)) => x == y,
        (RoomMessage::CardsRevealed, RoomMessage::CardsRevealed) => true,
        (RoomMessage::Reset, RoomMessage::Reset) => true,
        (RoomMessage::Disconnected, RoomMessage::Disconnected) => true,
        _ => false,
    }
}

impl Clone for RoomMessage {
    /// Broadcasting pushes one copy of a notification to each recipient.
    fn clone(&self) -> (r: Self)
        ensures
            message_like(r, *self),
    {
        match self {
            RoomMessage::UserInfo(u) => RoomMessage::UserInfo(*u),
            RoomMessage::RoomCreated(id) => RoomMessage::RoomCreated(*id),
            RoomMessage::NoSuchRoom(id) => RoomMessage::NoSuchRoom(*id),
            RoomMessage::RoomInfo(info) => RoomMessage::RoomInfo(info.clone()),
            RoomMessage::UserJoined(u) => RoomMessage::UserJoined(*u),
            RoomMessage::UserLeft(u) => RoomMessage::UserLeft(*u),
            RoomMessage::UserVoted(u) => RoomMessage::UserVoted(*u),
            RoomMessage::CardsRevealed => RoomMessage::CardsRevealed,
            RoomMessage::Reset => RoomMessage::Reset,
            RoomMessage::Disconnected => RoomMessage::Disconnected,
        }
    }
}

} // verus!
