//! Planning-poker room coordination: card decks, votes, room state, the
//! shared session registry with broadcast fan-out, and per-connection
//! sessions with liveness handling.

pub mod cards;
pub mod messages;
pub mod registry;
pub mod room;
pub mod session;
pub mod votes;

use vstd::prelude::*;

verus! {

/// Identifies one live room.
pub type RoomId = u32;

/// Identifies one user; minted once per client and kept for the process lifetime.
pub type UserId = u128;

/// Durable token a client presents to resume its user identity.
pub type SessionId = u128;

/// Identifies one live connection (one open browser tab).
pub type ConnId = u64;

} // verus!
