use vstd::prelude::*;

use crate::messages::{RoomMessage, RoomRequest};
use crate::registry::{
    user_joined_room, user_left_room, user_voted_room, votes_reset_room, votes_revealed_room,
    AppState, User, MAX_ROOM_ID,
};
use crate::room::{is_member, room_like};
use crate::{ConnId, RoomId, SessionId};

verus! {

/// How often liveness probes go downstream, in milliseconds.
pub const HEARTBEAT_INTERVAL_MS: u64 = 5000;

/// How long without inbound activity before a connection counts as dead,
/// in milliseconds.
pub const CLIENT_TIMEOUT_MS: u64 = 10000;

/// The liveness decision: `true` when the connection has gone quiet past
/// the timeout and must be torn down; otherwise a probe is due instead.
pub fn heartbeat_expired(last_activity_ms: u64, now_ms: u64) -> (r: bool)
    ensures
        r == (now_ms > last_activity_ms && now_ms - last_activity_ms > CLIENT_TIMEOUT_MS),
{
    now_ms > last_activity_ms && now_ms - last_activity_ms > CLIENT_TIMEOUT_MS
}

/// Resolves the identity a new connection runs under: a token naming a
/// known user resumes that user (second result `false`); an absent or
/// unknown token mints and registers a fresh user (second result `true`).
pub fn resolve_user(state: &mut AppState, token: Option<SessionId>) -> (r: (User, bool))
    ensures
        !r.1 ==> *final(state) == *old(state),
        r.1 ==> final(state).users@ == old(state).users@.push(r.0) && final(state).clients == old(state).clients && final(state).rooms == old(state).rooms,
        match token {
            Some(t) => {
                &&& !r.1 <==> exists|i: int|
                    0 <= i < old(state).users@.len() && (#[trigger] old(state).users@[i]).session_id
                        == t
                &&& !r.1 ==> r.0.session_id == t && exists|i: int|
                    0 <= i < old(state).users@.len() && (#[trigger] old(state).users@[i]) == r.0
            },
            None => r.1,
        },
{
    match token {
        Some(t) => {
            let existing = state.user_with_session_id(t);
            match existing {
                Some(u) => (u, false),
                None => (state.create_user(), true),
            }
        },
        None => (state.create_user(), true),
    }
}

/// One live connection's protocol state: the resolved user, fixed for the
/// connection's lifetime, and the room it currently sits in, if any.
/// Timing and transport stay outside; inbound requests come through
/// `handle_request`.
#[derive(Debug)]
pub struct Session {
    pub user: User,
    pub room: Option<RoomId>,
}

impl Session {
    /// A session that has joined no room yet.
    pub fn new(user: User) -> (r: Self)
        ensures
            r.user == user,
            r.room is None,
    {
        Self { user, room: None }
    }

    /// Creates a room owned by this session's user and answers its id to
    /// this connection alone.
    pub fn create_room(&mut self, state: &mut AppState) -> (reply: RoomMessage)
        requires
            old(state).wf(),
            old(state).rooms@.len() < MAX_ROOM_ID as int,
        ensures
            final(state).wf(),
            *final(self) == *old(self),
            final(state).clients == old(state).clients,
            final(state).users == old(state).users,
            final(state).rooms@.len() == old(state).rooms@.len() + 1,
            forall|j: int|
                0 <= j < old(state).rooms@.len() ==> final(state).rooms@[j] == old(state).rooms@[j],
            reply matches RoomMessage::RoomCreated(id) && {
                let room = final(state).rooms@.last();
                &&& id < MAX_ROOM_ID
                &&& !old(state).spec_has_room(id)
                &&& room.id == id
                &&& room.admin == old(self).user.id
                &&& room.users@.len() == 0
                &&& !room.revealed
            },
    {
        let room_id = state.create_room(self.user.id);
        RoomMessage::RoomCreated(room_id)
    }

    /// Joins the room when it is live, remembering it as the current room
    /// and broadcasting the join; against an unknown id, answers
    /// `NoSuchRoom` to this connection alone, with no broadcast.
    pub fn join_room(&mut self, room_id: RoomId, state: &mut AppState) -> (r: (
        Option<RoomMessage>,
        Vec<(ConnId, RoomMessage)>,
    ))
        requires
            old(state).wf(),
        ensures
            final(state).wf(),
            final(self).user == old(self).user,
            !old(state).spec_has_room(room_id) ==> {
                &&& *final(state) == *old(state)
                &&& *final(self) == *old(self)
                &&& r.0 == Some(RoomMessage::NoSuchRoom(room_id))
                &&& r.1@.len() == 0
            },
            old(state).spec_has_room(room_id) ==> {
                &&& final(self).room == Some(room_id)
                &&& r.0 is None
                &&& final(state).clients == old(state).clients
                &&& final(state).users == old(state).users
                &&& user_joined_room(*old(state), *final(state), old(self).user.id, room_id, r.1@)
            },
    {
        let room_exists = state.has_room_with_id(room_id);
        if room_exists {
            self.room = Some(room_id);
            let outbox = state.add_user_to_room(self.user.id, room_id);
            (None, outbox)
        } else {
            (Some(RoomMessage::NoSuchRoom(room_id)), Vec::new())
        }
    }

    /// Leaves the current room, if any, clearing it and broadcasting the
    /// leave to the remaining members.
    pub fn leave_room(&mut self, state: &mut AppState) -> (outbox: Vec<(ConnId, RoomMessage)>)
        requires
            old(state).wf(),
        ensures
            final(state).wf(),
            final(self).user == old(self).user,
            final(self).room is None,
            old(self).room is None ==> *final(state) == *old(state) && outbox@.len() == 0,
            old(self).room matches Some(rid) ==> {
                &&& final(state).clients == old(state).clients
                &&& final(state).users == old(state).users
                &&& !old(state).spec_has_room(rid) ==> *final(state) == *old(state)
                    && outbox@.len() == 0
                &&& old(state).spec_has_room(rid) ==> user_left_room(
                    *old(state),
                    *final(state),
                    old(self).user.id,
                    rid,
                    outbox@,
                )
            },
    {
        match self.room {
            Some(rid) => {
                self.room = None;
                state.remove_user_from_room(self.user.id, rid)
            },
            None => Vec::new(),
        }
    }

    /// Casts this user's vote in the current room, if any; ignored without
    /// a current room.
    pub fn vote(&mut self, vote: u32, state: &mut AppState) -> (outbox: Vec<(ConnId, RoomMessage)>)
        requires
            old(state).wf(),
        ensures
            final(state).wf(),
            *final(self) == *old(self),
            old(self).room is None ==> *final(state) == *old(state) && outbox@.len() == 0,
            old(self).room matches Some(rid) ==> {
                &&& final(state).clients == old(state).clients
                &&& final(state).users == old(state).users
                &&& !old(state).spec_has_room(rid) ==> *final(state) == *old(state)
                    && outbox@.len() == 0
                &&& old(state).spec_has_room(rid) ==> ({
                    let room = old(state).rooms@[old(state).room_index(rid)];
                    &&& (room.revealed || !is_member(room.users@, old(self).user.id)) ==> *final(state) == *old(state) && outbox@.len() == 0
                    &&& (!room.revealed && is_member(room.users@, old(self).user.id))
                        ==> user_voted_room(
                        *old(state),
                        *final(state),
                        old(self).user.id,
                        rid,
                        vote,
                        outbox@,
                    )
                })
            },
    {
        match self.room {
            Some(rid) => state.vote(self.user.id, rid, vote),
            None => Vec::new(),
        }
    }

    /// Asks to reveal the current room's votes, if any room is current;
    /// ignored without one.
    pub fn reveal_votes(&mut self, state: &mut AppState) -> (outbox: Vec<(ConnId, RoomMessage)>)
        requires
            old(state).wf(),
        ensures
            final(state).wf(),
            *final(self) == *old(self),
            old(self).room is None ==> *final(state) == *old(state) && outbox@.len() == 0,
            old(self).room matches Some(rid) ==> {
                &&& final(state).clients == old(state).clients
                &&& final(state).users == old(state).users
                &&& !old(state).spec_has_room(rid) ==> *final(state) == *old(state)
                    && outbox@.len() == 0
                &&& old(state).spec_has_room(rid) ==> votes_revealed_room(
                    *old(state),
                    *final(state),
                    old(self).user.id,
                    rid,
                    outbox@,
                )
            },
    {
        match self.room {
            Some(rid) => state.reveal_votes(self.user.id, rid),
            None => Vec::new(),
        }
    }

    /// Asks to reset the current room's votes, if any room is current;
    /// ignored without one.
    pub fn reset_votes(&mut self, state: &mut AppState) -> (outbox: Vec<(ConnId, RoomMessage)>)
        requires
            old(state).wf(),
        ensures
            final(state).wf(),
            *final(self) == *old(self),
            old(self).room is None ==> *final(state) == *old(state) && outbox@.len() == 0,
            old(self).room matches Some(rid) ==> {
                &&& final(state).clients == old(state).clients
                &&& final(state).users == old(state).users
                &&& !old(state).spec_has_room(rid) ==> *final(state) == *old(state)
                    && outbox@.len() == 0
                &&& old(state).spec_has_room(rid) ==> votes_reset_room(
                    *old(state),
                    *final(state),
                    old(self).user.id,
                    rid,
                    outbox@,
                )
            },
    {
        match self.room {
            Some(rid) => state.reset_votes(self.user.id, rid),
            None => Vec::new(),
        }
    }

    /// Translates one inbound request into registry calls: the first result
    /// is the direct reply to this connection (if any), the second the
    /// broadcast fan-out for the other members.
    pub fn handle_request(&mut self, state: &mut AppState, msg: RoomRequest) -> (r: (
        Option<RoomMessage>,
        Vec<(ConnId, RoomMessage)>,
    ))
        requires
            old(state).wf(),
            msg is CreateRoom ==> old(state).rooms@.len() < MAX_ROOM_ID as int,
        ensures
            final(state).wf(),
            final(self).user == old(self).user,
            match msg {
                RoomRequest::UserInfo => {
                    &&& *final(state) == *old(state)
                    &&& *final(self) == *old(self)
                    &&& r.0 == Some(RoomMessage::UserInfo(old(self).user.id))
                    &&& r.1@.len() == 0
                },
                RoomRequest::RoomInfo => {
                    &&& *final(state) == *old(state)
                    &&& *final(self) == *old(self)
                    &&& r.1@.len() == 0
                    &&& match old(self).room {
                        Some(rid) => if old(state).spec_has_room(rid) {
                            r.0 matches Some(reply) && reply matches RoomMessage::RoomInfo(info)
                                && room_like(
                                info,
                                old(state).rooms@[old(state).room_index(rid)],
                            )
                        } else {
                            r.0 is None
                        },
                        None => r.0 is None,
                    }
                },
                RoomRequest::CreateRoom => {
                    &&& *final(self) == *old(self)
                    &&& final(state).clients == old(state).clients
                    &&& final(state).users == old(state).users
                    &&& final(state).rooms@.len() == old(state).rooms@.len() + 1
                    &&& forall|j: int|
                        0 <= j < old(state).rooms@.len() ==> final(state).rooms@[j] == old(state).rooms@[j]
                    &&& r.1@.len() == 0
                    &&& r.0 matches Some(reply) && reply matches RoomMessage::RoomCreated(id) && {
                        let room = final(state).rooms@.last();
                        &&& id < MAX_ROOM_ID
                        &&& !old(state).spec_has_room(id)
                        &&& room.id == id
                        &&& room.admin == old(self).user.id
                        &&& room.users@.len() == 0
                        &&& !room.revealed
                    }
                },
                RoomRequest::JoinRoom(rid) => if old(state).spec_has_room(rid) {
                    &&& final(self).room == Some(rid)
                    &&& r.0 is None
                    &&& final(state).clients == old(state).clients
                    &&& final(state).users == old(state).users
                    &&& user_joined_room(*old(state), *final(state), old(self).user.id, rid, r.1@)
                } else {
                    &&& *final(state) == *old(state)
                    &&& *final(self) == *old(self)
                    &&& r.0 == Some(RoomMessage::NoSuchRoom(rid))
                    &&& r.1@.len() == 0
                },
                RoomRequest::LeaveRoom => {
                    &&& final(self).room is None
                    &&& r.0 is None
                    &&& old(self).room is None ==> *final(state) == *old(state) && r.1@.len() == 0
                    &&& old(self).room matches Some(rid) ==> {
                        &&& final(state).clients == old(state).clients
                        &&& final(state).users == old(state).users
                        &&& !old(state).spec_has_room(rid) ==> *final(state) == *old(state)
                            && r.1@.len() == 0
                        &&& old(state).spec_has_room(rid) ==> user_left_room(
                            *old(state),
                            *final(state),
                            old(self).user.id,
                            rid,
                            r.1@,
                        )
                    }
                },
                RoomRequest::Vote(card_index) => {
                    &&& *final(self) == *old(self)
                    &&& r.0 is None
                    &&& old(self).room is None ==> *final(state) == *old(state) && r.1@.len() == 0
                    &&& old(self).room matches Some(rid) ==> {
                        &&& final(state).clients == old(state).clients
                        &&& final(state).users == old(state).users
                        &&& !old(state).spec_has_room(rid) ==> *final(state) == *old(state)
                            && r.1@.len() == 0
                        &&& old(state).spec_has_room(rid) ==> ({
                            let room = old(state).rooms@[old(state).room_index(rid)];
                            &&& (room.revealed || !is_member(room.users@, old(self).user.id))
                                ==> *final(state) == *old(state) && r.1@.len() == 0
                            &&& (!room.revealed && is_member(room.users@, old(self).user.id))
                                ==> user_voted_room(
                                *old(state),
                                *final(state),
                                old(self).user.id,
                                rid,
                                card_index,
                                r.1@,
                            )
                        })
                    }
                },
                RoomRequest::Reveal => {
                    &&& *final(self) == *old(self)
                    &&& r.0 is None
                    &&& old(self).room is None ==> *final(state) == *old(state) && r.1@.len() == 0
                    &&& old(self).room matches Some(rid) ==> {
                        &&& final(state).clients == old(state).clients
                        &&& final(state).users == old(state).users
                        &&& !old(state).spec_has_room(rid) ==> *final(state) == *old(state)
                            && r.1@.len() == 0
                        &&& old(state).spec_has_room(rid) ==> votes_revealed_room(
                            *old(state),
                            *final(state),
                            old(self).user.id,
                            rid,
                            r.1@,
                        )
                    }
                },
                RoomRequest::Reset => {
                    &&& *final(self) == *old(self)
                    &&& r.0 is None
                    &&& old(self).room is None ==> *final(state) == *old(state) && r.1@.len() == 0
                    &&& old(self).room matches Some(rid) ==> {
                        &&& final(state).clients == old(state).clients
                        &&& final(state).users == old(state).users
                        &&& !old(state).spec_has_room(rid) ==> *final(state) == *old(state)
                            && r.1@.len() == 0
                        &&& old(state).spec_has_room(rid) ==> votes_reset_room(
                            *old(state),
                            *final(state),
                            old(self).user.id,
                            rid,
                            r.1@,
                        )
                    }
                },
            },
    {
        match msg {
            RoomRequest::UserInfo => (Some(RoomMessage::UserInfo(self.user.id)), Vec::new()),
            RoomRequest::RoomInfo => {
                match self.room {
                    Some(rid) => {
                        let found = state.room(rid);
                        match found {
                            Some(room) => {
                                proof {
                                    let i = choose|i: int|
                                        0 <= i < state.rooms@.len() && (
                                        #[trigger] state.rooms@[i]) == *room;
                                    crate::registry::lemma_room_index_is(*state, rid, i);
                                }
                                (Some(RoomMessage::RoomInfo(room.clone())), Vec::new())
                            },
                            None => (None, Vec::new()),
                        }
                    },
                    None => (None, Vec::new()),
                }
            },
            RoomRequest::CreateRoom => (Some(self.create_room(state)), Vec::new()),
            RoomRequest::JoinRoom(rid) => self.join_room(rid, state),
            RoomRequest::LeaveRoom => (None, self.leave_room(state)),
            RoomRequest::Vote(card_index) => (None, self.vote(card_index, state)),
            RoomRequest::Reveal => (None, self.reveal_votes(state)),
            RoomRequest::Reset => (None, self.reset_votes(state)),
        }
    }
}

} // verus!
