use planpoker::messages::{RoomMessage, RoomRequest};
use planpoker::registry::{AppState, User};
use planpoker::session::{heartbeat_expired, resolve_user, Session, CLIENT_TIMEOUT_MS};
use planpoker::votes::Vote;

fn user(id: u128) -> User {
    User { id, session_id: id + 1_000 }
}

fn other_id(id: u32) -> u32 {
    if id < 999_998 {
        id + 1
    } else {
        0
    }
}

#[test]
fn user_info_echoes_the_resolved_identity() {
    let mut state = AppState::new();
    let mut session = Session::new(user(1));
    let (reply, outbox) = session.handle_request(&mut state, RoomRequest::UserInfo);
    assert!(matches!(reply, Some(RoomMessage::UserInfo(id)) if id == 1));
    assert_eq!(outbox.len(), 0);
}

#[test]
fn full_estimation_round_through_requests() {
    let mut state = AppState::new();
    let mut owner = Session::new(user(1));
    let mut guest = Session::new(user(2));

    // the owner creates a room and joins it
    let (reply, _) = owner.handle_request(&mut state, RoomRequest::CreateRoom);
    let room_id = match reply {
        Some(RoomMessage::RoomCreated(id)) => id,
        other => panic!("expected a created room, got {:?}", other),
    };
    assert_eq!(state.room(room_id).unwrap().users.len(), 0);
    let (reply, _) = owner.handle_request(&mut state, RoomRequest::JoinRoom(room_id));
    assert!(reply.is_none());
    assert_eq!(owner.room, Some(room_id));
    assert_eq!(state.room(room_id).unwrap().users.len(), 1);
    assert_eq!(state.room(room_id).unwrap().users[0].vote, Vote::NotYetVisible);

    // a second user joins and both vote
    guest.handle_request(&mut state, RoomRequest::JoinRoom(room_id));
    assert_eq!(state.room(room_id).unwrap().users.len(), 2);
    owner.handle_request(&mut state, RoomRequest::Vote(2));
    guest.handle_request(&mut state, RoomRequest::Vote(5));
    let room = state.room(room_id).unwrap();
    assert_eq!(room.users[0].vote, Vote::Hidden(2));
    assert_eq!(room.users[1].vote, Vote::Hidden(5));

    // the owner reveals
    owner.handle_request(&mut state, RoomRequest::Reveal);
    let room = state.room(room_id).unwrap();
    assert!(room.revealed);
    assert_eq!(room.users[0].vote, Vote::Revealed(2));
    assert_eq!(room.users[1].vote, Vote::Revealed(5));

    // a third user asks for a room that was never issued
    let mut outsider = Session::new(user(3));
    let bad_id = other_id(room_id);
    let (reply, outbox) = outsider.handle_request(&mut state, RoomRequest::JoinRoom(bad_id));
    assert!(matches!(reply, Some(RoomMessage::NoSuchRoom(id)) if id == bad_id));
    assert_eq!(outbox.len(), 0);
    assert_eq!(outsider.room, None);
    assert_eq!(state.room(room_id).unwrap().users.len(), 2);
}

#[test]
fn room_info_answers_only_inside_a_room() {
    let mut state = AppState::new();
    let mut session = Session::new(user(1));
    let (reply, _) = session.handle_request(&mut state, RoomRequest::RoomInfo);
    assert!(reply.is_none());
    let (reply, _) = session.handle_request(&mut state, RoomRequest::CreateRoom);
    let room_id = match reply {
        Some(RoomMessage::RoomCreated(id)) => id,
        other => panic!("expected a created room, got {:?}", other),
    };
    session.handle_request(&mut state, RoomRequest::JoinRoom(room_id));
    let (reply, _) = session.handle_request(&mut state, RoomRequest::RoomInfo);
    match reply {
        Some(RoomMessage::RoomInfo(info)) => {
            assert_eq!(info.id, room_id);
            assert_eq!(info.users.len(), 1);
        }
        other => panic!("expected a room snapshot, got {:?}", other),
    }
}

#[test]
fn leaving_clears_the_current_room() {
    let mut state = AppState::new();
    let mut session = Session::new(user(1));
    let (reply, _) = session.handle_request(&mut state, RoomRequest::CreateRoom);
    let room_id = match reply {
        Some(RoomMessage::RoomCreated(id)) => id,
        other => panic!("expected a created room, got {:?}", other),
    };
    session.handle_request(&mut state, RoomRequest::JoinRoom(room_id));
    session.handle_request(&mut state, RoomRequest::LeaveRoom);
    assert_eq!(session.room, None);
    assert_eq!(state.room(room_id).unwrap().users.len(), 0);
    // room-scoped requests are now silently ignored
    let (reply, outbox) = session.handle_request(&mut state, RoomRequest::Vote(3));
    assert!(reply.is_none());
    assert_eq!(outbox.len(), 0);
}

#[test]
fn heartbeat_expires_only_past_the_timeout() {
    assert!(!heartbeat_expired(0, CLIENT_TIMEOUT_MS));
    assert!(heartbeat_expired(0, CLIENT_TIMEOUT_MS + 1));
    assert!(!heartbeat_expired(5_000, 5_000));
    // a clock reading older than the last activity never kills the session
    assert!(!heartbeat_expired(10, 4));
}

#[test]
fn resolve_user_resumes_a_known_token() {
    let mut state = AppState::new();
    let minted = state.create_user();
    let (resumed, is_new) = resolve_user(&mut state, Some(minted.session_id));
    assert!(!is_new);
    assert_eq!(resumed, minted);
    assert_eq!(state.users.len(), 1);
}

#[test]
fn resolve_user_mints_on_missing_or_unknown_token() {
    let mut state = AppState::new();
    let (first, is_new) = resolve_user(&mut state, None);
    assert!(is_new);
    assert_eq!(state.users.len(), 1);
    let (_, is_new) = resolve_user(&mut state, Some(first.session_id.wrapping_add(1)));
    assert!(is_new);
    assert_eq!(state.users.len(), 2);
}
