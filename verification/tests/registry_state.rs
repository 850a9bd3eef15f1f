use planpoker::messages::RoomMessage;
use planpoker::registry::AppState;
use planpoker::votes::Vote;

const OWNER: u128 = 200;
const ALICE: u128 = 201;
const BOB: u128 = 202;

fn other_id(id: u32) -> u32 {
    if id < 999_998 {
        id + 1
    } else {
        0
    }
}

#[test]
fn create_room_returns_a_fresh_bounded_id() {
    let mut state = AppState::new();
    let id = state.create_room(OWNER);
    assert!(id < 999_999);
    assert!(state.has_room_with_id(id));
    assert!(!state.has_room_with_id(other_id(id)));
    let room = state.room(id).unwrap();
    assert_eq!(room.admin, OWNER);
    assert_eq!(room.users.len(), 0);
    assert!(!room.revealed);
    assert_eq!(room.cards.len(), 10);
}

#[test]
fn create_user_registers_and_token_lookup_resumes_it() {
    let mut state = AppState::new();
    let user = state.create_user();
    assert_eq!(state.users.len(), 1);
    let found = state.user_with_session_id(user.session_id);
    assert_eq!(found, Some(user));
    let missing = state.user_with_session_id(user.session_id.wrapping_add(1));
    assert_eq!(missing, None);
}

#[test]
fn join_broadcasts_to_every_member_connection() {
    let mut state = AppState::new();
    let id = state.create_room(OWNER);
    state.add_client(OWNER, 1);
    state.add_client(OWNER, 2);
    state.add_client(ALICE, 3);
    state.add_client(BOB, 4);
    state.add_user_to_room(OWNER, id);
    let outbox = state.add_user_to_room(ALICE, id);
    // owner holds two connections, alice one; bob is no member
    assert_eq!(outbox.len(), 6);
    for k in 0..3 {
        assert_eq!(outbox[k].0, (k + 1) as u64);
        assert!(matches!(outbox[k].1, RoomMessage::UserJoined(u) if u == ALICE));
    }
    for k in 3..6 {
        assert_eq!(outbox[k].0, (k - 2) as u64);
        match &outbox[k].1 {
            RoomMessage::RoomInfo(info) => {
                assert_eq!(info.id, id);
                assert_eq!(info.users.len(), 2);
            }
            other => panic!("expected a room snapshot, got {:?}", other),
        }
    }
}

#[test]
fn vote_toggles_and_broadcasts_only_on_change() {
    let mut state = AppState::new();
    let id = state.create_room(OWNER);
    state.add_client(ALICE, 9);
    state.add_user_to_room(ALICE, id);
    let outbox = state.vote(ALICE, id, 3);
    assert_eq!(outbox.len(), 2);
    assert!(matches!(outbox[0].1, RoomMessage::UserVoted(u) if u == ALICE));
    assert_eq!(state.room(id).unwrap().users[0].vote, Vote::Hidden(3));
    state.vote(ALICE, id, 3);
    assert_eq!(state.room(id).unwrap().users[0].vote, Vote::NoVote);
    let ignored = state.vote(BOB, id, 3);
    assert_eq!(ignored.len(), 0);
}

#[test]
fn vote_against_unknown_room_changes_nothing() {
    let mut state = AppState::new();
    let id = state.create_room(OWNER);
    state.add_user_to_room(ALICE, id);
    let outbox = state.vote(ALICE, other_id(id), 3);
    assert_eq!(outbox.len(), 0);
    assert_eq!(state.room(id).unwrap().users[0].vote, Vote::NotYetVisible);
}

#[test]
fn reveal_broadcasts_even_for_a_non_owner() {
    let mut state = AppState::new();
    let id = state.create_room(OWNER);
    state.add_client(ALICE, 5);
    state.add_user_to_room(ALICE, id);
    state.vote(ALICE, id, 2);
    let outbox = state.reveal_votes(BOB, id);
    assert_eq!(outbox.len(), 2);
    assert!(matches!(outbox[0].1, RoomMessage::CardsRevealed));
    let room = state.room(id).unwrap();
    assert!(room.revealed);
    assert_eq!(room.users[0].vote, Vote::Hidden(2));
}

#[test]
fn reset_clears_only_for_the_owner() {
    let mut state = AppState::new();
    let id = state.create_room(OWNER);
    state.add_user_to_room(ALICE, id);
    state.vote(ALICE, id, 2);
    state.reveal_votes(OWNER, id);
    let outbox = state.reset_votes(BOB, id);
    assert_eq!(outbox.len(), 0); // nobody is connected
    let room = state.room(id).unwrap();
    assert!(!room.revealed);
    assert_eq!(room.users[0].vote, Vote::Revealed(2));
    state.reset_votes(OWNER, id);
    assert_eq!(state.room(id).unwrap().users[0].vote, Vote::NoVote);
}

#[test]
fn last_disconnect_cascades_out_of_every_room() {
    let mut state = AppState::new();
    let r1 = state.create_room(OWNER);
    let r2 = state.create_room(OWNER);
    state.add_client(ALICE, 7);
    state.add_client(BOB, 9);
    state.add_user_to_room(ALICE, r1);
    state.add_user_to_room(ALICE, r2);
    state.add_user_to_room(BOB, r1);
    let outbox = state.remove_client(7);
    assert!(state.room(r1).unwrap().users.iter().all(|u| u.user_id != ALICE));
    assert!(state.room(r2).unwrap().users.iter().all(|u| u.user_id != ALICE));
    assert_eq!(state.room(r1).unwrap().users.len(), 1);
    assert_eq!(state.clients.len(), 1);
    assert_eq!(state.clients[0], (BOB, 9));
    // bob still hears alice leaving the room they shared
    assert!(outbox
        .iter()
        .any(|(conn, msg)| *conn == 9 && matches!(msg, RoomMessage::UserLeft(u) if *u == ALICE)));
}

#[test]
fn closing_one_of_several_tabs_keeps_memberships() {
    let mut state = AppState::new();
    let id = state.create_room(OWNER);
    state.add_client(ALICE, 7);
    state.add_client(ALICE, 8);
    state.add_user_to_room(ALICE, id);
    let outbox = state.remove_client(7);
    assert_eq!(outbox.len(), 0);
    assert_eq!(state.room(id).unwrap().users.len(), 1);
    assert_eq!(state.clients.len(), 1);
    assert_eq!(state.clients[0], (ALICE, 8));
}

#[test]
fn removing_an_unknown_connection_changes_nothing() {
    let mut state = AppState::new();
    let id = state.create_room(OWNER);
    state.add_client(ALICE, 7);
    state.add_user_to_room(ALICE, id);
    let outbox = state.remove_client(99);
    assert_eq!(outbox.len(), 0);
    assert_eq!(state.clients.len(), 1);
    assert_eq!(state.room(id).unwrap().users.len(), 1);
}
