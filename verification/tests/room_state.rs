use planpoker::room::RoomInfo;
use planpoker::votes::Vote;

const OWNER: u128 = 100;
const ALICE: u128 = 101;
const BOB: u128 = 102;

#[test]
fn add_user_is_idempotent() {
    let mut room = RoomInfo::new(7, OWNER);
    assert!(room.add_user(ALICE));
    assert_eq!(room.users.len(), 1);
    assert_eq!(room.users[0].user_id, ALICE);
    assert_eq!(room.users[0].vote, Vote::NotYetVisible);
    assert!(!room.add_user(ALICE));
    assert_eq!(room.users.len(), 1);
}

#[test]
fn membership_follows_net_joins_and_leaves() {
    let mut room = RoomInfo::new(7, OWNER);
    room.add_user(ALICE);
    room.add_user(ALICE);
    room.remove_user(ALICE);
    assert!(room.users.iter().all(|u| u.user_id != ALICE));
    room.add_user(ALICE);
    room.remove_user(ALICE);
    room.add_user(ALICE);
    assert!(room.users.iter().any(|u| u.user_id == ALICE));
    assert_eq!(room.users.len(), 1);
}

#[test]
fn remove_user_keeps_the_others_in_order() {
    let mut room = RoomInfo::new(7, OWNER);
    room.add_user(ALICE);
    room.add_user(BOB);
    room.add_user(OWNER);
    room.remove_user(BOB);
    assert_eq!(room.users.len(), 2);
    assert_eq!(room.users[0].user_id, ALICE);
    assert_eq!(room.users[1].user_id, OWNER);
    room.remove_user(BOB);
    assert_eq!(room.users.len(), 2);
}

#[test]
fn casting_same_index_twice_clears_the_vote() {
    let mut room = RoomInfo::new(7, OWNER);
    room.add_user(ALICE);
    assert!(room.cast_vote(ALICE, 3));
    assert_eq!(room.users[0].vote, Vote::Hidden(3));
    assert!(room.cast_vote(ALICE, 3));
    assert_eq!(room.users[0].vote, Vote::NoVote);
    assert!(room.cast_vote(ALICE, 7));
    assert_eq!(room.users[0].vote, Vote::Hidden(7));
}

#[test]
fn casting_a_different_index_overwrites() {
    let mut room = RoomInfo::new(7, OWNER);
    room.add_user(ALICE);
    room.cast_vote(ALICE, 2);
    room.cast_vote(ALICE, 5);
    assert_eq!(room.users[0].vote, Vote::Hidden(5));
}

#[test]
fn cast_vote_is_a_no_op_once_revealed() {
    let mut room = RoomInfo::new(7, OWNER);
    room.add_user(ALICE);
    room.add_user(BOB);
    room.cast_vote(ALICE, 2);
    room.reveal_votes(OWNER);
    assert!(!room.cast_vote(ALICE, 4));
    assert!(!room.cast_vote(BOB, 4));
    assert_eq!(room.users[0].vote, Vote::Revealed(2));
    assert_eq!(room.users[1].vote, Vote::NotYetVisible);
}

#[test]
fn cast_vote_ignores_non_members() {
    let mut room = RoomInfo::new(7, OWNER);
    room.add_user(ALICE);
    assert!(!room.cast_vote(BOB, 1));
    assert_eq!(room.users.len(), 1);
    assert_eq!(room.users[0].vote, Vote::NotYetVisible);
}

#[test]
fn owner_reveal_promotes_only_hidden_votes() {
    let mut room = RoomInfo::new(7, OWNER);
    room.add_user(OWNER);
    room.add_user(ALICE);
    room.add_user(BOB);
    room.cast_vote(OWNER, 2);
    room.cast_vote(ALICE, 8);
    room.cast_vote(ALICE, 8);
    room.reveal_votes(OWNER);
    assert!(room.revealed);
    assert_eq!(room.users[0].vote, Vote::Revealed(2));
    assert_eq!(room.users[1].vote, Vote::NoVote);
    assert_eq!(room.users[2].vote, Vote::NotYetVisible);
}

#[test]
fn non_owner_reveal_changes_no_vote_but_sets_the_gate() {
    let mut room = RoomInfo::new(7, OWNER);
    room.add_user(ALICE);
    room.cast_vote(ALICE, 4);
    room.reveal_votes(ALICE);
    assert!(room.revealed);
    assert_eq!(room.users[0].vote, Vote::Hidden(4));
}

#[test]
fn owner_reset_clears_votes_and_reopens() {
    let mut room = RoomInfo::new(7, OWNER);
    room.add_user(ALICE);
    room.add_user(BOB);
    room.cast_vote(ALICE, 4);
    room.reveal_votes(OWNER);
    room.reset_votes(OWNER);
    assert!(!room.revealed);
    assert_eq!(room.users[0].vote, Vote::NoVote);
    assert_eq!(room.users[1].vote, Vote::NoVote);
    assert!(room.cast_vote(ALICE, 6));
    assert_eq!(room.users[0].vote, Vote::Hidden(6));
}

#[test]
fn non_owner_reset_keeps_votes_but_reopens() {
    let mut room = RoomInfo::new(7, OWNER);
    room.add_user(ALICE);
    room.cast_vote(ALICE, 4);
    room.reveal_votes(OWNER);
    room.reset_votes(ALICE);
    assert!(!room.revealed);
    assert_eq!(room.users[0].vote, Vote::Revealed(4));
}

#[test]
fn out_of_range_card_index_is_stored_untouched() {
    let mut room = RoomInfo::new(7, OWNER);
    room.add_user(ALICE);
    assert!(room.cast_vote(ALICE, 42));
    assert_eq!(room.users[0].vote, Vote::Hidden(42));
}
