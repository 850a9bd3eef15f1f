use planpoker::cards::{default_deck, Card};
use planpoker::votes::{vote_hidden, Vote};

#[test]
fn card_valued_carries_label_and_value() {
    let card = Card::valued(String::from("5"), 5);
    assert_eq!(card.as_str(), "5");
    assert_eq!(card.value(), Some(5));
}

#[test]
fn card_valueless_carries_no_value() {
    let card = Card::valueless(String::from("?"));
    assert_eq!(card.as_str(), "?");
    assert_eq!(card.value(), None);
}

#[test]
fn card_new_matches_given_parts() {
    let card = Card::new(String::from("3"), Some(3));
    assert_eq!(card.as_str(), "3");
    assert_eq!(card.value(), Some(3));
    let cloned = card.clone();
    assert_eq!(cloned.as_str(), "3");
    assert_eq!(cloned.value(), Some(3));
}

#[test]
fn default_deck_is_digits_then_question_mark() {
    let deck = default_deck();
    assert_eq!(deck.len(), 10);
    let labels = ["1", "2", "3", "4", "5", "6", "7", "8", "9"];
    for i in 0..9 {
        assert_eq!(deck[i].as_str(), labels[i]);
        assert_eq!(deck[i].value(), Some((i as u32) + 1));
    }
    assert_eq!(deck[9].as_str(), "?");
    assert_eq!(deck[9].value(), None);
}

#[test]
fn vote_value_present_only_with_card_index() {
    assert_eq!(Vote::Hidden(2).value(), Some(2));
    assert_eq!(Vote::Revealed(5).value(), Some(5));
    assert_eq!(Vote::NoVote.value(), None);
    assert_eq!(Vote::NotYetVisible.value(), None);
}

#[test]
fn vote_hidden_true_only_for_hidden() {
    assert!(vote_hidden(&Vote::Hidden(1)));
    assert!(!vote_hidden(&Vote::Revealed(1)));
    assert!(!vote_hidden(&Vote::NoVote));
    assert!(!vote_hidden(&Vote::NotYetVisible));
}

#[test]
fn vote_default_is_not_yet_visible() {
    assert_eq!(Vote::default(), Vote::NotYetVisible);
}
