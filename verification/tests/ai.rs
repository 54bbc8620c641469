use briscola::ai::{choose_card, AiDifficulty, VisibleGameState};
use briscola::card::{Card, CardNumber, CardSuit};

fn card(value: CardNumber, suit: CardSuit) -> Card {
    Card::new(value, suit)
}

#[test]
fn challenger_wins_point_card_when_following() {
    let state = VisibleGameState {
        briscola_suit: CardSuit::Swords,
        lead_card: Some(card(CardNumber::Three, CardSuit::Cups)),
    };
    let hand = [
        card(CardNumber::Two, CardSuit::Coins),
        card(CardNumber::Four, CardSuit::Swords),
        card(CardNumber::Ace, CardSuit::Coins),
    ];

    assert_eq!(choose_card(AiDifficulty::Challenger, state, &hand), 1);
}

#[test]
fn challenger_leads_low_non_trump() {
    let state = VisibleGameState { briscola_suit: CardSuit::Swords, lead_card: None };
    let hand = [
        card(CardNumber::Ace, CardSuit::Coins),
        card(CardNumber::Two, CardSuit::Cups),
        card(CardNumber::Four, CardSuit::Swords),
    ];

    assert_eq!(choose_card(AiDifficulty::Challenger, state, &hand), 1);
}

#[test]
fn challenger_takes_point_card_with_cheapest_winning_non_trump() {
    let state = VisibleGameState {
        briscola_suit: CardSuit::Swords,
        lead_card: Some(card(CardNumber::King, CardSuit::Cups)),
    };
    let hand = [
        card(CardNumber::Ace, CardSuit::Cups),
        card(CardNumber::Two, CardSuit::Swords),
        card(CardNumber::Three, CardSuit::Cups),
    ];
    // Both the Ace and the Three of Cups take the King; the Three is cheaper.
    assert_eq!(choose_card(AiDifficulty::Challenger, state, &hand), 2);
}

#[test]
fn challenger_takes_low_point_lead_with_trump() {
    let state = VisibleGameState {
        briscola_suit: CardSuit::Swords,
        lead_card: Some(card(CardNumber::Knave, CardSuit::Cups)),
    };
    let hand = [
        card(CardNumber::Two, CardSuit::Swords),
        card(CardNumber::Four, CardSuit::Coins),
    ];
    // The Knave is worth two points and only the trump takes it.
    assert_eq!(choose_card(AiDifficulty::Challenger, state, &hand), 0);
}

#[test]
fn challenger_takes_king_with_only_winning_trump() {
    let state = VisibleGameState {
        briscola_suit: CardSuit::Swords,
        lead_card: Some(card(CardNumber::King, CardSuit::Cups)),
    };
    let hand = [
        card(CardNumber::Two, CardSuit::Coins),
        card(CardNumber::Four, CardSuit::Swords),
    ];
    assert_eq!(choose_card(AiDifficulty::Challenger, state, &hand), 1);
}

#[test]
fn challenger_prefers_cheapest_winning_trump() {
    let state = VisibleGameState {
        briscola_suit: CardSuit::Swords,
        lead_card: Some(card(CardNumber::Ace, CardSuit::Cups)),
    };
    let hand = [
        card(CardNumber::Three, CardSuit::Swords),
        card(CardNumber::Two, CardSuit::Swords),
        card(CardNumber::Four, CardSuit::Coins),
    ];
    assert_eq!(choose_card(AiDifficulty::Challenger, state, &hand), 1);
}

#[test]
fn challenger_discards_cheapest_card_when_lead_has_no_points() {
    let state = VisibleGameState {
        briscola_suit: CardSuit::Swords,
        lead_card: Some(card(CardNumber::Four, CardSuit::Cups)),
    };
    let hand = [
        card(CardNumber::King, CardSuit::Coins),
        card(CardNumber::Five, CardSuit::Cups),
        card(CardNumber::Six, CardSuit::Batons),
    ];
    assert_eq!(choose_card(AiDifficulty::Challenger, state, &hand), 1);
}

#[test]
fn challenger_with_empty_hand_answers_zero() {
    let state = VisibleGameState { briscola_suit: CardSuit::Cups, lead_card: None };
    assert_eq!(choose_card(AiDifficulty::Challenger, state, &[]), 0);
}

#[test]
fn random_player_picks_a_card_of_its_hand() {
    let state = VisibleGameState { briscola_suit: CardSuit::Cups, lead_card: None };
    let one = [card(CardNumber::Ace, CardSuit::Cups)];
    assert_eq!(choose_card(AiDifficulty::Random, state, &one), 0);
    let three = [
        card(CardNumber::Ace, CardSuit::Cups),
        card(CardNumber::Two, CardSuit::Cups),
        card(CardNumber::Three, CardSuit::Cups),
    ];
    for _ in 0..50 {
        assert!(choose_card(AiDifficulty::Random, state, &three) < 3);
    }
}

#[test]
fn difficulty_labels() {
    assert_eq!(AiDifficulty::Random.label(), "random");
    assert_eq!(AiDifficulty::Challenger.label(), "challenger");
}
