use briscola::card::{Card, CardNumber, CardSuit};
use briscola::rules::{
    calculate_score, card_points, points_at_most, rank_strength, trick_points, winner_from_scores,
    wins_first,
};

fn card(value: CardNumber, suit: CardSuit) -> Card {
    Card::new(value, suit)
}

#[test]
fn trump_beats_non_trump() {
    let lead = card(CardNumber::Ace, CardSuit::Cups);
    let follow = card(CardNumber::Two, CardSuit::Swords);

    assert!(!wins_first(lead, follow, CardSuit::Swords));
}

#[test]
fn higher_trump_beats_lower_trump() {
    let lead = card(CardNumber::Two, CardSuit::Swords);
    let follow = card(CardNumber::Three, CardSuit::Swords);

    assert!(!wins_first(lead, follow, CardSuit::Swords));
}

#[test]
fn led_suit_beats_off_suit_without_trump() {
    let lead = card(CardNumber::Two, CardSuit::Cups);
    let follow = card(CardNumber::Ace, CardSuit::Coins);

    assert!(wins_first(lead, follow, CardSuit::Swords));
}

#[test]
fn higher_led_suit_card_can_win() {
    let lead = card(CardNumber::Two, CardSuit::Cups);
    let follow = card(CardNumber::Three, CardSuit::Cups);

    assert!(!wins_first(lead, follow, CardSuit::Swords));
}

#[test]
fn total_deck_score_is_120() {
    let score = Card::load_cards().iter().copied().map(card_points).sum::<u8>();

    assert_eq!(score, 120);
}

#[test]
fn led_trump_beats_off_suit_answer() {
    let lead = card(CardNumber::Two, CardSuit::Swords);
    let follow = card(CardNumber::Ace, CardSuit::Cups);
    assert!(wins_first(lead, follow, CardSuit::Swords));
}

#[test]
fn lower_led_card_loses_to_higher_of_same_suit() {
    let lead = card(CardNumber::King, CardSuit::Batons);
    let follow = card(CardNumber::Three, CardSuit::Batons);
    assert!(!wins_first(lead, follow, CardSuit::Cups));
    assert!(wins_first(follow, lead, CardSuit::Cups));
}

#[test]
fn point_values_of_each_rank() {
    let expected = [11u8, 0, 10, 0, 0, 0, 0, 2, 3, 4];
    for (number, points) in CardNumber::iterator().into_iter().zip(expected) {
        assert_eq!(card_points(card(number, CardSuit::Coins)), points);
    }
}

#[test]
fn strength_orders_ace_three_king_down_to_two() {
    let order = [
        CardNumber::Two,
        CardNumber::Four,
        CardNumber::Five,
        CardNumber::Six,
        CardNumber::Seven,
        CardNumber::Knave,
        CardNumber::Knight,
        CardNumber::King,
        CardNumber::Three,
        CardNumber::Ace,
    ];
    for (i, number) in order.iter().enumerate() {
        assert_eq!(rank_strength(card(*number, CardSuit::Cups)) as usize, i + 1);
    }
}

#[test]
fn score_of_a_pile_and_of_a_trick() {
    let pile = [
        card(CardNumber::Ace, CardSuit::Cups),
        card(CardNumber::Three, CardSuit::Coins),
        card(CardNumber::Seven, CardSuit::Swords),
        card(CardNumber::Knave, CardSuit::Batons),
    ];
    assert_eq!(calculate_score(&pile), 23);
    assert_eq!(calculate_score(&[]), 0);
    assert_eq!(trick_points(pile[0], pile[3]), 13);
}

#[test]
fn winner_from_scores_each_way() {
    assert_eq!(winner_from_scores(61, 59), Some(1));
    assert_eq!(winner_from_scores(0, 120), Some(2));
    assert_eq!(winner_from_scores(0, 0), None);
}

#[test]
fn points_at_most_compares_the_pile_with_the_limit() {
    let pile = [
        Card::new(CardNumber::Ace, CardSuit::Cups),
        Card::new(CardNumber::Three, CardSuit::Coins),
        Card::new(CardNumber::Two, CardSuit::Swords),
    ];
    assert!(points_at_most(&pile, 21));
    assert!(!points_at_most(&pile, 20));
    assert!(points_at_most(&[], 0));
}
