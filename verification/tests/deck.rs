use briscola::card::{Card, CardNumber, CardSuit};
use briscola::deck::Deck;
use briscola::hand::Hand;

fn count(cards: &[Card], card: Card) -> usize {
    cards.iter().filter(|&&c| c == card).count()
}

#[test]
fn load_cards_lists_each_suit_from_ace_to_king() {
    let cards = Card::load_cards();
    assert_eq!(cards.len(), 40);
    assert_eq!(cards[0], Card::new(CardNumber::Ace, CardSuit::Cups));
    assert_eq!(cards[9], Card::new(CardNumber::King, CardSuit::Cups));
    assert_eq!(cards[10], Card::new(CardNumber::Ace, CardSuit::Batons));
    assert_eq!(cards[27], Card::new(CardNumber::Knave, CardSuit::Coins));
    assert_eq!(cards[39], Card::new(CardNumber::King, CardSuit::Swords));
    for card in &cards {
        assert_eq!(count(&cards, *card), 1);
    }
}

#[test]
fn face_values() {
    let values: Vec<u8> = CardNumber::iterator().iter().map(|n| n.eval()).collect();
    assert_eq!(values, vec![1, 2, 3, 4, 5, 6, 7, 8, 9, 10]);
    assert_eq!(CardSuit::iterator().len(), 4);
}

#[test]
fn new_deck_is_a_shuffled_full_deck() {
    let mut shuffled_at_least_once = false;
    for _ in 0..5 {
        let mut deck = Deck::new();
        let briscola = deck.get_briscola();
        let mut drawn = Vec::new();
        while let Some(card) = deck.get_card() {
            drawn.push(card);
        }
        assert!(deck.is_deck_empty());
        assert_eq!(deck.get_card(), None);
        assert_eq!(drawn.len(), 40);
        assert_eq!(*drawn.last().unwrap(), briscola);
        for card in Card::load_cards() {
            assert_eq!(count(&drawn, card), 1);
        }
        if drawn != Card::load_cards() {
            shuffled_at_least_once = true;
        }
    }
    assert!(shuffled_at_least_once);
}

#[test]
fn get_hand_draws_two_front_cards() {
    let mut deck = Deck::new();
    let mut hand = deck.get_hand();
    assert_eq!(hand.size(), 2);
    assert_eq!(hand.get_hand().len(), 2);
    let mut rest = 0;
    while deck.get_card().is_some() {
        rest += 1;
    }
    assert_eq!(rest, 38);
}

#[test]
fn hand_keeps_order_when_a_card_is_played() {
    let cards = vec![
        Card::new(CardNumber::Two, CardSuit::Cups),
        Card::new(CardNumber::Four, CardSuit::Cups),
        Card::new(CardNumber::King, CardSuit::Swords),
    ];
    let mut hand = Hand::new();
    assert_eq!(hand.size(), 0);
    hand.assign_cards(cards.clone());
    assert_eq!(hand.size(), 3);
    assert_eq!(hand.select_card(1), cards[1]);
    assert_eq!(hand.size(), 2);
    hand.add_card(cards[1]);
    assert_eq!(hand.size(), 3);
    assert_eq!(hand.get_hand(), vec![cards[0], cards[2], cards[1]]);
}

#[test]
fn get_hand_hands_out_the_cards() {
    let cards = vec![
        Card::new(CardNumber::Two, CardSuit::Cups),
        Card::new(CardNumber::Four, CardSuit::Cups),
    ];
    let mut hand = Hand::new();
    hand.assign_cards(cards.clone());
    assert_eq!(hand.get_hand(), cards);
    // The cards are gone; the recorded count is left as it was.
    assert_eq!(hand.get_hand(), vec![]);
    assert_eq!(hand.size(), 2);
    hand.add_card(cards[1]);
    assert_eq!(hand.size(), 1);
    assert_eq!(hand.get_hand(), vec![cards[1]]);
}
