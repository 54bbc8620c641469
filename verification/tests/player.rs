use briscola::card::{Card, CardNumber, CardSuit};
use briscola::console::Console;
use briscola::game::UserInput;
use briscola::player::{Player, PlayerType};

fn three_cards() -> (Card, Card, Card) {
    (
        Card::new(CardNumber::Two, CardSuit::Cups),
        Card::new(CardNumber::Four, CardSuit::Cups),
        Card::new(CardNumber::King, CardSuit::Swords),
    )
}

#[test]
fn select_card() {
    let (card1, card2, card3) = three_cards();
    let mut hand = Vec::with_capacity(3);
    hand.push(card1);
    hand.push(card2);
    hand.push(card3);
    let mut player = Player::new(PlayerType::Player, Console::new([PlayerType::Player, PlayerType::AI]));
    player.assign_cards(hand);
    let selected_card = player.select_card(2);
    assert_eq!(selected_card, card2);
}

#[test]
fn add_won_cards() {
    let (card1, card2, card3) = three_cards();
    let mut player = Player::new(PlayerType::Player, Console::new([PlayerType::Player, PlayerType::AI]));
    let mut hand = Vec::with_capacity(3);
    hand.push(card1);
    hand.push(card2);
    hand.push(card3);
    let hand_stored = hand.clone();
    player.add_won_cards(&mut hand);
    assert_eq!(player.won_cards(), hand_stored);
}

#[test]
fn calculate_score() {
    let (card1, card2, card3) = three_cards();
    let mut player = Player::new(PlayerType::Player, Console::new([PlayerType::Player, PlayerType::AI]));
    let mut hand = Vec::with_capacity(3);
    hand.push(card1);
    hand.push(card2);
    hand.push(card3);
    player.add_won_cards(&mut hand);
    assert_eq!(player.calculate_score(), 4u8);
}

#[test]
fn computer_plays_its_first_card() {
    let (card1, card2, card3) = three_cards();
    let mut player = Player::new(PlayerType::AI, Console::new([PlayerType::AI, PlayerType::AI]));
    player.assign_cards(vec![card1, card2, card3]);
    assert_eq!(player.play_card(1), card1);
    assert_eq!(player.hand_size(), 2);
    player.add_card_to_hand(card1);
    assert_eq!(player.play_card(1), card2);
    assert_eq!(player.play_card(1), card3);
    assert_eq!(player.play_card(1), card1);
    assert_eq!(player.hand_size(), 0);
}

#[test]
fn won_cards_accumulate_and_empty_the_trick() {
    let (card1, card2, card3) = three_cards();
    let mut player = Player::new(PlayerType::AI, Console::new([PlayerType::AI, PlayerType::AI]));
    let mut first = vec![card1];
    let mut second = vec![card2, card3];
    player.add_won_cards(&mut first);
    player.add_won_cards(&mut second);
    assert!(first.is_empty() && second.is_empty());
    assert_eq!(player.won_cards(), vec![card1, card2, card3]);
    let mut aces = vec![
        Card::new(CardNumber::Ace, CardSuit::Cups),
        Card::new(CardNumber::Three, CardSuit::Coins),
        Card::new(CardNumber::Knight, CardSuit::Batons),
        Card::new(CardNumber::Knave, CardSuit::Batons),
    ];
    player.add_won_cards(&mut aces);
    assert_eq!(player.calculate_score(), 4 + 11 + 10 + 3 + 2);
    // Counting takes the cards off the pile.
    assert!(player.won_cards().is_empty());
    assert_eq!(player.calculate_score(), 0);
}

#[test]
fn seat_types_from_the_command_line() {
    assert_eq!(PlayerType::from_cli("human"), Some(PlayerType::Player));
    assert_eq!(PlayerType::from_cli("ai"), Some(PlayerType::AI));
    assert_eq!(PlayerType::from_cli("AI"), None);
    assert_eq!(PlayerType::from_cli(""), None);
}

/// A person who always picks the last card shown.
#[derive(Clone)]
struct PicksLast;

impl UserInput for PicksLast {
    fn user_input(&self, _player_index: usize, hand: &[Card]) -> usize {
        hand.len() - 1
    }
}

#[test]
fn person_plays_the_card_the_handler_answers() {
    let (card1, card2, card3) = three_cards();
    let mut player = Player::new(PlayerType::Player, PicksLast);
    player.assign_cards(vec![card1, card2, card3]);
    assert_eq!(player.play_card(1), card3);
    assert_eq!(player.play_card(1), card2);
    assert_eq!(player.hand_size(), 1);
    assert_eq!(player.play_card(1), card1);
}
