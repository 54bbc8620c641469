use briscola::hand::Hand;
use briscola::console::hand_text;
use briscola::card::{Card, CardNumber, CardSuit};
use briscola::console::{Console, ConsolePainter, SuitColour};
use briscola::player::PlayerType;

#[test]
fn get_card() {
    let card = Card::new(CardNumber::Two, CardSuit::Cups);
    let (value, suit, color) = ConsolePainter::get_card(card);
    assert_eq!(color, SuitColour::Blue);
    assert_eq!(value, 2u8);
    assert_eq!(suit, "Cups");
}

#[test]
fn single_human_uses_you_labels() {
    let console = Console::new([PlayerType::Player, PlayerType::AI]);

    assert_eq!(console.cards_label(1), "Your cards:");
    assert_eq!(console.selection_label(1), "Select your card index:");
}

#[test]
fn two_humans_keep_player_labels() {
    let console = Console::new([PlayerType::Player, PlayerType::Player]);

    assert_eq!(console.cards_label(1), "Player 1 cards:");
    assert_eq!(console.selection_label(2), "Select a card index for player 2:");
}

#[test]
fn computer_seat_is_named_by_number() {
    let console = Console::new([PlayerType::AI, PlayerType::Player]);
    assert!(console.is_single_human_player(2));
    assert!(!console.is_single_human_player(1));
    assert_eq!(console.cards_label(1), "Player 1 cards:");
    assert_eq!(console.cards_label(2), "Your cards:");
    assert_eq!(console.cards_label(12), "Player 12 cards:");
    assert_eq!(console.selection_label(305), "Select a card index for player 305:");
}

#[test]
fn no_humans_means_no_you() {
    let console = Console::new([PlayerType::AI, PlayerType::AI]);
    assert!(!console.is_single_human_player(1));
    assert!(!console.is_single_human_player(2));
}

#[test]
fn typed_answers_are_trimmed_and_checked() {
    assert_eq!(Console::selection_from_text("  2\n", 3), Some(2));
    assert_eq!(Console::selection_from_text("+1\r\n", 3), Some(1));
    assert_eq!(Console::selection_from_text("3\n", 3), None);
    assert_eq!(Console::selection_from_text("two\n", 3), None);
    assert_eq!(Console::selection_from_text("-1\n", 3), None);
    assert_eq!(Console::selection_from_text("\n", 3), None);
}

#[test]
fn card_text_paints_the_suit() {
    let card = Card::new(CardNumber::Two, CardSuit::Cups);
    assert_eq!(ConsolePainter::card_text(card), "2 \u{1b}[1;34mCups\u{1b}[0m");
    let king = Card::new(CardNumber::King, CardSuit::Swords);
    assert_eq!(ConsolePainter::card_text(king), "10 \u{1b}[1;31mSwords\u{1b}[0m");
    assert_eq!(Console::card_line(0, card), "  [0] 2 \u{1b}[1;34mCups\u{1b}[0m");
}

#[test]
fn suit_colours() {
    assert_eq!(ConsolePainter::get_card(Card::new(CardNumber::Ace, CardSuit::Batons)).2, SuitColour::Green);
    assert_eq!(ConsolePainter::get_card(Card::new(CardNumber::Ace, CardSuit::Coins)).2, SuitColour::Yellow);
    assert_eq!(ConsolePainter::get_card(Card::new(CardNumber::Ace, CardSuit::Swords)).2, SuitColour::Red);
}

#[test]
fn hand_text_lists_cards_after_two_spaces() {
    let mut hand = Hand::new();
    assert_eq!(hand_text(&mut hand), "");
    hand.assign_cards(vec![
        Card::new(CardNumber::Ace, CardSuit::Coins),
        Card::new(CardNumber::Knight, CardSuit::Batons),
    ]);
    assert_eq!(
        hand_text(&mut hand),
        "  1 \u{1b}[1;33mCoins\u{1b}[0m  9 \u{1b}[1;32mBatons\u{1b}[0m"
    );
    // Showing the hand takes its cards out; the recorded count stays.
    assert_eq!(hand.size(), 2);
    assert_eq!(hand_text(&mut hand), "");
}

#[test]
fn typed_numbers_are_read_in_decimal() {
    assert_eq!(Console::selection_from_text("007", 8), Some(7));
    assert_eq!(Console::selection_from_text("+0", 1), Some(0));
    assert_eq!(Console::selection_from_text("+", 3), None);
    assert_eq!(Console::selection_from_text("1+1", 3), None);
    assert_eq!(Console::selection_from_text("1 2", 3), None);
    assert_eq!(Console::selection_from_text("", 3), None);
    assert_eq!(Console::selection_from_text("99999999999999999999999999", usize::MAX), None);
    assert_eq!(Console::selection_from_text("12", 13), Some(12));
}

#[test]
fn trimmed_answers_are_read_in_decimal() {
    assert_eq!(Console::selection_from_trimmed("2", 3), Some(2));
    assert_eq!(Console::selection_from_trimmed("+1", 3), Some(1));
    assert_eq!(Console::selection_from_trimmed("3", 3), None);
    assert_eq!(Console::selection_from_trimmed(" 2", 3), None);
    assert_eq!(Console::selection_from_trimmed("2\n", 3), None);
    assert_eq!(Console::selection_from_trimmed("", 3), None);
    assert_eq!(Console::selection_from_trimmed("0010", 11), Some(10));
}
