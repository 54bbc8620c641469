use briscola::card::{Card, CardNumber, CardSuit};
use briscola::console::{Console, ConsolePainter};
use briscola::game::{Game, PlayerTurn, PlayersSize};
use briscola::player::PlayerType;
use briscola::rules;

#[test]
fn winner_from_scores_returns_player_one() {
    let winner = rules::winner_from_scores(70, 50);
    assert_eq!(winner, Some(1));
}

#[test]
fn winner_from_scores_returns_player_two() {
    let winner = rules::winner_from_scores(50, 70);
    assert_eq!(winner, Some(2));
}

#[test]
fn equal_scores_are_a_draw() {
    let winner = rules::winner_from_scores(60, 60);
    assert_eq!(winner, None);
}

#[test]
fn trick_winner_draws_first() {
    let mut game = Game::new(
        PlayersSize::Two,
        [PlayerType::AI, PlayerType::AI],
        ConsolePainter::new(),
        Console::new([PlayerType::AI, PlayerType::AI]),
    );
    game.player_turn = PlayerTurn::Player2;
    assert_eq!(game.draw_order(), [1, 0]);
    game.player_turn = PlayerTurn::Player1;
    assert_eq!(game.draw_order(), [0, 1]);
}

#[test]
fn coin_toss_only_uses_known_turns() {
    let game = Game::new(
        PlayersSize::Two,
        [PlayerType::AI, PlayerType::AI],
        ConsolePainter::new(),
        Console::new([PlayerType::AI, PlayerType::AI]),
    );

    assert!(matches!(game.player_turn, PlayerTurn::Player1 | PlayerTurn::Player2));
}

#[test]
fn computer_game_runs_to_the_end() {
    for _ in 0..20 {
        let mut game = Game::new(
            PlayersSize::Two,
            [PlayerType::AI, PlayerType::AI],
            ConsolePainter::new(),
            Console::new([PlayerType::AI, PlayerType::AI]),
        );
        let winner = game.game();
        assert!(matches!(winner, None | Some(1) | Some(2)));
        // Counting took the won cards: playing again finds no points, a draw.
        assert_eq!(game.game(), None);
    }
}

#[test]
fn game_judges_tricks_by_its_trump() {
    let game = Game::new(
        PlayersSize::Two,
        [PlayerType::AI, PlayerType::AI],
        ConsolePainter::new(),
        Console::new([PlayerType::AI, PlayerType::AI]),
    );
    let lead = Card::new(CardNumber::Two, CardSuit::Cups);
    let follow = Card::new(CardNumber::Ace, CardSuit::Cups);
    assert!(!game.wins_first(lead, follow));
    assert!(game.wins_first(follow, lead));
}

#[test]
fn computer_game_counts_and_clears_the_won_piles() {
    let mut game = Game::new(
        PlayersSize::Two,
        [PlayerType::AI, PlayerType::AI],
        ConsolePainter::new(),
        Console::new([PlayerType::AI, PlayerType::AI]),
    );
    assert!(!game.deck.is_deck_empty());
    let winner = game.game();
    assert!(game.deck.is_deck_empty());
    assert_eq!(game.player1.hand_size(), 0);
    assert_eq!(game.player2.hand_size(), 0);
    assert!(game.player1.won_cards().is_empty());
    assert!(game.player2.won_cards().is_empty());
    assert!(matches!(winner, None | Some(1) | Some(2)));
}
