use briscola::table::card_asset_path;
use briscola::ai::AiDifficulty;
use briscola::card::{Card, CardNumber, CardSuit};
use briscola::game::PlayerTurn;
use briscola::table::{
    card_name, trump_suit_name, BrowserGame, GameMode, Phase, COIN_TOSS_DISPLAY_MS,
};

#[test]
fn complete_games_conserve_cards_and_points() {
    for mode in [GameMode::HumanVsAi, GameMode::AiVsAi] {
        for (player1_difficulty, player2_difficulty) in [
            (AiDifficulty::Random, AiDifficulty::Challenger),
            (AiDifficulty::Challenger, AiDifficulty::Random),
        ] {
            for _ in 0..10 {
                let mut game = BrowserGame::new();
                game.mode = mode;
                game.player1_difficulty = player1_difficulty;
                game.player2_difficulty = player2_difficulty;
                game.start_game();
                let mut steps = 0;
                while !matches!(game.phase, Phase::Finished) {
                    let cards = game.player1_hand.len()
                        + game.player2_hand.len()
                        + game.player1_won.len()
                        + game.player2_won.len()
                        + game.trick_cards.len()
                        + game.deck_size;
                    assert_eq!(cards, 40);
                    assert!(game.player1_hand.len() <= 3 && game.player2_hand.len() <= 3);
                    if game.waiting_for_player1() {
                        assert!(game.play_player1_card(0).is_some());
                    } else {
                        game.advance();
                    }
                    steps += 1;
                    assert!(steps < 250, "game must terminate");
                }
                assert_eq!(game.trick_number, 21);
                assert_eq!(game.scores().0 + game.scores().1, 120);
                let mut won = game.player1_won.clone();
                won.extend(&game.player2_won);
                for card in Card::load_cards() {
                    assert_eq!(won.iter().filter(|&&c| c == card).count(), 1);
                }
                assert!(game.advance().is_none());
                assert!(game.play_player1_card(0).is_none());
            }
        }
    }
}

#[test]
fn setup_waits_for_start_and_restart_invalidates_pending_ticks() {
    let mut game = BrowserGame::new();
    assert!(matches!(game.phase, Phase::Setup));
    assert!(game.advance().is_none());
    assert_eq!(game.tick_generation(), 0);

    game.mode = GameMode::AiVsAi;
    game.player1_difficulty = AiDifficulty::Random;
    game.player2_difficulty = AiDifficulty::Challenger;
    game.start_game();
    assert!(matches!(game.phase, Phase::CoinToss));

    game.restart();
    assert!(matches!(game.phase, Phase::Setup));
    assert_eq!(game.tick_generation(), 1);
    assert_eq!(game.mode, GameMode::AiVsAi);
    assert_eq!(game.player1_difficulty, AiDifficulty::Random);
    assert_eq!(game.player2_difficulty, AiDifficulty::Challenger);
    assert!(game.advance().is_none());
}

#[test]
fn coin_toss_has_time_to_finish_before_trump_reveal() {
    assert_eq!(COIN_TOSS_DISPLAY_MS, 2200);

    let mut game = BrowserGame::new();
    game.start_game();
    assert!(matches!(game.phase, Phase::CoinToss));

    assert_eq!(game.advance(), Some(3200));
    assert!(matches!(game.phase, Phase::TrumpReveal));
    assert_eq!(game.advance(), Some(320));
    assert!(matches!(game.phase, Phase::Dealing));
}

#[test]
fn ai_mode_uses_independent_difficulty_and_disables_human_input() {
    let mut game = BrowserGame::new();
    game.mode = GameMode::AiVsAi;
    game.set_player_difficulty(1, AiDifficulty::Random);
    game.set_player_difficulty(2, AiDifficulty::Challenger);

    assert_eq!(game.ai_difficulty_for(1), AiDifficulty::Random);
    assert_eq!(game.ai_difficulty_for(2), AiDifficulty::Challenger);
    assert!(!game.is_human_player(1));
    assert!(!game.is_human_player(2));
    assert!(!game.waiting_for_player1());

    game.mode = GameMode::HumanVsAi;
    assert!(game.is_human_player(1));
    assert!(!game.is_human_player(2));
}

#[test]
fn tied_result_and_restart() {
    let mut game = BrowserGame::new();
    let cards = Card::load_cards();
    game.player1_won = cards[..20].to_vec();
    game.player2_won = cards[20..].to_vec();
    game.phase = Phase::Finished;
    assert_eq!(game.scores(), (60, 60));
    assert_eq!(game.game_winner(), None);
    assert_eq!(game.result_label(), "Draw");
    game.mode = GameMode::AiVsAi;
    game.player1_difficulty = AiDifficulty::Random;
    game.player2_difficulty = AiDifficulty::Challenger;
    game.fill_screen = true;
    game.restart();
    assert_eq!(game.tick_generation(), 1);
    assert!(matches!(game.phase, Phase::Setup));
    assert_eq!(game.scores(), (0, 0));
    assert_eq!(game.mode, GameMode::AiVsAi);
    assert_eq!(game.player1_difficulty, AiDifficulty::Random);
    assert_eq!(game.player2_difficulty, AiDifficulty::Challenger);
    assert!(game.fill_screen);
}

#[test]
fn player_statuses_use_correct_verb_forms() {
    let human_game = BrowserGame::new();
    assert_eq!(human_game.player_leads_label(1), "You lead");
    assert_eq!(human_game.player_leads_label(2), "AI leads");
    assert_eq!(human_game.player_wins_label(1), "You win");
    assert_eq!(human_game.player_wins_label(2), "AI wins");
    assert_eq!(human_game.player_collects_label(1), "You collect");
    assert_eq!(human_game.player_collects_label(2), "AI collects");
    assert_eq!(human_game.player_draws_label(1, "first"), "You draw first.");
    assert_eq!(human_game.player_draws_label(2, "second"), "AI draws second.");

    let mut ai_game = BrowserGame::new();
    ai_game.mode = GameMode::AiVsAi;
    assert_eq!(ai_game.player_display_label(1), "AI 1");
    assert_eq!(ai_game.player_display_label(2), "AI 2");
    assert_eq!(ai_game.player_leads_label(1), "AI 1 leads");
    assert_eq!(ai_game.player_wins_label(2), "AI 2 wins");
    assert_eq!(ai_game.player_collects_label(1), "AI 1 collects");
    assert_eq!(ai_game.player_draws_label(2, "first"), "AI 2 draws first.");
}

#[test]
fn dealing_alternates_and_reports_progress() {
    let mut game = BrowserGame::new();
    game.player_turn = PlayerTurn::Player2;
    game.start_game();
    assert_eq!(game.status, "coin toss / deciding who plays first");
    game.advance();
    assert_eq!(game.advance(), Some(320));
    assert_eq!(game.status, "shuffle / deal");
    assert_eq!(game.advance(), Some(320));
    assert_eq!(game.status, "deal / you / 1 cards / 1/6");
    assert_eq!(game.last_dealt_player, Some(1));
    assert_eq!(game.advance(), Some(320));
    assert_eq!(game.status, "deal / ai / 1 cards / 2/6");
    game.advance();
    game.advance();
    game.advance();
    assert_eq!(game.advance(), Some(1200));
    assert_eq!(game.status, "deal complete / AI leads");
    assert!(matches!(game.phase, Phase::Lead));
    assert_eq!(game.player1_hand.len(), 3);
    assert_eq!(game.player2_hand.len(), 3);
    assert_eq!(game.deck_size, 34);
}

#[test]
fn human_turn_waits_and_takes_the_chosen_card() {
    let mut game = BrowserGame::new();
    game.player_turn = PlayerTurn::Player1;
    game.start_game();
    for _ in 0..8 {
        game.advance();
    }
    assert!(matches!(game.phase, Phase::Lead));
    assert!(game.waiting_for_player1());
    assert_eq!(game.advance(), None);
    assert_eq!(game.status, "trick 1 / select lead");
    assert!(matches!(game.phase, Phase::Lead));
    assert_eq!(game.play_player1_card(3), None);
    let chosen = game.player1_hand[1];
    assert_eq!(game.play_player1_card(1), Some(1050));
    assert_eq!(game.trick_cards, vec![(1, chosen)]);
    assert_eq!(game.status, "trick 1 / you lead");
    assert_eq!(game.player1_hand.len(), 2);
    assert!(!game.waiting_for_player1());
    assert_eq!(game.advance(), Some(1300));
    assert_eq!(game.status, "trick 1 / AI answers");
    let winner = game.preview_trick_winner();
    assert_eq!(game.advance(), Some(1200));
    assert_eq!(game.pending_trick_winner, Some(winner));
    assert_eq!(game.advance(), Some(600));
    assert!(matches!(game.phase, Phase::DrawPlayer1));
    assert_eq!(game.draw_first_player, winner);
    assert_eq!(game.trick_number, 2);
    assert_eq!(game.advance(), Some(600));
    assert_eq!(game.advance(), Some(1100));
    assert!(matches!(game.phase, Phase::Lead));
    assert_eq!(game.leader_index(), winner);
    assert_eq!(game.deck_size, 32);
}

#[test]
fn result_labels_name_the_winner() {
    let mut game = BrowserGame::new();
    let cards = Card::load_cards();
    game.player1_won = cards[..21].to_vec();
    game.player2_won = cards[21..].to_vec();
    assert_eq!(game.scores(), (71, 49));
    assert_eq!(game.game_winner(), Some(1));
    game.player1_won = cards[..10].to_vec();
    game.player2_won = cards[10..].to_vec();
    assert_eq!(game.game_winner(), Some(2));
    assert_eq!(game.result_label(), "AI wins!");
    game.mode = GameMode::AiVsAi;
    assert_eq!(game.result_label(), "AI 2 wins!");
    std::mem::swap(&mut game.player1_won, &mut game.player2_won);
    assert_eq!(game.result_label(), "AI 1 wins!");
    game.mode = GameMode::HumanVsAi;
    assert_eq!(game.result_label(), "You win!");
}

#[test]
fn card_and_suit_names() {
    assert_eq!(card_name(Card::new(CardNumber::Ace, CardSuit::Cups)), "Ace of Cups");
    assert_eq!(card_name(Card::new(CardNumber::Seven, CardSuit::Coins)), "7 of Denari");
    assert_eq!(card_name(Card::new(CardNumber::Knight, CardSuit::Batons)), "Knight of Batons");
    assert_eq!(trump_suit_name(CardSuit::Swords), "Swords");
}

#[test]
fn other_player_and_labels() {
    assert_eq!(BrowserGame::other_player(1), 2);
    assert_eq!(BrowserGame::other_player(2), 1);
    let mut game = BrowserGame::new();
    assert_eq!(game.player_label(1), "you");
    assert_eq!(game.player_label(2), "ai");
    game.mode = GameMode::AiVsAi;
    assert_eq!(game.player_label(1), "ai 1");
    assert_eq!(game.player_label(2), "ai 2");
    let fill = game.fill_screen;
    game.toggle_fill_screen();
    assert_eq!(game.fill_screen, !fill);
}

#[test]
fn card_pictures_are_found_by_suit_folder_and_rank_file() {
    assert_eq!(card_asset_path(Card::new(CardNumber::Ace, CardSuit::Batons)), "bastoni/asso.svg");
    assert_eq!(card_asset_path(Card::new(CardNumber::Two, CardSuit::Cups)), "coppe/02.svg");
    assert_eq!(card_asset_path(Card::new(CardNumber::Knave, CardSuit::Coins)), "denari/fante.svg");
    assert_eq!(card_asset_path(Card::new(CardNumber::Knight, CardSuit::Swords)), "spade/cavallo.svg");
    assert_eq!(card_asset_path(Card::new(CardNumber::King, CardSuit::Swords)), "spade/re.svg");
}

#[test]
fn restart_outdates_ticks_of_the_previous_game() {
    let mut game = BrowserGame::new();
    let first = game.tick_generation();
    assert!(game.is_current_tick(first));
    game.restart();
    assert!(!game.is_current_tick(first));
    assert!(game.is_current_tick(first + 1));
}

#[test]
fn driven_game_ends_within_its_step_bound() {
    for mode in [GameMode::HumanVsAi, GameMode::AiVsAi] {
        let mut game = BrowserGame::new();
        game.mode = mode;
        game.player1_difficulty = AiDifficulty::Challenger;
        game.player2_difficulty = AiDifficulty::Challenger;
        game.start_game();
        let mut steps = 0;
        while !matches!(game.phase, Phase::Finished) {
            if game.waiting_for_player1() {
                game.play_player1_card(0);
            } else {
                game.advance();
            }
            steps += 1;
        }
        // Coin toss, trump reveal, six deals, four steps for each of twenty
        // tricks and two draws after each of the first seventeen.
        assert_eq!(steps, 122);
        assert!(steps <= 125);
    }
}

#[test]
fn every_step_of_a_driven_game_can_advance() {
    let mut game = BrowserGame::new();
    game.mode = GameMode::AiVsAi;
    assert!(game.can_advance());
    game.start_game();
    while !matches!(game.phase, Phase::Finished) {
        assert!(game.can_advance());
        assert!(game.scores_fit());
        game.advance();
    }
    assert!(game.can_advance());
    assert!(game.scores_fit());
}

#[test]
fn tables_that_cannot_advance() {
    let mut game = BrowserGame::new();
    game.mode = GameMode::AiVsAi;
    game.phase = Phase::Resolve;
    assert!(!game.can_advance());
    game.phase = Phase::Lead;
    assert!(!game.can_advance());
    game.phase = Phase::Collect;
    assert!(!game.can_advance());
    game.pending_trick_winner = Some(1);
    assert!(game.can_advance());
    game.trick_number = usize::MAX;
    assert!(!game.can_advance());
}

#[test]
fn doubled_piles_do_not_fit_a_score() {
    let mut game = BrowserGame::new();
    let cards = Card::load_cards();
    game.player1_won = cards.clone();
    assert!(game.scores_fit());
    game.player1_won.extend(cards.clone());
    game.player1_won.extend(cards);
    assert!(!game.scores_fit());
}
