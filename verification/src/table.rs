use vstd::prelude::*;
use vstd::string::*;

use crate::ai::{self, AiDifficulty, VisibleGameState};
use crate::card::{Card, CardNumber, CardSuit};
use crate::constants::HAND_SIZE;
use crate::deck::Deck;
use crate::game::PlayerTurn;
use crate::rules;
use crate::rules::{points_sum, winner_of};
use crate::table_laws::{
    lemma_advance_keeps_invariant, lemma_advance_progress, lemma_play_keeps_invariant,
    lemma_play_progress, lemma_settings_keep_invariant, lemma_setup_invariant, steps_left, table_inv,
};
use crate::text::{decimal, decimal_digits, join3, number_between};

verus! {

/// Cards in the deck at the start of a game.
pub const FULL_DECK_SIZE: usize = 40;

/// How long the coin toss is shown, in milliseconds.
pub const COIN_TOSS_DISPLAY_MS: i32 = 2200;

/// The stages of a game at the browser table.
#[derive(Clone, Copy, Debug, PartialEq, Eq, Structural)]
pub enum Phase {
    Setup,
    CoinToss,
    Dealing,
    Lead,
    TrumpReveal,
    Follow,
    Resolve,
    Collect,
    DrawPlayer1,
    DrawPlayer2,
    Finished,
}

/// Who sits at the table: a person against the computer, or two computer
/// players.
#[derive(Clone, Copy, Debug, PartialEq, Eq, Structural)]
pub enum GameMode {
    HumanVsAi,
    AiVsAi,
}

/// The state of a game at the browser table. Players are numbered 1 and 2.
pub struct BrowserGame {
    pub deck: Deck,
    pub briscola: Card,
    pub player1_hand: Vec<Card>,
    pub player2_hand: Vec<Card>,
    pub player1_won: Vec<Card>,
    pub player2_won: Vec<Card>,
    /// The cards on the table in this trick, with the player who played each.
    pub trick_cards: Vec<(usize, Card)>,
    /// The player who leads the current trick.
    pub player_turn: PlayerTurn,
    pub pending_trick_winner: Option<usize>,
    pub phase: Phase,
    pub status: String,
    pub trick_number: usize,
    pub deck_size: usize,
    pub draw_first_player: usize,
    pub draw_second_player: usize,
    pub mode: GameMode,
    pub player1_difficulty: AiDifficulty,
    pub player2_difficulty: AiDifficulty,
    pub fill_screen: bool,
    pub last_dealt_player: Option<usize>,
    pub last_played_player: Option<usize>,
    pub tick_generation: u32,
}

/// The state of a browser game as mathematical values.
pub struct TableView {
    pub deck: Seq<Card>,
    pub briscola: Card,
    pub hand1: Seq<Card>,
    pub hand2: Seq<Card>,
    pub won1: Seq<Card>,
    pub won2: Seq<Card>,
    pub trick: Seq<(usize, Card)>,
    pub player_turn: PlayerTurn,
    pub pending: Option<usize>,
    pub phase: Phase,
    pub status: Seq<char>,
    pub trick_number: usize,
    pub deck_size: usize,
    pub draw_first: usize,
    pub draw_second: usize,
    pub mode: GameMode,
    pub difficulty1: AiDifficulty,
    pub difficulty2: AiDifficulty,
    pub fill_screen: bool,
    pub last_dealt: Option<usize>,
    pub last_played: Option<usize>,
    pub tick_generation: u32,
}

impl View for BrowserGame {
    type V = TableView;

    open spec fn view(&self) -> TableView {
        TableView {
            deck: self.deck@,
            briscola: self.briscola,
            hand1: self.player1_hand@,
            hand2: self.player2_hand@,
            won1: self.player1_won@,
            won2: self.player2_won@,
            trick: self.trick_cards@,
            player_turn: self.player_turn,
            pending: self.pending_trick_winner,
            phase: self.phase,
            status: self.status@,
            trick_number: self.trick_number,
            deck_size: self.deck_size,
            draw_first: self.draw_first_player,
            draw_second: self.draw_second_player,
            mode: self.mode,
            difficulty1: self.player1_difficulty,
            difficulty2: self.player2_difficulty,
            fill_screen: self.fill_screen,
            last_dealt: self.last_dealt_player,
            last_played: self.last_played_player,
            tick_generation: self.tick_generation,
        }
    }
}

/// The player who leads: 1 or 2.
pub open spec fn leader_of(turn: PlayerTurn) -> usize {
    match turn {
        PlayerTurn::Player1 => 1,
        PlayerTurn::Player2 => 2,
    }
}

/// The opponent of a player: 2 for 1, and 1 for any other number.
pub open spec fn other_of(player_index: usize) -> usize {
    if player_index == 1 {
        2
    } else {
        1
    }
}

/// The turn in which `player_index` leads: player 1's for 1, player 2's for
/// any other number.
pub open spec fn turn_of(player_index: usize) -> PlayerTurn {
    if player_index == 1 {
        PlayerTurn::Player1
    } else {
        PlayerTurn::Player2
    }
}

/// How the status line names a player.
pub open spec fn short_label(mode: GameMode, player_index: usize) -> Seq<char> {
    match mode {
        GameMode::HumanVsAi => if player_index == 1 {
            "you"@
        } else {
            "ai"@
        },
        GameMode::AiVsAi => if player_index == 1 {
            "ai 1"@
        } else {
            "ai 2"@
        },
    }
}

/// How the table names a player.
pub open spec fn display_label(mode: GameMode, player_index: usize) -> Seq<char> {
    match mode {
        GameMode::HumanVsAi => if player_index == 1 {
            "YOU"@
        } else {
            "AI"@
        },
        GameMode::AiVsAi => if player_index == 1 {
            "AI 1"@
        } else {
            "AI 2"@
        },
    }
}

/// A sentence about a player: "You ..." for the person, else the player's
/// name and the verb in the third person.
pub open spec fn player_sentence(
    mode: GameMode,
    player_index: usize,
    you: Seq<char>,
    third: Seq<char>,
) -> Seq<char> {
    if mode == GameMode::HumanVsAi && player_index == 1 {
        you
    } else {
        display_label(mode, player_index) + third
    }
}

pub open spec fn leads_label(mode: GameMode, p: usize) -> Seq<char> {
    player_sentence(mode, p, "You lead"@, " leads"@)
}

pub open spec fn wins_label(mode: GameMode, p: usize) -> Seq<char> {
    player_sentence(mode, p, "You win"@, " wins"@)
}

pub open spec fn collects_label(mode: GameMode, p: usize) -> Seq<char> {
    player_sentence(mode, p, "You collect"@, " collects"@)
}

pub open spec fn draws_label(mode: GameMode, p: usize, order: Seq<char>) -> Seq<char> {
    player_sentence(mode, p, "You draw "@ + order + "."@, " draws "@ + order + "."@)
}

/// The name under which the table shows a suit (Coins are "Denari").
pub open spec fn suit_title(suit: CardSuit) -> Seq<char> {
    match suit {
        CardSuit::Cups => "Cups"@,
        CardSuit::Batons => "Batons"@,
        CardSuit::Coins => "Denari"@,
        CardSuit::Swords => "Swords"@,
    }
}

pub open spec fn number_title(n: CardNumber) -> Seq<char> {
    match n {
        CardNumber::Ace => "Ace"@,
        CardNumber::Two => "2"@,
        CardNumber::Three => "3"@,
        CardNumber::Four => "4"@,
        CardNumber::Five => "5"@,
        CardNumber::Six => "6"@,
        CardNumber::Seven => "7"@,
        CardNumber::Knave => "Knave"@,
        CardNumber::Knight => "Knight"@,
        CardNumber::King => "King"@,
    }
}

/// The line that announces the end of a game.
pub open spec fn result_title(mode: GameMode, winner: Option<usize>) -> Seq<char> {
    match winner {
        Some(w) => if w == 1 {
            if mode == GameMode::HumanVsAi {
                "You win!"@
            } else {
                "AI 1 wins!"@
            }
        } else {
            if mode == GameMode::HumanVsAi {
                "AI wins!"@
            } else {
                "AI 2 wins!"@
            }
        },
        None => "Draw"@,
    }
}

/// Whether a hover preview is dismissed: a mouse pointer leaves a card that
/// is not pinned.
pub fn should_dismiss_hover_preview(is_mouse: bool, leaving_card: bool, pinned: bool) -> (r: bool)
    ensures
        r == (is_mouse && leaving_card && !pinned),
{
    is_mouse && leaving_card && !pinned
}

/// The name of a suit at the table.
pub fn trump_suit_name(suit: CardSuit) -> (name: &'static str)
    ensures
        name@ == suit_title(suit),
{
    match suit {
        CardSuit::Cups => "Cups",
        CardSuit::Batons => "Batons",
        CardSuit::Coins => "Denari",
        CardSuit::Swords => "Swords",
    }
}

/// The name of a card at the table, such as "Ace of Cups" or "7 of Denari".
pub fn card_name(card: Card) -> (name: String)
    ensures
        name@ == number_title(card.value) + " of "@ + suit_title(card.suit),
{
    let number = match card.value {
        CardNumber::Ace => "Ace",
        CardNumber::Two => "2",
        CardNumber::Three => "3",
        CardNumber::Four => "4",
        CardNumber::Five => "5",
        CardNumber::Six => "6",
        CardNumber::Seven => "7",
        CardNumber::Knave => "Knave",
        CardNumber::Knight => "Knight",
        CardNumber::King => "King",
    };
    join3(number, " of ", trump_suit_name(card.suit))
}


/// The hand of player `p` (player 2's for any number but 1).
pub open spec fn hand_of(v: TableView, p: usize) -> Seq<Card> {
    if p == 1 {
        v.hand1
    } else {
        v.hand2
    }
}

pub open spec fn won_of(v: TableView, p: usize) -> Seq<Card> {
    if p == 1 {
        v.won1
    } else {
        v.won2
    }
}

pub open spec fn with_hand(v: TableView, p: usize, hand: Seq<Card>) -> TableView {
    if p == 1 {
        TableView { hand1: hand, ..v }
    } else {
        TableView { hand2: hand, ..v }
    }
}

pub open spec fn with_won(v: TableView, p: usize, won: Seq<Card>) -> TableView {
    if p == 1 {
        TableView { won1: won, ..v }
    } else {
        TableView { won2: won, ..v }
    }
}

pub open spec fn difficulty_of(v: TableView, p: usize) -> AiDifficulty {
    if p == 1 {
        v.difficulty1
    } else {
        v.difficulty2
    }
}

/// Player 1 is a person when a person plays against the computer.
pub open spec fn is_human(v: TableView, p: usize) -> bool {
    v.mode == GameMode::HumanVsAi && p == 1
}

pub open spec fn leader(v: TableView) -> usize {
    leader_of(v.player_turn)
}

/// The cards on the table, without who played them.
pub open spec fn trick_seq(trick: Seq<(usize, Card)>) -> Seq<Card> {
    trick.map_values(|e: (usize, Card)| e.1)
}

/// The table waits for the person to play a card.
pub open spec fn awaits_player1(v: TableView) -> bool {
    &&& is_human(v, 1)
    &&& match v.phase {
        Phase::Lead => leader(v) == 1,
        Phase::Follow => other_of(leader(v)) == 1,
        _ => false,
    }
}

/// The winner of the trick on the table by the rules: the leader's card
/// against the answer.
pub open spec fn trick_winner(v: TableView) -> usize {
    if rules::leader_wins(v.trick[0].1, v.trick[1].1, v.briscola.suit) {
        v.trick[0].0
    } else {
        v.trick[1].0
    }
}

/// The status line "trick N / ...".
pub open spec fn trick_status(n: usize, tail: Seq<char>) -> Seq<char> {
    "trick "@ + decimal_digits(n as nat) + " / "@ + tail
}

/// The table after one card from the front of the deck goes to player `p`;
/// with an empty deck nothing happens.
pub open spec fn dealt_to(v: TableView, p: usize) -> TableView {
    if v.deck.len() > 0 {
        TableView {
            deck: v.deck.drop_first(),
            deck_size: if v.deck_size > 0 {
                (v.deck_size - 1) as usize
            } else {
                0
            },
            last_dealt: Some(p),
            ..with_hand(v, p, hand_of(v, p).push(v.deck[0]))
        }
    } else {
        v
    }
}

/// The table after player `p` puts its card number `i` on the table.
pub open spec fn played(v: TableView, p: usize, i: int) -> TableView {
    TableView {
        trick: v.trick.push((p, hand_of(v, p)[i])),
        last_played: Some(p),
        ..with_hand(v, p, hand_of(v, p).remove(i))
    }
}

/// What a computer player sees: the trump suit and the card led, if any.
pub open spec fn visible_state(v: TableView) -> VisibleGameState {
    VisibleGameState {
        briscola_suit: v.briscola.suit,
        lead_card: if v.trick.len() > 0 {
            Some(v.trick[0].1)
        } else {
            None
        },
    }
}

/// Card number `i` is one that the computer playing `p` may choose: any card
/// of its hand at random, or the Challenger's pick.
pub open spec fn ai_may_pick(v: TableView, p: usize, i: int) -> bool {
    &&& 0 <= i < hand_of(v, p).len()
    &&& difficulty_of(v, p) == AiDifficulty::Challenger ==> ai::challenger_pick(
        visible_state(v),
        hand_of(v, p),
        i,
    )
}

/// The player who takes the trick: the one announced, else the one by the
/// rules.
pub open spec fn collect_winner(v: TableView) -> usize {
    match v.pending {
        Some(w) => w,
        None => trick_winner(v),
    }
}

/// The table after the trick goes to its winner, who leads next.
pub open spec fn collected(v: TableView) -> TableView {
    let w = collect_winner(v);
    TableView {
        trick: Seq::empty(),
        pending: None,
        player_turn: turn_of(w),
        trick_number: (v.trick_number + 1) as usize,
        ..with_won(v, w, won_of(v, w) + trick_seq(v.trick))
    }
}

/// What `advance` needs to run without failing in the current phase.
pub open spec fn advance_ready(v: TableView) -> bool {
    match v.phase {
        Phase::Dealing => v.hand1.len() + v.hand2.len() < usize::MAX,
        Phase::Lead => !is_human(v, leader(v)) ==> hand_of(v, leader(v)).len() > 0,
        Phase::Follow => !is_human(v, other_of(leader(v))) ==> hand_of(v, other_of(leader(v))).len()
            > 0,
        Phase::Resolve => v.trick.len() >= 2,
        Phase::Collect => {
            &&& v.pending is None ==> v.trick.len() >= 2
            &&& v.trick_number < usize::MAX
            &&& ({
                let c = collected(v);
                c.hand1.len() == 0 && c.hand2.len() == 0 && c.deck_size == 0 ==> points_sum(c.won1)
                    <= u8::MAX && points_sum(c.won2) <= u8::MAX
            })
        },
        _ => true,
    }
}

/// `t` and `r` are a state and a delay that `advance` may give from `s`: the
/// table moves one step on, and `r` is the time before the next step (`None`
/// when it waits for the person or the game is over).
pub open spec fn advance_step(s: TableView, t: TableView, r: Option<i32>) -> bool {
    match s.phase {
        Phase::Setup => t == s && r is None,
        Phase::CoinToss => {
            &&& t == (TableView {
                phase: Phase::TrumpReveal,
                status: "trump reveal / "@ + suit_title(s.briscola.suit),
                ..s
            })
            &&& r == Some(3200i32)
        },
        Phase::Dealing => {
            let dealt_cards = s.hand1.len() + s.hand2.len();
            let next_player: usize = if dealt_cards % 2 == 0 {
                1
            } else {
                2
            };
            let u = dealt_to(s, next_player);
            let dealt_total = dealt_cards + 1;
            if dealt_total == HAND_SIZE * 2 {
                &&& t == (TableView {
                    phase: Phase::Lead,
                    status: "deal complete / "@ + leads_label(u.mode, leader(u)),
                    ..u
                })
                &&& r == Some(1200i32)
            } else {
                &&& t == (TableView {
                    status: "deal / "@ + short_label(u.mode, next_player) + " / "@ + decimal_digits(
                        hand_of(u, next_player).len(),
                    ) + " cards / "@ + decimal_digits(dealt_total as nat) + "/6"@,
                    ..u
                })
                &&& r == Some(320i32)
            }
        },
        Phase::Lead => {
            let p = leader(s);
            if is_human(s, p) {
                &&& t == (TableView { status: trick_status(s.trick_number, "select lead"@), ..s })
                &&& r is None
            } else {
                &&& exists|i: int|
                    ai_may_pick(s, p, i) && t == (TableView {
                        phase: Phase::Follow,
                        status: trick_status(s.trick_number, leads_label(s.mode, p)),
                        ..played(s, p, i)
                    })
                &&& r == Some(1600i32)
            }
        },
        Phase::TrumpReveal => {
            &&& t == (TableView { phase: Phase::Dealing, status: "shuffle / deal"@, ..s })
            &&& r == Some(320i32)
        },
        Phase::Follow => {
            let p = other_of(leader(s));
            if is_human(s, p) {
                &&& t == (TableView { status: trick_status(s.trick_number, "select answer"@), ..s })
                &&& r is None
            } else {
                &&& exists|i: int|
                    ai_may_pick(s, p, i) && t == (TableView {
                        phase: Phase::Resolve,
                        status: trick_status(
                            s.trick_number,
                            display_label(s.mode, p) + " answers"@,
                        ),
                        ..played(s, p, i)
                    })
                &&& r == Some(1300i32)
            }
        },
        Phase::Resolve => {
            let w = trick_winner(s);
            &&& t == (TableView {
                pending: Some(w),
                phase: Phase::Collect,
                status: trick_status(s.trick_number, wins_label(s.mode, w)),
                ..s
            })
            &&& r == Some(1200i32)
        },
        Phase::Collect => {
            let c = collected(s);
            let w = collect_winner(s);
            if c.hand1.len() == 0 && c.hand2.len() == 0 && c.deck_size == 0 {
                let score1 = points_sum(c.won1);
                let score2 = points_sum(c.won2);
                &&& t == (TableView {
                    phase: Phase::Finished,
                    status: "game / "@ + result_title(c.mode, winner_of(score1 as int, score2 as int))
                        + " / "@ + decimal_digits(score1) + "-"@ + decimal_digits(score2),
                    ..c
                })
                &&& r is None
            } else if c.deck_size > 0 {
                &&& t == (TableView {
                    draw_first: w,
                    draw_second: other_of(w),
                    phase: Phase::DrawPlayer1,
                    status: collects_label(c.mode, w) + " / winner draws first"@,
                    ..c
                })
                &&& r == Some(600i32)
            } else {
                &&& t == (TableView {
                    phase: Phase::Lead,
                    status: "deck empty / "@ + leads_label(c.mode, w),
                    ..c
                })
                &&& r == Some(1100i32)
            }
        },
        Phase::DrawPlayer1 => {
            let p = s.draw_first;
            &&& t == (TableView {
                phase: Phase::DrawPlayer2,
                status: draws_label(s.mode, p, "first"@),
                ..dealt_to(s, p)
            })
            &&& r == Some(600i32)
        },
        Phase::DrawPlayer2 => {
            if s.deck_size > 0 {
                let p = s.draw_second;
                &&& t == (TableView {
                    phase: Phase::Lead,
                    status: draws_label(s.mode, p, "second"@),
                    ..dealt_to(s, p)
                })
                &&& r == Some(1100i32)
            } else {
                &&& t == (TableView {
                    phase: Phase::Lead,
                    status: "deck empty / no second draw"@,
                    ..s
                })
                &&& r == Some(1100i32)
            }
        },
        Phase::Finished => t == s && r is None,
    }
}

/// `t` and `r` are what `play_player1_card(selected)` gives from `s`: when the
/// table waits for the person and the hand has card number `selected`, it is
/// put on the table; otherwise nothing happens.
pub open spec fn play_step(s: TableView, selected: usize, t: TableView, r: Option<i32>) -> bool {
    if !awaits_player1(s) || selected >= s.hand1.len() {
        t == s && r is None
    } else {
        let u = played(s, 1, selected as int);
        if s.phase == Phase::Lead {
            &&& t == (TableView {
                phase: Phase::Follow,
                status: trick_status(s.trick_number, "you lead"@),
                ..u
            })
            &&& r == Some(1050i32)
        } else {
            &&& t == (TableView {
                phase: Phase::Resolve,
                status: trick_status(s.trick_number, "you answer"@),
                ..u
            })
            &&& r == Some(1150i32)
        }
    }
}

/// The folder of a suit's card pictures in the Brescian deck.
pub open spec fn suit_folder(suit: CardSuit) -> Seq<char> {
    match suit {
        CardSuit::Cups => "coppe"@,
        CardSuit::Batons => "bastoni"@,
        CardSuit::Coins => "denari"@,
        CardSuit::Swords => "spade"@,
    }
}

/// The file of a rank's card picture in its suit's folder.
pub open spec fn number_file(n: CardNumber) -> Seq<char> {
    match n {
        CardNumber::Ace => "asso.svg"@,
        CardNumber::Two => "02.svg"@,
        CardNumber::Three => "03.svg"@,
        CardNumber::Four => "04.svg"@,
        CardNumber::Five => "05.svg"@,
        CardNumber::Six => "06.svg"@,
        CardNumber::Seven => "07.svg"@,
        CardNumber::Knave => "fante.svg"@,
        CardNumber::Knight => "cavallo.svg"@,
        CardNumber::King => "re.svg"@,
    }
}

/// Where the picture of a card lies among the Brescian card pictures, such
/// as "bastoni/asso.svg".
pub fn card_asset_path(card: Card) -> (path: String)
    ensures
        path@ == suit_folder(card.suit) + "/"@ + number_file(card.value),
{
    let folder = match card.suit {
        CardSuit::Cups => "coppe",
        CardSuit::Batons => "bastoni",
        CardSuit::Coins => "denari",
        CardSuit::Swords => "spade",
    };
    let file = match card.value {
        CardNumber::Ace => "asso.svg",
        CardNumber::Two => "02.svg",
        CardNumber::Three => "03.svg",
        CardNumber::Four => "04.svg",
        CardNumber::Five => "05.svg",
        CardNumber::Six => "06.svg",
        CardNumber::Seven => "07.svg",
        CardNumber::Knave => "fante.svg",
        CardNumber::Knight => "cavallo.svg",
        CardNumber::King => "re.svg",
    };
    join3(folder, "/", file)
}

impl BrowserGame {
    /// A new table: a shuffled deck, a coin toss for who leads first, and the
    /// game mode still to be chosen.
    pub fn new() -> (game: Self)
        ensures
            game@.deck.to_multiset() == crate::card::full_deck().to_multiset(),
            game@.deck.len() == FULL_DECK_SIZE,
            game@.briscola == game@.deck.last(),
            game@.hand1.len() == 0,
            game@.hand2.len() == 0,
            game@.won1.len() == 0,
            game@.won2.len() == 0,
            game@.trick.len() == 0,
            (game@.pending is None),
            game@.phase == Phase::Setup,
            game@.status == "choose game mode"@,
            game@.trick_number == 1,
            game@.deck_size == FULL_DECK_SIZE,
            game@.draw_first == 1,
            game@.draw_second == 2,
            game@.mode == GameMode::HumanVsAi,
            game@.difficulty1 == AiDifficulty::Random,
            game@.difficulty2 == AiDifficulty::Challenger,
            !game@.fill_screen,
            (game@.last_dealt is None),
            (game@.last_played is None),
            game@.tick_generation == 0,
            table_inv(game@),
    {
        let deck = Deck::new();
        let briscola = deck.get_briscola();
        let player_turn = match crate::chance::random_below(2) {
            0 => PlayerTurn::Player1,
            _ => PlayerTurn::Player2,
        };
        let game = BrowserGame {
            deck,
            briscola,
            player1_hand: Vec::with_capacity(HAND_SIZE),
            player2_hand: Vec::with_capacity(HAND_SIZE),
            player1_won: Vec::new(),
            player2_won: Vec::new(),
            trick_cards: Vec::with_capacity(2),
            player_turn,
            pending_trick_winner: None,
            phase: Phase::Setup,
            status: String::from_str("choose game mode"),
            trick_number: 1,
            deck_size: FULL_DECK_SIZE,
            draw_first_player: 1,
            draw_second_player: 2,
            mode: GameMode::HumanVsAi,
            player1_difficulty: AiDifficulty::Random,
            player2_difficulty: AiDifficulty::Challenger,
            fill_screen: false,
            last_dealt_player: None,
            last_played_player: None,
            tick_generation: 0,
        };
        proof {
            lemma_setup_invariant(game@);
        }
        game
    }

    pub fn leader_index(&self) -> (p: usize)
        ensures
            p == leader(self@),
    {
        match self.player_turn {
            PlayerTurn::Player1 => 1,
            PlayerTurn::Player2 => 2,
        }
    }

    pub fn other_player(player_index: usize) -> (p: usize)
        ensures
            p == other_of(player_index),
    {
        if player_index == 1 {
            2
        } else {
            1
        }
    }

    pub fn player_label(&self, player_index: usize) -> (label: &'static str)
        ensures
            label@ == short_label(self.mode, player_index),
    {
        match self.mode {
            GameMode::HumanVsAi => if player_index == 1 {
                "you"
            } else {
                "ai"
            },
            GameMode::AiVsAi => if player_index == 1 {
                "ai 1"
            } else {
                "ai 2"
            },
        }
    }

    pub fn player_display_label(&self, player_index: usize) -> (label: &'static str)
        ensures
            label@ == display_label(self.mode, player_index),
    {
        Self::player_display_label_for(self.mode, player_index)
    }

    pub fn player_display_label_for(mode: GameMode, player_index: usize) -> (label: &'static str)
        ensures
            label@ == display_label(mode, player_index),
    {
        match mode {
            GameMode::HumanVsAi => if player_index == 1 {
                "YOU"
            } else {
                "AI"
            },
            GameMode::AiVsAi => if player_index == 1 {
                "AI 1"
            } else {
                "AI 2"
            },
        }
    }

    fn sentence(&self, player_index: usize, you: &str, third: &str) -> (text: String)
        ensures
            text@ == player_sentence(self.mode, player_index, you@, third@),
    {
        if self.mode == GameMode::HumanVsAi && player_index == 1 {
            String::from_str(you)
        } else {
            let mut text = String::from_str(self.player_display_label(player_index));
            text.append(third);
            text
        }
    }

    pub fn player_leads_label(&self, player_index: usize) -> (label: String)
        ensures
            label@ == leads_label(self.mode, player_index),
    {
        self.sentence(player_index, "You lead", " leads")
    }

    pub fn player_wins_label(&self, player_index: usize) -> (label: String)
        ensures
            label@ == wins_label(self.mode, player_index),
    {
        self.sentence(player_index, "You win", " wins")
    }

    pub fn player_collects_label(&self, player_index: usize) -> (label: String)
        ensures
            label@ == collects_label(self.mode, player_index),
    {
        self.sentence(player_index, "You collect", " collects")
    }

    pub fn player_draws_label(&self, player_index: usize, draw_order: &'static str) -> (label: String)
        ensures
            label@ == draws_label(self.mode, player_index, draw_order@),
    {
        let you = join3("You draw ", draw_order, ".");
        let third = join3(" draws ", draw_order, ".");
        self.sentence(player_index, you.as_str(), third.as_str())
    }

    pub fn is_human_player(&self, player_index: usize) -> (r: bool)
        ensures
            r == is_human(self@, player_index),
    {
        self.mode == GameMode::HumanVsAi && player_index == 1
    }

    pub fn ai_difficulty_for(&self, player_index: usize) -> (d: AiDifficulty)
        ensures
            d == difficulty_of(self@, player_index),
    {
        if player_index == 1 {
            self.player1_difficulty
        } else {
            self.player2_difficulty
        }
    }

    pub fn set_player_difficulty(&mut self, player_index: usize, difficulty: AiDifficulty)
        ensures
            player_index == 1 ==> final(self)@ == (TableView { difficulty1: difficulty, ..old(self)@ }),
            player_index != 1 ==> final(self)@ == (TableView { difficulty2: difficulty, ..old(self)@ }),
            table_inv(old(self)@) ==> table_inv(final(self)@),
    {
        if player_index == 1 {
            self.player1_difficulty = difficulty;
        } else {
            self.player2_difficulty = difficulty;
        }
        proof {
            if table_inv(old(self)@) {
                lemma_settings_keep_invariant(old(self)@, self@);
            }
        }
    }

    /// Leaves the setup screen for the coin toss; does nothing in any other
    /// phase.
    pub fn start_game(&mut self)
        ensures
            old(self)@.phase == Phase::Setup ==> final(self)@ == (TableView {
                phase: Phase::CoinToss,
                status: "coin toss / deciding who plays first"@,
                ..old(self)@
            }),
            old(self)@.phase != Phase::Setup ==> final(self)@ == old(self)@,
            table_inv(old(self)@) ==> table_inv(final(self)@),
    {
        if self.phase == Phase::Setup {
            self.phase = Phase::CoinToss;
            self.status = String::from_str("coin toss / deciding who plays first");
        }
        proof {
            if table_inv(old(self)@) {
                lemma_settings_keep_invariant(old(self)@, self@);
            }
        }
    }

    pub fn toggle_fill_screen(&mut self)
        ensures
            final(self)@ == (TableView { fill_screen: !old(self)@.fill_screen, ..old(self)@ }),
            table_inv(old(self)@) ==> table_inv(final(self)@),
    {
        self.fill_screen = !self.fill_screen;
        proof {
            if table_inv(old(self)@) {
                lemma_settings_keep_invariant(old(self)@, self@);
            }
        }
    }

    pub fn tick_generation(&self) -> (g: u32)
        ensures
            g == self.tick_generation,
    {
        self.tick_generation
    }

    /// Whether a tick scheduled under `generation` still belongs to this
    /// table, that is, no restart came in between.
    pub fn is_current_tick(&self, generation: u32) -> (r: bool)
        ensures
            r == (self@.tick_generation == generation),
    {
        self.tick_generation == generation
    }

    /// Whether the table waits for the person to play a card.
    pub fn waiting_for_player1(&self) -> (r: bool)
        ensures
            r == awaits_player1(self@),
    {
        if !self.is_human_player(1) {
            return false;
        }
        match self.phase {
            Phase::Lead => self.leader_index() == 1,
            Phase::Follow => Self::other_player(self.leader_index()) == 1,
            _ => false,
        }
    }

    pub fn wins_first(&self, card1: Card, card2: Card) -> (r: bool)
        ensures
            r == rules::leader_wins(card1, card2, self.briscola.suit),
    {
        rules::wins_first(card1, card2, self.briscola.suit)
    }

    /// The player who takes the trick on the table.
    pub fn preview_trick_winner(&self) -> (winner: usize)
        requires
            self@.trick.len() >= 2,
        ensures
            winner == trick_winner(self@),
    {
        let (lead_player, lead_card) = self.trick_cards[0];
        let (follow_player, follow_card) = self.trick_cards[1];
        if self.wins_first(lead_card, follow_card) {
            lead_player
        } else {
            follow_player
        }
    }

    pub fn calculate_score(cards: &[Card]) -> (score: u8)
        requires
            points_sum(cards@) <= u8::MAX,
        ensures
            score == points_sum(cards@),
    {
        rules::calculate_score(cards)
    }

    /// The points won by player 1 and by player 2.
    pub fn scores(&self) -> (scores: (u8, u8))
        requires
            points_sum(self@.won1) <= u8::MAX,
            points_sum(self@.won2) <= u8::MAX,
        ensures
            scores.0 == points_sum(self@.won1),
            scores.1 == points_sum(self@.won2),
    {
        (Self::calculate_score(self.player1_won.as_slice()), Self::calculate_score(self.player2_won.as_slice()))
    }

    /// Whether both piles of won cards are worth at most 255 points, so
    /// that `scores` can count them.
    pub fn scores_fit(&self) -> (r: bool)
        ensures
            r == (points_sum(self@.won1) <= u8::MAX && points_sum(self@.won2) <= u8::MAX),
    {
        rules::points_at_most(self.player1_won.as_slice(), u8::MAX) && rules::points_at_most(
            self.player2_won.as_slice(),
            u8::MAX,
        )
    }

    pub fn game_winner(&self) -> (winner: Option<usize>)
        requires
            points_sum(self@.won1) <= u8::MAX,
            points_sum(self@.won2) <= u8::MAX,
        ensures
            winner == winner_of(points_sum(self@.won1) as int, points_sum(self@.won2) as int),
    {
        let (score1, score2) = self.scores();
        rules::winner_from_scores(score1, score2)
    }

    pub fn result_label(&self) -> (label: &'static str)
        requires
            points_sum(self@.won1) <= u8::MAX,
            points_sum(self@.won2) <= u8::MAX,
        ensures
            label@ == result_title(
                self.mode,
                winner_of(points_sum(self@.won1) as int, points_sum(self@.won2) as int),
            ),
    {
        match self.game_winner() {
            Some(w) => if w == 1 {
                if self.mode == GameMode::HumanVsAi {
                    "You win!"
                } else {
                    "AI 1 wins!"
                }
            } else {
                if self.mode == GameMode::HumanVsAi {
                    "AI wins!"
                } else {
                    "AI 2 wins!"
                }
            },
            None => "Draw",
        }
    }

    /// The hand of player `player_index` (player 2's for any number but 1),
    /// to change it.
    pub fn hand_mut(&mut self, player_index: usize) -> (hand: &mut Vec<Card>)
        ensures
            hand@ == hand_of(old(self)@, player_index),
            final(self)@ == with_hand(old(self)@, player_index, final(hand)@),
            final(self).deck == old(self).deck,
    {
        if player_index == 1 {
            &mut self.player1_hand
        } else {
            &mut self.player2_hand
        }
    }

    /// The cards won by player `player_index` (player 2's for any number but
    /// 1), to change them.
    pub fn won_cards_mut(&mut self, player_index: usize) -> (won: &mut Vec<Card>)
        ensures
            won@ == won_of(old(self)@, player_index),
            final(self)@ == with_won(old(self)@, player_index, final(won)@),
            final(self).deck == old(self).deck,
    {
        if player_index == 1 {
            &mut self.player1_won
        } else {
            &mut self.player2_won
        }
    }

    /// Deals the front card of the deck to a player, if the deck has one.
    pub fn deal_card_to(&mut self, player_index: usize)
        ensures
            final(self)@ == dealt_to(old(self)@, player_index),
    {
        if let Some(card) = self.deck.get_card() {
            self.hand_mut(player_index).push(card);
            self.deck_size = self.deck_size.saturating_sub(1);
            self.last_dealt_player = Some(player_index);
        }
    }

    /// The computer playing `player_index` puts a card of its hand on the
    /// table.
    pub fn play_ai_card(&mut self, player_index: usize)
        requires
            hand_of(old(self)@, player_index).len() > 0,
        ensures
            exists|i: int|
                ai_may_pick(old(self)@, player_index, i) && final(self)@ == played(
                    old(self)@,
                    player_index,
                    i,
                ),
    {
        let lead_card = if self.trick_cards.len() > 0 {
            Some(self.trick_cards[0].1)
        } else {
            None
        };
        let visible_state = VisibleGameState { briscola_suit: self.briscola.suit, lead_card };
        let difficulty = self.ai_difficulty_for(player_index);
        let hand = self.hand_mut(player_index);
        let selected = ai::choose_card(difficulty, visible_state, hand.as_slice());
        let card = hand.remove(selected);
        self.trick_cards.push((player_index, card));
        self.last_played_player = Some(player_index);
        assert(ai_may_pick(old(self)@, player_index, selected as int));
    }

    /// Starts over at the setup screen with a new deck and coin toss, keeping
    /// the mode, the difficulties and the screen choice, and a new tick
    /// generation so that steps scheduled for the old game are ignored.
    pub fn restart(&mut self)
        ensures
            final(self)@.deck.to_multiset() == crate::card::full_deck().to_multiset(),
            final(self)@.deck.len() == FULL_DECK_SIZE,
            final(self)@.briscola == final(self)@.deck.last(),
            final(self)@.hand1.len() == 0,
            final(self)@.hand2.len() == 0,
            final(self)@.won1.len() == 0,
            final(self)@.won2.len() == 0,
            final(self)@.trick.len() == 0,
            (final(self)@.pending is None),
            final(self)@.phase == Phase::Setup,
            final(self)@.status == "choose game mode"@,
            final(self)@.trick_number == 1,
            final(self)@.deck_size == FULL_DECK_SIZE,
            final(self)@.draw_first == 1,
            final(self)@.draw_second == 2,
            final(self)@.mode == old(self)@.mode,
            final(self)@.difficulty1 == old(self)@.difficulty1,
            final(self)@.difficulty2 == old(self)@.difficulty2,
            final(self)@.fill_screen == old(self)@.fill_screen,
            (final(self)@.last_dealt is None),
            (final(self)@.last_played is None),
            final(self)@.tick_generation == (if old(self)@.tick_generation == u32::MAX {
                0
            } else {
                old(self)@.tick_generation + 1
            }),
            table_inv(final(self)@),
    {
        let mode = self.mode;
        let player1_difficulty = self.player1_difficulty;
        let player2_difficulty = self.player2_difficulty;
        let fill_screen = self.fill_screen;
        let tick_generation = self.tick_generation.wrapping_add(1);
        *self = BrowserGame::new();
        self.mode = mode;
        self.player1_difficulty = player1_difficulty;
        self.player2_difficulty = player2_difficulty;
        self.fill_screen = fill_screen;
        self.tick_generation = tick_generation;
        proof {
            lemma_setup_invariant(self@);
        }
    }

    /// The person plays card number `selected` of player 1's hand, when the
    /// table waits for it and the hand has such a card; otherwise nothing
    /// happens. The answer is the time before the next step.
    pub fn play_player1_card(&mut self, selected: usize) -> (delay: Option<i32>)
        ensures
            play_step(old(self)@, selected, final(self)@, delay),
            table_inv(old(self)@) ==> table_inv(final(self)@),
            table_inv(old(self)@) && awaits_player1(old(self)@) && selected < old(self)@.hand1.len()
                ==> steps_left(final(self)@) < steps_left(old(self)@),
    {
        let result = self.play_player1_card_step(selected);
        proof {
            if table_inv(old(self)@) {
                lemma_play_keeps_invariant(old(self)@, selected, self@, result);
                if awaits_player1(old(self)@) && selected < old(self)@.hand1.len() {
                    lemma_play_progress(old(self)@, selected, self@, result);
                }
            }
        }
        result
    }

    fn play_player1_card_step(&mut self, selected: usize) -> (delay: Option<i32>)
        ensures
            play_step(old(self)@, selected, final(self)@, delay),
    {
        if !self.waiting_for_player1() || selected >= self.player1_hand.len() {
            return None;
        }
        let card = self.player1_hand.remove(selected);
        self.trick_cards.push((1, card));
        self.last_played_player = Some(1);
        match self.phase {
            Phase::Lead => {
                self.phase = Phase::Follow;
                self.status = self.trick_status_line("you lead");
                Some(1050)
            },
            Phase::Follow => {
                self.phase = Phase::Resolve;
                self.status = self.trick_status_line("you answer");
                Some(1150)
            },
            _ => None,
        }
    }

    /// The status line "trick N / `tail`" for the current trick.
    fn trick_status_line(&self, tail: &str) -> (line: String)
        ensures
            line@ == trick_status(self.trick_number, tail@),
    {
        let mut line = number_between("trick ", self.trick_number, " / ");
        line.append(tail);
        line
    }

    /// Gives the trick on the table to its winner, who leads next, and
    /// answers the winner.
    pub fn collect_trick(&mut self) -> (winner: usize)
        requires
            old(self)@.pending is None ==> old(self)@.trick.len() >= 2,
            old(self)@.trick_number < usize::MAX,
        ensures
            winner == collect_winner(old(self)@),
            final(self)@ == collected(old(self)@),
    {
        let winner = match self.pending_trick_winner.take() {
            Some(w) => w,
            None => self.preview_trick_winner(),
        };
        let mut won_cards: Vec<Card> = Vec::new();
        let mut i: usize = 0;
        while i < self.trick_cards.len()
            invariant
                i <= self.trick_cards@.len(),
                won_cards@ == trick_seq(self.trick_cards@).take(i as int),
            decreases self.trick_cards@.len() - i,
        {
            won_cards.push(self.trick_cards[i].1);
            i = i + 1;
            assert(won_cards@ =~= trick_seq(self.trick_cards@).take(i as int));
        }
        assert(trick_seq(self.trick_cards@).take(i as int) =~= trick_seq(self.trick_cards@));
        self.trick_cards.clear();
        self.won_cards_mut(winner).append(&mut won_cards);
        self.player_turn = if winner == 1 {
            PlayerTurn::Player1
        } else {
            PlayerTurn::Player2
        };
        self.trick_number += 1;
        winner
    }

    /// The pile of player `w` once the cards on the table are added to it.
    fn pile_with_trick(&self, w: usize) -> (pile: Vec<Card>)
        ensures
            pile@ == won_of(self@, w) + trick_seq(self@.trick),
    {
        let won = if w == 1 {
            &self.player1_won
        } else {
            &self.player2_won
        };
        let mut pile: Vec<Card> = Vec::new();
        let mut i: usize = 0;
        while i < won.len()
            invariant
                i <= won@.len(),
                won@ == won_of(self@, w),
                pile@ == won@.take(i as int),
            decreases won@.len() - i,
        {
            pile.push(won[i]);
            i = i + 1;
            assert(pile@ =~= won@.take(i as int));
        }
        assert(won@.take(i as int) =~= won@);
        let mut k: usize = 0;
        while k < self.trick_cards.len()
            invariant
                k <= self.trick_cards@.len(),
                pile@ == won_of(self@, w) + trick_seq(self@.trick).take(k as int),
            decreases self.trick_cards@.len() - k,
        {
            pile.push(self.trick_cards[k].1);
            k = k + 1;
            assert(pile@ =~= won_of(self@, w) + trick_seq(self@.trick).take(k as int));
        }
        assert(trick_seq(self@.trick).take(k as int) =~= trick_seq(self@.trick));
        pile
    }

    /// Whether `advance` can move this table on without failing. Every table
    /// that a game reaches can be moved on.
    pub fn can_advance(&self) -> (r: bool)
        ensures
            r == advance_ready(self@),
    {
        match self.phase {
            Phase::Dealing => self.player1_hand.len() < usize::MAX - self.player2_hand.len(),
            Phase::Lead => {
                let p = self.leader_index();
                let size = if p == 1 {
                    self.player1_hand.len()
                } else {
                    self.player2_hand.len()
                };
                self.is_human_player(p) || size > 0
            },
            Phase::Follow => {
                let p = Self::other_player(self.leader_index());
                let size = if p == 1 {
                    self.player1_hand.len()
                } else {
                    self.player2_hand.len()
                };
                self.is_human_player(p) || size > 0
            },
            Phase::Resolve => self.trick_cards.len() >= 2,
            Phase::Collect => {
                if self.pending_trick_winner.is_none() && self.trick_cards.len() < 2 {
                    return false;
                }
                if self.trick_number == usize::MAX {
                    return false;
                }
                if self.player1_hand.len() == 0 && self.player2_hand.len() == 0 && self.deck_size
                    == 0 {
                    let w = match self.pending_trick_winner {
                        Some(w) => w,
                        None => self.preview_trick_winner(),
                    };
                    let pile = self.pile_with_trick(w);
                    let other = if w == 1 {
                        &self.player2_won
                    } else {
                        &self.player1_won
                    };
                    rules::points_at_most(pile.as_slice(), u8::MAX) && rules::points_at_most(
                        other.as_slice(),
                        u8::MAX,
                    )
                } else {
                    true
                }
            },
            _ => true,
        }
    }

    /// Moves the table one step on and answers the time, in milliseconds,
    /// before the next step, or `None` when the table waits for the person or
    /// the game is over.
    pub fn advance(&mut self) -> (delay: Option<i32>)
        requires
            advance_ready(old(self)@),
        ensures
            advance_step(old(self)@, final(self)@, delay),
            table_inv(old(self)@) ==> table_inv(final(self)@),
            table_inv(old(self)@) && old(self)@.phase != Phase::Setup && old(self)@.phase
                != Phase::Finished && !awaits_player1(old(self)@) ==> steps_left(final(self)@)
                < steps_left(old(self)@),
    {
        let result = self.advance_step_exec();
        proof {
            if table_inv(old(self)@) {
                lemma_advance_keeps_invariant(old(self)@, self@, result);
                if old(self)@.phase != Phase::Setup && old(self)@.phase != Phase::Finished
                    && !awaits_player1(old(self)@) {
                    lemma_advance_progress(old(self)@, self@, result);
                }
            }
        }
        result
    }

    fn advance_step_exec(&mut self) -> (delay: Option<i32>)
        requires
            advance_ready(old(self)@),
        ensures
            advance_step(old(self)@, final(self)@, delay),
    {
        match self.phase {
            Phase::Setup => None,
            Phase::CoinToss => {
                self.phase = Phase::TrumpReveal;
                let mut status = String::from_str("trump reveal / ");
                status.append(trump_suit_name(self.briscola.suit));
                self.status = status;
                Some(3200)
            },
            Phase::Dealing => self.advance_dealing(),
            Phase::Lead => self.advance_lead(),
            Phase::TrumpReveal => {
                self.phase = Phase::Dealing;
                self.status = String::from_str("shuffle / deal");
                Some(320)
            },
            Phase::Follow => self.advance_follow(),
            Phase::Resolve => {
                let winner = self.preview_trick_winner();
                self.pending_trick_winner = Some(winner);
                self.phase = Phase::Collect;
                let wins = self.player_wins_label(winner);
                self.status = self.trick_status_line(wins.as_str());
                Some(1200)
            },
            Phase::Collect => self.advance_collect(),
            Phase::DrawPlayer1 => {
                let player = self.draw_first_player;
                self.deal_card_to(player);
                self.phase = Phase::DrawPlayer2;
                self.status = self.player_draws_label(player, "first");
                Some(600)
            },
            Phase::DrawPlayer2 => {
                if self.deck_size > 0 {
                    let player = self.draw_second_player;
                    self.deal_card_to(player);
                    self.status = self.player_draws_label(player, "second");
                } else {
                    self.status = String::from_str("deck empty / no second draw");
                }
                self.phase = Phase::Lead;
                Some(1100)
            },
            Phase::Finished => None,
        }
    }

    fn advance_dealing(&mut self) -> (delay: Option<i32>)
        requires
            old(self)@.phase == Phase::Dealing,
            advance_ready(old(self)@),
        ensures
            advance_step(old(self)@, final(self)@, delay),
    {
        let dealt_cards = self.player1_hand.len() + self.player2_hand.len();
        let next_player: usize = if dealt_cards % 2 == 0 {
            1
        } else {
            2
        };
        self.deal_card_to(next_player);
        let dealt_total = dealt_cards + 1;
        if dealt_total == HAND_SIZE * 2 {
            self.phase = Phase::Lead;
            let mut status = String::from_str("deal complete / ");
            let leads = self.player_leads_label(self.leader_index());
            status.append(leads.as_str());
            self.status = status;
            Some(1200)
        } else {
            let hand_size = if next_player == 1 {
                self.player1_hand.len()
            } else {
                self.player2_hand.len()
            };
            let mut status = String::from_str("deal / ");
            status.append(self.player_label(next_player));
            let cards = number_between(" / ", hand_size, " cards / ");
            status.append(cards.as_str());
            let total = decimal(dealt_total);
            status.append(total.as_str());
            status.append("/");
            let all = decimal(HAND_SIZE * 2);
            status.append(all.as_str());
            self.status = status;
            proof {
                reveal_with_fuel(decimal_digits, 2);
                reveal_strlit("/6");
                reveal_strlit("/");
                assert(decimal_digits(6) =~= seq!['6']);
                let u = dealt_to(old(self)@, next_player);
                assert(hand_of(u, next_player).len() == hand_size);
                assert(self@.status =~= "deal / "@ + short_label(u.mode, next_player) + " / "@ + decimal_digits(
                        hand_of(u, next_player).len(),
                    ) + " cards / "@ + decimal_digits(dealt_total as nat) + "/6"@);
            }
            Some(320)
        }
    }

    fn advance_lead(&mut self) -> (delay: Option<i32>)
        requires
            old(self)@.phase == Phase::Lead,
            advance_ready(old(self)@),
        ensures
            advance_step(old(self)@, final(self)@, delay),
    {
        let player = self.leader_index();
        if self.is_human_player(player) {
            self.status = self.trick_status_line("select lead");
            return None;
        }
        self.play_ai_card(player);
        self.phase = Phase::Follow;
        let leads = self.player_leads_label(player);
        self.status = self.trick_status_line(leads.as_str());
        Some(1600)
    }

    fn advance_follow(&mut self) -> (delay: Option<i32>)
        requires
            old(self)@.phase == Phase::Follow,
            advance_ready(old(self)@),
        ensures
            advance_step(old(self)@, final(self)@, delay),
    {
        let player = Self::other_player(self.leader_index());
        if self.is_human_player(player) {
            self.status = self.trick_status_line("select answer");
            return None;
        }
        self.play_ai_card(player);
        self.phase = Phase::Resolve;
        let mut answers = String::from_str(self.player_display_label(player));
        answers.append(" answers");
        self.status = self.trick_status_line(answers.as_str());
        Some(1300)
    }

    fn advance_collect(&mut self) -> (delay: Option<i32>)
        requires
            old(self)@.phase == Phase::Collect,
            advance_ready(old(self)@),
        ensures
            advance_step(old(self)@, final(self)@, delay),
    {
        let winner = self.collect_trick();
        if self.player1_hand.is_empty() && self.player2_hand.is_empty() && self.deck_size == 0 {
            self.phase = Phase::Finished;
            let (score1, score2) = self.scores();
            let mut status = String::from_str("game / ");
            status.append(self.result_label());
            let first = number_between(" / ", score1 as usize, "-");
            status.append(first.as_str());
            let second = decimal(score2 as usize);
            status.append(second.as_str());
            self.status = status;
            assert(self@.status =~= "game / "@ + result_title(self.mode, winner_of(score1 as int, score2 as int))
                + " / "@ + decimal_digits(score1 as nat) + "-"@ + decimal_digits(score2 as nat));
            None
        } else if self.deck_size > 0 {
            self.draw_first_player = winner;
            self.draw_second_player = Self::other_player(winner);
            self.phase = Phase::DrawPlayer1;
            let mut status = self.player_collects_label(winner);
            status.append(" / winner draws first");
            self.status = status;
            Some(600)
        } else {
            self.phase = Phase::Lead;
            let mut status = String::from_str("deck empty / ");
            let leads = self.player_leads_label(winner);
            status.append(leads.as_str());
            self.status = status;
            Some(1100)
        }
    }
}

} // verus!
