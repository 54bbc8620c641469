use vstd::prelude::*;
use vstd::string::*;

use crate::card::{number_value, Card};
use crate::game::UserInput;
use crate::hand::Hand;
use crate::rules::{points, points_sum};

verus! {

/// Whether a seat is played by the computer or by a person.
#[derive(Debug, PartialEq, Eq, Structural, Clone, Copy)]
pub enum PlayerType {
    AI,
    Player,
}

impl PlayerType {
    /// The seat type named on the command line: `human` or `ai`.
    pub fn from_cli(value: &str) -> (kind: Option<PlayerType>)
        ensures
            value@ == "human"@ ==> kind == Some(PlayerType::Player),
            value@ == "ai"@ ==> kind == Some(PlayerType::AI),
            value@ != "human"@ && value@ != "ai"@ ==> kind is None,
    {
        proof {
            reveal_strlit("human");
            reveal_strlit("ai");
            assert("human"@[0] != "ai"@[0]);
        }
        let text = String::from_str(value);
        let human = String::from_str("human");
        let ai = String::from_str("ai");
        if text == human {
            Some(PlayerType::Player)
        } else if text == ai {
            Some(PlayerType::AI)
        } else {
            None
        }
    }
}

/// A player: its hand, the cards it has taken, and where its choices come
/// from when a person plays it.
pub struct Player<T: UserInput> {
    player_type: PlayerType,
    hand: Hand,
    cards_won: Vec<Card>,
    input_handler: T,
}

/// The points that the score counts for a card, written over its face value.
pub open spec fn face_points(v: u8) -> nat {
    if v == 1 {
        11
    } else if v == 3 {
        10
    } else if v == 8 {
        2
    } else if v == 9 {
        3
    } else if v == 10 {
        4
    } else {
        0
    }
}

/// `k` is an index that the input handler `handler` may answer when player
/// number `player_index` chooses a card from `hand`.
pub open spec fn handler_may_answer<T: UserInput>(
    handler: T,
    player_index: usize,
    hand: Seq<Card>,
    k: int,
) -> bool {
    exists|cards: &[Card], r: usize|
        cards@ == hand && r == k && #[trigger] call_ensures(
            T::user_input,
            (&handler, player_index, cards),
            r,
        )
}

impl<T: UserInput> Player<T> {
    pub closed spec fn wf(&self) -> bool {
        self.hand.wf()
    }

    /// The cards held.
    pub closed spec fn hand_view(&self) -> Seq<Card> {
        self.hand@
    }

    /// The cards taken in tricks, in the order they were taken.
    pub closed spec fn won_view(&self) -> Seq<Card> {
        self.cards_won@
    }

    pub closed spec fn kind(&self) -> PlayerType {
        self.player_type
    }

    /// Where a person's choices come from.
    pub closed spec fn handler(&self) -> T {
        self.input_handler
    }

    pub fn new(player_type: PlayerType, user_input: T) -> (player: Player<T>)
        ensures
            player.wf(),
            player.kind() == player_type,
            player.hand_view() == Seq::<Card>::empty(),
            player.won_view() == Seq::<Card>::empty(),
    {
        Player { player_type, hand: Hand::new(), cards_won: Vec::new(), input_handler: user_input }
    }

    /// Replaces the cards held.
    pub fn assign_cards(&mut self, cards: Vec<Card>)
        ensures
            final(self).wf(),
            final(self).hand_view() == cards@,
            final(self).won_view() == old(self).won_view(),
            final(self).kind() == old(self).kind(),
    {
        self.hand.assign_cards(cards);
    }

    /// Adds a drawn card to the hand.
    pub fn add_card_to_hand(&mut self, card: Card)
        requires
            old(self).wf(),
            old(self).hand_view().len() < usize::MAX,
        ensures
            final(self).wf(),
            final(self).hand_view() == old(self).hand_view().push(card),
            final(self).won_view() == old(self).won_view(),
            final(self).kind() == old(self).kind(),
    {
        self.hand.add_card(card);
    }

    /// Plays the card numbered `selected` in the hand, counting from 1.
    pub fn select_card(&mut self, selected_card: usize) -> (card: Card)
        requires
            old(self).wf(),
            1 <= selected_card <= old(self).hand_view().len(),
        ensures
            final(self).wf(),
            card == old(self).hand_view()[selected_card - 1],
            final(self).hand_view() == old(self).hand_view().remove(selected_card - 1),
            final(self).won_view() == old(self).won_view(),
            final(self).kind() == old(self).kind(),
    {
        self.hand.select_card(selected_card - 1)
    }

    /// Plays a card: the computer plays its first card; a person plays the
    /// card at the index that the input handler answers, asked with the hand.
    pub fn play_card(&mut self, player_index: usize) -> (card: Card)
        requires
            old(self).wf(),
            old(self).hand_view().len() > 0,
        ensures
            final(self).wf(),
            exists|i: int|
                0 <= i < old(self).hand_view().len() && card == old(self).hand_view()[i]
                    && final(self).hand_view() == old(self).hand_view().remove(i)
                    && (old(self).kind() == PlayerType::AI ==> i == 0)
                    && (old(self).kind() == PlayerType::Player ==> handler_may_answer(
                    old(self).handler(),
                    player_index,
                    old(self).hand_view(),
                    i,
                )),
            final(self).won_view() == old(self).won_view(),
            final(self).kind() == old(self).kind(),
            final(self).handler() == old(self).handler(),
    {
        let selected = if self.player_type == PlayerType::AI {
            0
        } else {
            let cards = self.hand.cards();
            let answer = self.input_handler.user_input(player_index, cards);
            assert(call_ensures(T::user_input, (&self.input_handler, player_index, cards), answer));
            assert(handler_may_answer(self.input_handler, player_index, self.hand@, answer as int));
            answer
        };
        self.hand.select_card(selected)
    }

    /// Moves the cards of a taken trick onto the pile of cards won, leaving
    /// `cards` empty.
    pub fn add_won_cards(&mut self, cards: &mut Vec<Card>)
        ensures
            final(self).won_view() == old(self).won_view() + old(cards)@,
            final(cards)@ == Seq::<Card>::empty(),
            final(self).hand_view() == old(self).hand_view(),
            final(self).wf() == old(self).wf(),
            final(self).kind() == old(self).kind(),
    {
        self.cards_won.append(cards);
    }

    /// A copy of the cards taken, in order.
    pub fn won_cards(&self) -> (cards: Vec<Card>)
        ensures
            cards@ == self.won_view(),
    {
        let mut cards: Vec<Card> = Vec::new();
        let mut i: usize = 0;
        while i < self.cards_won.len()
            invariant
                i <= self.cards_won@.len(),
                cards@ == self.cards_won@.take(i as int),
            decreases self.cards_won@.len() - i,
        {
            cards.push(self.cards_won[i]);
            i = i + 1;
            assert(cards@ =~= self.cards_won@.take(i as int));
        }
        assert(self.cards_won@.take(i as int) =~= self.cards_won@);
        cards
    }

    /// The number of cards held.
    pub fn hand_size(&self) -> (size: usize)
        requires
            self.wf(),
        ensures
            size == self.hand_view().len(),
    {
        self.hand.size()
    }

    /// The points of the cards taken; their total is one that fits in a `u8`.
    /// The cards are taken off the pile to be counted, which leaves the pile
    /// empty.
    pub fn calculate_score(&mut self) -> (score: u8)
        requires
            points_sum(old(self).won_view()) <= u8::MAX,
        ensures
            score == points_sum(old(self).won_view()),
            final(self).won_view() == Seq::<Card>::empty(),
            final(self).hand_view() == old(self).hand_view(),
            final(self).wf() == old(self).wf(),
            final(self).kind() == old(self).kind(),
            final(self).handler() == old(self).handler(),
    {
        let mut cards_won: Vec<Card> = Vec::new();
        std::mem::swap(&mut cards_won, &mut self.cards_won);
        let mut total: u8 = 0;
        let mut i: usize = 0;
        while i < cards_won.len()
            invariant
                i <= cards_won@.len(),
                total == points_sum(cards_won@.take(i as int)),
                points_sum(cards_won@) <= u8::MAX,
            decreases cards_won@.len() - i,
        {
            let card = cards_won[i];
            let p: u8 = match card.value.eval() {
                1u8 => 11u8,
                3u8 => 10u8,
                8u8 => 2u8,
                9u8 => 3u8,
                10u8 => 4u8,
                _ => 0u8,
            };
            proof {
                assert(face_points(number_value(card.value)) == points(card));
                assert(cards_won@.take(i + 1).drop_last() =~= cards_won@.take(i as int));
                crate::rules::lemma_points_sum_prefix(cards_won@, i + 1);
            }
            total = total + p;
            i = i + 1;
        }
        assert(cards_won@.take(i as int) =~= cards_won@);
        total
    }
}

} // verus!
