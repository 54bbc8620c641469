use vstd::prelude::*;

use crate::card::{full_deck, Card};
use crate::chance::{shuffle_outcome, shuffled};
use crate::hand::Hand;

verus! {

/// The cards still to be drawn; cards are drawn from the front, and the last
/// card is the face-up briscola that fixes the trump suit.
pub struct Deck {
    cards: Vec<Card>,
}

impl View for Deck {
    type V = Seq<Card>;

    closed spec fn view(&self) -> Seq<Card> {
        self.cards@
    }
}

impl Deck {
    /// The forty cards in a random order: the order that rand's shuffle gave
    /// to the whole deck, so that the last card, the briscola, is any of them.
    pub fn new() -> (deck: Deck)
        ensures
            shuffle_outcome(full_deck(), deck@),
            deck@.to_multiset() == full_deck().to_multiset(),
            deck@.len() == 40,
    {
        let mut cards = Card::load_cards();
        Deck::shuffle_deck(&mut cards);
        Deck { cards }
    }

    /// The briscola: the last card of the deck.
    pub fn get_briscola(&self) -> (card: Card)
        requires
            self@.len() > 0,
        ensures
            card == self@.last(),
    {
        self.cards[self.cards.len() - 1]
    }

    pub fn is_deck_empty(&self) -> (empty: bool)
        ensures
            empty == (self@.len() == 0),
    {
        self.cards.len() == 0
    }

    fn shuffle_deck(cards: &mut Vec<Card>)
        ensures
            shuffle_outcome(old(cards)@, final(cards)@),
            final(cards)@.to_multiset() == old(cards)@.to_multiset(),
            final(cards)@.len() == old(cards)@.len(),
    {
        let mut taken: Vec<Card> = Vec::new();
        std::mem::swap(&mut taken, cards);
        *cards = shuffled(taken);
    }

    /// Draws the front card, if there is one.
    pub fn get_card(&mut self) -> (card: Option<Card>)
        ensures
            old(self)@.len() == 0 ==> card is None && final(self)@ == old(self)@,
            old(self)@.len() > 0 ==> card == Some(old(self)@[0]) && final(self)@ == old(
                self,
            )@.drop_first(),
    {
        if self.cards.len() == 0 {
            None
        } else {
            let card = self.cards.remove(0);
            assert(old(self)@.remove(0) =~= old(self)@.drop_first());
            Some(card)
        }
    }

    /// Draws the two front cards into a new hand.
    pub fn get_hand(&mut self) -> (hand: Hand)
        requires
            old(self)@.len() >= 2,
        ensures
            hand.wf(),
            hand@ == old(self)@.take(2),
            final(self)@ == old(self)@.skip(2),
    {
        let mut cards_hand: Vec<Card> = Vec::new();
        let first = self.cards.remove(0);
        cards_hand.push(first);
        let second = self.cards.remove(0);
        cards_hand.push(second);
        assert(cards_hand@ =~= old(self)@.take(2));
        assert(self.cards@ =~= old(self)@.skip(2));
        let mut hand = Hand::new();
        hand.assign_cards(cards_hand);
        hand
    }
}

} // verus!
