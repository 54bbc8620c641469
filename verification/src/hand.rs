use vstd::prelude::*;
use vstd::string::*;

use crate::card::Card;
use crate::console::{cards_debug_text, write_console_line};
use crate::text::number_between;

verus! {

/// The cards a player holds, with a recorded count.
pub struct Hand {
    cards: Vec<Card>,
    size: usize,
}

impl View for Hand {
    type V = Seq<Card>;

    closed spec fn view(&self) -> Seq<Card> {
        self.cards@
    }
}

impl Hand {
    /// The count recorded with the cards. It follows the cards when they are
    /// assigned, played or added, but not when they are handed out by
    /// `get_hand`.
    pub closed spec fn recorded_size(&self) -> nat {
        self.size as nat
    }

    /// The recorded count is the number of cards held.
    pub open spec fn wf(&self) -> bool {
        self.recorded_size() == self@.len()
    }

    /// Prints the line "Cards are" with the cards as Rust's `Debug` writes
    /// them.
    fn print_cards(cards: &[Card]) {
        let mut line = String::from_str("Cards are ");
        let listed = cards_debug_text(cards);
        line.append(listed.as_str());
        write_console_line(line.as_str());
    }

    /// Replaces the cards held, and prints them.
    pub fn assign_cards(&mut self, cards: Vec<Card>)
        ensures
            final(self)@ == cards@,
            final(self).recorded_size() == cards@.len(),
    {
        Hand::print_cards(cards.as_slice());
        let size = cards.len();
        *self = Hand { cards, size };
    }

    /// Takes the card at index `selected` (counting from 0) out of the hand;
    /// the other cards keep their order. Prints the cards held and the index.
    pub fn select_card(&mut self, selected_card: usize) -> (card: Card)
        requires
            selected_card < old(self)@.len(),
        ensures
            card == old(self)@[selected_card as int],
            final(self)@ == old(self)@.remove(selected_card as int),
            final(self).recorded_size() == old(self)@.len() - 1,
    {
        Hand::print_cards(self.cards.as_slice());
        let line = number_between("selected card ", selected_card, "");
        write_console_line(line.as_str());
        let card = self.cards.remove(selected_card);
        self.size = self.cards.len();
        card
    }

    /// Adds a drawn card at the end of the hand.
    pub fn add_card(&mut self, card: Card)
        requires
            old(self)@.len() < usize::MAX,
        ensures
            final(self)@ == old(self)@.push(card),
            final(self).recorded_size() == old(self)@.len() + 1,
    {
        self.cards.push(card);
        self.size = self.cards.len();
    }

    /// Hands out the cards held, in order, and leaves the hand without cards;
    /// the recorded count stays as it was.
    pub fn get_hand(&mut self) -> (cards: Vec<Card>)
        ensures
            cards@ == old(self)@,
            final(self)@ == Seq::<Card>::empty(),
            final(self).recorded_size() == old(self).recorded_size(),
    {
        let mut cards: Vec<Card> = Vec::new();
        std::mem::swap(&mut cards, &mut self.cards);
        cards
    }

    /// The cards held, to read them.
    pub fn cards(&self) -> (cards: &[Card])
        ensures
            cards@ == self@,
    {
        self.cards.as_slice()
    }

    /// The recorded count of cards.
    pub fn size(&self) -> (size: usize)
        ensures
            size == self.recorded_size(),
    {
        self.size
    }

    /// An empty hand.
    pub fn new() -> (hand: Hand)
        ensures
            hand@ == Seq::<Card>::empty(),
            hand.recorded_size() == 0,
    {
        Hand { cards: Vec::new(), size: 0 }
    }
}

} // verus!
