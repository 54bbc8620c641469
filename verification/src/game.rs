use vstd::prelude::*;

use vstd::multiset::Multiset;

use crate::card::{full_deck, Card};
use crate::chance::random_below;
use crate::console::{write_console_line, ConsolePainter};
use crate::deck::Deck;
use crate::painter::Painter;
use crate::player::{handler_may_answer, Player, PlayerType};
use crate::text::number_between;
use crate::rules::{
    leader_wins, lemma_full_deck_points, lemma_points_sum_concat,
    lemma_points_sum_permutation, points_sum, winner_from_scores, winner_of,
};

verus! {

broadcast use vstd::seq_lib::group_to_multiset_ensures, vstd::multiset::group_multiset_axioms;

/// How many players sit at the table.
pub enum PlayersSize {
    Two,
}

/// Which player leads the next trick.
#[derive(Debug, PartialEq, Eq, Structural, Clone, Copy)]
pub enum PlayerTurn {
    Player1,
    Player2,
}

/// Where a person's choice of card comes from.
pub trait UserInput: Send + Clone {
    /// The index of the card that the player numbered `player_index` plays
    /// from `hand`.
    fn user_input(&self, player_index: usize, hand: &[Card]) -> (selected: usize)
        requires
            hand@.len() > 0,
        ensures
            selected < hand@.len(),
    ;
}

/// The player number (1 or 2) whose turn it is to lead.
pub open spec fn turn_number(turn: PlayerTurn) -> int {
    match turn {
        PlayerTurn::Player1 => 1,
        PlayerTurn::Player2 => 2,
    }
}

/// `after` is `before` once one trick is played: the leader played its card
/// number `i`, the other player its card number `j` (a computer player plays
/// its first card), and the winner took both and leads next.
pub open spec fn trick_outcome<T: Painter, Y: UserInput>(
    before: Game<T, Y>,
    after: Game<T, Y>,
    l: int,
    i: int,
    j: int,
) -> bool {
    let f = 3 - l;
    let c1 = before.hand_of(l)[i];
    let c2 = before.hand_of(f)[j];
    &&& 0 <= i < before.hand_of(l).len()
    &&& 0 <= j < before.hand_of(f).len()
    &&& after.hand_of(l) == before.hand_of(l).remove(i)
    &&& after.hand_of(f) == before.hand_of(f).remove(j)
    &&& before.kind_of(l) == PlayerType::AI ==> i == 0
    &&& before.kind_of(f) == PlayerType::AI ==> j == 0
    &&& before.kind_of(l) == PlayerType::Player ==> handler_may_answer(
        before.handler_of(l),
        l as usize,
        before.hand_of(l),
        i,
    )
    &&& before.kind_of(f) == PlayerType::Player ==> handler_may_answer(
        before.handler_of(f),
        f as usize,
        before.hand_of(f),
        j,
    )
    &&& after.deck_view() == before.deck_view()
    &&& after.briscola_card() == before.briscola_card()
    &&& after.kind_of(1) == before.kind_of(1)
    &&& after.kind_of(2) == before.kind_of(2)
    &&& if leader_wins(c1, c2, before.briscola_card().suit) {
        &&& turn_number(after.leader()) == l
        &&& after.won_of(l) == before.won_of(l) + seq![c1, c2]
        &&& after.won_of(f) == before.won_of(f)
    } else {
        &&& turn_number(after.leader()) == f
        &&& after.won_of(f) == before.won_of(f) + seq![c1, c2]
        &&& after.won_of(l) == before.won_of(l)
    }
}

/// `after` is `before` once one trick is played by its leader.
pub open spec fn trick_played<T: Painter, Y: UserInput>(before: Game<T, Y>, after: Game<T, Y>) -> bool {
    exists|i: int, j: int| trick_outcome(before, after, turn_number(before.leader()), i, j)
}

/// `after` is `before` once both players have drawn for a turn, the leader
/// first: three cards each at the start of the game, one card each afterwards.
pub open spec fn dealt_for_turn<T: Painter, Y: UserInput>(
    before: Game<T, Y>,
    after: Game<T, Y>,
    initial: bool,
) -> bool {
    let d = before.deck_view();
    let l = turn_number(before.leader());
    &&& after.wf()
    &&& if initial {
        &&& after.deck_view() == d.skip(6)
        &&& after.hand_of(l) == d.take(3)
        &&& after.hand_of(3 - l) == d.subrange(3, 6)
    } else {
        &&& after.deck_view() == d.skip(2)
        &&& after.hand_of(l) == before.hand_of(l).push(d[0])
        &&& after.hand_of(3 - l) == before.hand_of(3 - l).push(d[1])
    }
    &&& after.won_of(1) == before.won_of(1)
    &&& after.won_of(2) == before.won_of(2)
    &&& after.briscola_card() == before.briscola_card()
    &&& after.leader() == before.leader()
    &&& after.kind_of(1) == before.kind_of(1)
    &&& after.kind_of(2) == before.kind_of(2)
}

/// `after` is `before` once `n` tricks are played one after the other.
pub open spec fn tricks_played<T: Painter, Y: UserInput>(
    before: Game<T, Y>,
    after: Game<T, Y>,
    n: nat,
) -> bool
    decreases n,
{
    if n == 0 {
        before == after
    } else {
        exists|mid: Game<T, Y>| tricks_played(before, mid, (n - 1) as nat) && #[trigger] trick_played(mid, after)
    }
}

/// `after` is `before` once one turn is played: both players draw (three
/// cards each on the first turn, one card each afterwards), then one trick is
/// played, or the last three once the deck is empty.
pub open spec fn turn_played<T: Painter, Y: UserInput>(
    before: Game<T, Y>,
    after: Game<T, Y>,
    initial: bool,
) -> bool {
    exists|dealt: Game<T, Y>|
        #[trigger] dealt_for_turn(before, dealt, initial) && tricks_played(
            dealt,
            after,
            if dealt.deck_view().len() == 0 {
                3nat
            } else {
                1nat
            },
        )
}

/// Turn number `k` of a game, counted from 1, is the opening turn, in which
/// three cards each are dealt.
pub open spec fn opening_turn(k: nat) -> bool {
    k == 1
}

/// `after` is `before` once `k` turns are played one after the other, the
/// first of them the opening turn.
pub open spec fn turns_played<T: Painter, Y: UserInput>(
    before: Game<T, Y>,
    after: Game<T, Y>,
    k: nat,
) -> bool
    decreases k,
{
    if k == 0 {
        before == after
    } else {
        exists|mid: Game<T, Y>|
            turns_played(before, mid, (k - 1) as nat) && #[trigger] turn_played(mid, after, opening_turn(k))
    }
}

/// `played` is `before` played to its end: turns are played by the rules
/// until the deck is empty; then the hands are empty and the two piles of won
/// cards hold the forty cards, each once, worth 120 points together.
pub open spec fn played_out<T: Painter, Y: UserInput>(before: Game<T, Y>, played: Game<T, Y>) -> bool {
    &&& exists|k: nat| turns_played(before, played, k)
    &&& played.wf()
    &&& played.deck_view().len() == 0
    &&& played.hand_of(1).len() == 0
    &&& played.hand_of(2).len() == 0
    &&& (played.won_of(1) + played.won_of(2)).to_multiset() == full_deck().to_multiset()
    &&& points_sum(played.won_of(1)) + points_sum(played.won_of(2)) == 120
}

/// `after` is `before` once both scores are counted: counting takes the won
/// cards off their piles, and nothing else changes.
pub open spec fn scores_counted<T: Painter, Y: UserInput>(before: Game<T, Y>, after: Game<T, Y>) -> bool {
    &&& after.deck_view() == before.deck_view()
    &&& after.hand_of(1) == before.hand_of(1)
    &&& after.hand_of(2) == before.hand_of(2)
    &&& after.won_of(1) == Seq::<Card>::empty()
    &&& after.won_of(2) == Seq::<Card>::empty()
    &&& after.briscola_card() == before.briscola_card()
    &&& after.leader() == before.leader()
    &&& after.kind_of(1) == before.kind_of(1)
    &&& after.kind_of(2) == before.kind_of(2)
}

/// A two-player game at the terminal.
pub struct Game<T: Painter, Y: UserInput> {
    /// The cards not yet dealt, the next one first.
    pub deck: Deck,
    /// The last card of the deck, whose suit is trump.
    pub briscola: Card,
    pub player1: Player<Y>,
    pub player2: Player<Y>,
    pub players_size: PlayersSize,
    /// The player who leads the next trick.
    pub player_turn: PlayerTurn,
    pub painter: T,
}

impl<T: Painter, Y: UserInput> Game<T, Y> {
    pub open spec fn deck_view(&self) -> Seq<Card> {
        self.deck@
    }

    /// The player who leads the next trick.
    pub open spec fn leader(&self) -> PlayerTurn {
        self.player_turn
    }

    pub open spec fn briscola_card(&self) -> Card {
        self.briscola
    }

    /// The hand of player 1 or 2.
    pub open spec fn hand_of(&self, p: int) -> Seq<Card> {
        if p == 1 {
            self.player1.hand_view()
        } else {
            self.player2.hand_view()
        }
    }

    /// The cards won by player 1 or 2.
    pub open spec fn won_of(&self, p: int) -> Seq<Card> {
        if p == 1 {
            self.player1.won_view()
        } else {
            self.player2.won_view()
        }
    }

    pub open spec fn kind_of(&self, p: int) -> PlayerType {
        if p == 1 {
            self.player1.kind()
        } else {
            self.player2.kind()
        }
    }

    /// Where the choices of player 1 or 2 come from when a person plays it.
    pub open spec fn handler_of(&self, p: int) -> Y {
        if p == 1 {
            self.player1.handler()
        } else {
            self.player2.handler()
        }
    }

    /// Every card of the game: in the deck, in a hand or won.
    pub open spec fn all_cards(&self) -> Multiset<Card> {
        self.deck_view().to_multiset().add(self.hand_of(1).to_multiset()).add(
            self.hand_of(2).to_multiset(),
        ).add(self.won_of(1).to_multiset()).add(self.won_of(2).to_multiset())
    }

    /// The players are well formed and the forty cards are all in the game,
    /// each once.
    pub open spec fn wf(&self) -> bool {
        &&& self.player1.wf()
        &&& self.player2.wf()
        &&& self.all_cards() == full_deck().to_multiset()
    }

    /// A new game: a shuffled deck, empty hands, and a coin toss for who leads
    /// first.
    pub fn new(players_size: PlayersSize, player_types: [PlayerType; 2], painter: T, user_input: Y) -> (game: Game<T, Y>)
        ensures
            game.wf(),
            game.deck_view().len() == 40,
            game.deck_view().to_multiset() == full_deck().to_multiset(),
            game.briscola_card() == game.deck_view().last(),
            game.hand_of(1).len() == 0,
            game.hand_of(2).len() == 0,
            game.won_of(1).len() == 0,
            game.won_of(2).len() == 0,
            game.kind_of(1) == player_types[0],
            game.kind_of(2) == player_types[1],
    {
        let deck = Deck::new();
        let player1 = Player::new(player_types[0], user_input.clone());
        let player2 = Player::new(player_types[1], user_input);
        let value = random_below(2);
        let turn = if value == 0 {
            PlayerTurn::Player1
        } else {
            PlayerTurn::Player2
        };
        let briscola = deck.get_briscola();
        if value == 0 {
            write_console_line("Coin toss selected Player1");
        } else {
            write_console_line("Coin toss selected Player2");
        }
        let game = Game { deck, briscola, player1, player2, players_size, player_turn: turn, painter };
        assert(game.all_cards() =~= full_deck().to_multiset());
        assert(game.deck_view().to_multiset() =~= full_deck().to_multiset());
        game
    }

    /// The order in which players draw: the leader first.
    pub fn draw_order(&self) -> (order: [usize; 2])
        ensures
            self.leader() == PlayerTurn::Player1 ==> order@ == seq![0usize, 1usize],
            self.leader() == PlayerTurn::Player2 ==> order@ == seq![1usize, 0usize],
    {
        let order = match self.player_turn {
            PlayerTurn::Player1 => [0, 1],
            PlayerTurn::Player2 => [1, 0],
        };
        assert(order@ =~= (if self.player_turn == PlayerTurn::Player1 { seq![0usize, 1usize] } else { seq![1usize, 0usize] }));
        order
    }

    /// Whether `card1`, led, takes `card2` under this game's trump suit.
    pub fn wins_first(&self, card1: Card, card2: Card) -> (r: bool)
        ensures
            r == leader_wins(card1, card2, self.briscola_card().suit),
    {
        crate::rules::wins_first(card1, card2, self.briscola.suit)
    }

    /// Draws the front card of the deck.
    fn draw(&mut self) -> (card: Card)
        requires
            old(self).deck_view().len() > 0,
        ensures
            card == old(self).deck_view()[0],
            final(self).deck_view() == old(self).deck_view().drop_first(),
            final(self).player1 == old(self).player1,
            final(self).player2 == old(self).player2,
            final(self).briscola == old(self).briscola,
            final(self).player_turn == old(self).player_turn,
    {
        self.deck.get_card().unwrap()
    }

    /// Deals to the player at `index` (0 for player 1, 1 for player 2): three
    /// cards at the start of the game, one card afterwards.
    fn deal_to(&mut self, index: usize, initial: bool)
        requires
            index < 2,
            old(self).wf(),
            initial ==> old(self).deck_view().len() >= 3 && old(self).hand_of(index + 1).len() == 0,
            !initial ==> old(self).deck_view().len() >= 1,
        ensures
            final(self).wf(),
            initial ==> final(self).deck_view() == old(self).deck_view().skip(3)
                && final(self).hand_of(index + 1) == old(self).deck_view().take(3),
            !initial ==> final(self).deck_view() == old(self).deck_view().drop_first()
                && final(self).hand_of(index + 1) == old(self).hand_of(index + 1).push(old(self).deck_view()[0]),
            final(self).hand_of(2 - index) == old(self).hand_of(2 - index),
            final(self).won_of(1) == old(self).won_of(1),
            final(self).won_of(2) == old(self).won_of(2),
            final(self).briscola == old(self).briscola,
            final(self).player_turn == old(self).player_turn,
            final(self).kind_of(1) == old(self).kind_of(1),
            final(self).kind_of(2) == old(self).kind_of(2),
    {
        let ghost d = self.deck_view();
        proof {
            self.lemma_card_count();
        }
        if initial {
            let mut hand: Vec<Card> = Vec::with_capacity(3);
            let mut k: usize = 0;
            while k < 3
                invariant
                    k <= 3,
                    d.len() >= 3,
                    hand@ == d.take(k as int),
                    self.deck_view() == d.skip(k as int),
                    self.player1 == old(self).player1,
                    self.player2 == old(self).player2,
                    self.briscola == old(self).briscola,
                    self.player_turn == old(self).player_turn,
                decreases 3 - k,
            {
                let card = self.draw();
                hand.push(card);
                k = k + 1;
                assert(hand@ =~= d.take(k as int));
                assert(self.deck_view() =~= d.skip(k as int));
            }
            proof {
                assert(d =~= hand@ + self.deck_view());
                vstd::seq_lib::lemma_multiset_commutative(hand@, self.deck_view());
            }
            if index == 0 {
                self.player1.assign_cards(hand);
            } else {
                self.player2.assign_cards(hand);
            }
            assert(self.all_cards() =~= old(self).all_cards());
        } else {
            let card = self.draw();
            proof {
                assert(d =~= seq![card] + self.deck_view());
                vstd::seq_lib::lemma_multiset_commutative(seq![card], self.deck_view());
            }
            if index == 0 {
                self.player1.add_card_to_hand(card);
            } else {
                self.player2.add_card_to_hand(card);
            }
            assert(self.all_cards() =~= old(self).all_cards());
        }
    }


    /// Deals to both players, the leader first: three cards each at the start
    /// of the game, one card each afterwards.
    pub fn assign_cards(&mut self, initial: bool)
        requires
            old(self).wf(),
            initial ==> old(self).deck_view().len() >= 6 && old(self).hand_of(1).len() == 0
                && old(self).hand_of(2).len() == 0,
            !initial ==> old(self).deck_view().len() >= 2,
        ensures
            dealt_for_turn(*old(self), *final(self), initial),
    {
        let ghost d = self.deck_view();
        let order = self.draw_order();
        self.deal_to(order[0], initial);
        self.deal_to(order[1], initial);
        proof {
            if initial {
                assert(d.skip(3).take(3) =~= d.subrange(3, 6));
                assert(d.skip(3).skip(3) =~= d.skip(6));
            } else {
                assert(d.drop_first().drop_first() =~= d.skip(2));
            }
        }
    }

    /// One trick: the leader plays, the other player answers, and the winner
    /// takes both cards and leads next.
    fn play_trick(&mut self)
        requires
            old(self).wf(),
            old(self).hand_of(1).len() > 0,
            old(self).hand_of(2).len() > 0,
        ensures
            final(self).wf(),
            trick_played(*old(self), *final(self)),
    {
        let ghost g0 = *self;
        let leader_is_one = self.player_turn == PlayerTurn::Player1;
        let card1;
        let card2;
        if leader_is_one {
            card1 = self.player1.play_card(1);
            card2 = self.player2.play_card(2);
        } else {
            card1 = self.player2.play_card(2);
            card2 = self.player1.play_card(1);
        }
        let ghost l = turn_number(g0.leader());
        let ghost f = 3 - l;
        let ghost i = choose|i: int|
            0 <= i < g0.hand_of(l).len() && card1 == g0.hand_of(l)[i] && self.hand_of(l)
                == g0.hand_of(l).remove(i) && (g0.kind_of(l) == PlayerType::AI ==> i == 0)
                && (g0.kind_of(l) == PlayerType::Player ==> handler_may_answer(
                g0.handler_of(l),
                l as usize,
                g0.hand_of(l),
                i,
            ));
        let ghost j = choose|j: int|
            0 <= j < g0.hand_of(f).len() && card2 == g0.hand_of(f)[j] && self.hand_of(f)
                == g0.hand_of(f).remove(j) && (g0.kind_of(f) == PlayerType::AI ==> j == 0)
                && (g0.kind_of(f) == PlayerType::Player ==> handler_may_answer(
                g0.handler_of(f),
                f as usize,
                g0.hand_of(f),
                j,
            ));
        let (leader_number, follower_number): (usize, usize) = if leader_is_one {
            (1, 2)
        } else {
            (2, 1)
        };
        let mut played = number_between("Card played by ", leader_number, " ");
        played.append(ConsolePainter::card_text(card1).as_str());
        let second = number_between(" and card played by ", follower_number, " ");
        played.append(second.as_str());
        played.append(ConsolePainter::card_text(card2).as_str());
        write_console_line(played.as_str());
        let mut cards_won: Vec<Card> = Vec::with_capacity(2);
        cards_won.push(card1);
        cards_won.push(card2);
        assert(cards_won@ =~= seq![card1, card2]);
        let leader_takes = self.wins_first(card1, card2);
        let winner_number = if leader_takes {
            leader_number
        } else {
            follower_number
        };
        let won_turn = number_between("Player ", winner_number, " won turn");
        write_console_line(won_turn.as_str());
        if leader_takes == leader_is_one {
            self.player1.add_won_cards(&mut cards_won);
            self.player_turn = PlayerTurn::Player1;
        } else {
            self.player2.add_won_cards(&mut cards_won);
            self.player_turn = PlayerTurn::Player2;
        }
        proof {
            vstd::seq_lib::to_multiset_remove(g0.hand_of(l), i);
            vstd::seq_lib::to_multiset_remove(g0.hand_of(f), j);
            let w = if leader_takes { l } else { f };
            vstd::seq_lib::lemma_multiset_commutative(g0.won_of(w), seq![card1, card2]);
            assert(seq![card1, card2].to_multiset() =~= Multiset::empty().insert(card1).insert(card2)) by {
                assert(seq![card1, card2] =~= seq![card1].push(card2));
                assert(seq![card1] =~= Seq::<Card>::empty().push(card1));
            }
            assert(self.all_cards() =~= g0.all_cards());
            assert(trick_outcome(g0, *self, l, i, j));
        }
    }


    /// A turn of the game: the players draw, then one trick is played, or the
    /// last three once the deck is empty.
    pub fn turn(&mut self, initial: bool)
        requires
            old(self).wf(),
            initial ==> old(self).deck_view().len() >= 6 && old(self).hand_of(1).len() == 0
                && old(self).hand_of(2).len() == 0,
            !initial ==> old(self).deck_view().len() >= 2,
            !initial && old(self).deck_view().len() == 2 ==> old(self).hand_of(1).len() >= 2
                && old(self).hand_of(2).len() >= 2,
        ensures
            final(self).wf(),
            final(self).deck_view() == old(self).deck_view().skip(if initial { 6int } else { 2int }),
            final(self).hand_of(1).len() == old(self).hand_of(1).len() + (if initial { 3int } else { 1int })
                - (if final(self).deck_view().len() == 0 { 3int } else { 1int }),
            final(self).hand_of(2).len() == old(self).hand_of(2).len() + (if initial { 3int } else { 1int })
                - (if final(self).deck_view().len() == 0 { 3int } else { 1int }),
            final(self).won_of(1).len() + final(self).won_of(2).len() == old(self).won_of(1).len()
                + old(self).won_of(2).len() + (if final(self).deck_view().len() == 0 { 6int } else { 2int }),
            old(self).won_of(1).is_prefix_of(final(self).won_of(1)),
            old(self).won_of(2).is_prefix_of(final(self).won_of(2)),
            final(self).briscola_card() == old(self).briscola_card(),
            final(self).kind_of(1) == old(self).kind_of(1),
            final(self).kind_of(2) == old(self).kind_of(2),
            turn_played(*old(self), *final(self), initial),
    {
        self.assign_cards(initial);
        let last_turn = self.deck.is_deck_empty();
        let plays_size: usize = if last_turn { 3 } else { 1 };
        let ghost g1 = *self;
        assert(tricks_played(g1, *self, 0));
        let mut i: usize = 0;
        while i < plays_size
            invariant
                self.wf(),
                i <= plays_size,
                plays_size == (if g1.deck_view().len() == 0 { 3usize } else { 1usize }),
                g1.hand_of(1).len() >= plays_size,
                g1.hand_of(2).len() >= plays_size,
                g1.hand_of(1).len() == old(self).hand_of(1).len() + (if initial { 3int } else { 1int }),
                g1.hand_of(2).len() == old(self).hand_of(2).len() + (if initial { 3int } else { 1int }),
                self.hand_of(1).len() == g1.hand_of(1).len() - i,
                self.hand_of(2).len() == g1.hand_of(2).len() - i,
                self.deck_view() == g1.deck_view(),
                self.won_of(1).len() + self.won_of(2).len() == g1.won_of(1).len() + g1.won_of(2).len() + 2 * i,
                g1.won_of(1).is_prefix_of(self.won_of(1)),
                g1.won_of(2).is_prefix_of(self.won_of(2)),
                self.briscola_card() == g1.briscola_card(),
                self.kind_of(1) == g1.kind_of(1),
                self.kind_of(2) == g1.kind_of(2),
                tricks_played(g1, *self, i as nat),
            decreases plays_size - i,
        {
            let line = number_between("N. ", i, "");
            write_console_line(line.as_str());
            let ghost before = *self;
            self.play_trick();
            proof {
                let l = turn_number(before.leader());
                let (a, b) = choose|a: int, b: int| trick_outcome(before, *self, l, a, b);
                assert(trick_outcome(before, *self, l, a, b));
                let c1 = before.hand_of(l)[a];
                let c2 = before.hand_of(3 - l)[b];
                if leader_wins(c1, c2, before.briscola_card().suit) {
                    assert(self.won_of(l) =~= before.won_of(l) + seq![c1, c2]);
                } else {
                    assert(self.won_of(3 - l) =~= before.won_of(3 - l) + seq![c1, c2]);
                }
                assert(g1.won_of(1).is_prefix_of(self.won_of(1)));
                assert(g1.won_of(2).is_prefix_of(self.won_of(2)));
                assert(tricks_played(g1, before, i as nat) && trick_played(before, *self));
                assert(tricks_played(g1, *self, (i + 1) as nat));
            }
            i = i + 1;
        }
        assert(dealt_for_turn(*old(self), g1, initial));
    }

    /// Plays the whole game and names the winner: player 1 or 2, or none on a
    /// draw.
    pub fn game(&mut self) -> (winner: Option<usize>)
        requires
            old(self).wf(),
            old(self).hand_of(1).len() == 0,
            old(self).hand_of(2).len() == 0,
            old(self).deck_view().len() % 2 == 0,
            old(self).deck_view().len() == 0 || old(self).deck_view().len() >= 6,
        ensures
            final(self).deck_view().len() == 0,
            final(self).hand_of(1).len() == 0,
            final(self).hand_of(2).len() == 0,
            final(self).won_of(1).len() == 0,
            final(self).won_of(2).len() == 0,
            final(self).kind_of(1) == old(self).kind_of(1),
            final(self).kind_of(2) == old(self).kind_of(2),
            exists|played: Game<T, Y>|
                #[trigger] played_out(*old(self), played) && scores_counted(played, *final(self))
                    && winner == winner_of(
                    points_sum(played.won_of(1)) as int,
                    points_sum(played.won_of(2)) as int,
                ),
    {
        proof {
            self.lemma_deck_at_most_forty();
        }
        write_console_line("Beginning game");
        let ghost g0 = *self;
        let mut i: u8 = 0;
        while !self.deck.is_deck_empty()
            invariant
                self.wf(),
                turns_played(g0, *self, i as nat),
                self.kind_of(1) == g0.kind_of(1),
                self.kind_of(2) == g0.kind_of(2),
                self.deck_view().len() % 2 == 0,
                i == 0 ==> self.deck_view().len() <= 40 && self.hand_of(1).len() == 0
                    && self.hand_of(2).len() == 0 && (self.deck_view().len() == 0
                    || self.deck_view().len() >= 6),
                i >= 1 ==> self.deck_view().len() + 2 * i <= 36,
                i >= 1 ==> self.hand_of(1).len() == (if self.deck_view().len() == 0 { 0int } else { 2int }),
                i >= 1 ==> self.hand_of(2).len() == (if self.deck_view().len() == 0 { 0int } else { 2int }),
            decreases self.deck_view().len(),
        {
            i = i + 1;
            let heading = number_between("Turn ", i as usize, "");
            write_console_line(heading.as_str());
            let ghost before = *self;
            self.turn(i == 1);
            proof {
                assert(opening_turn(i as nat) == (i == 1));
                assert(turns_played(g0, before, (i - 1) as nat) && turn_played(before, *self, opening_turn(i as nat)));
                assert(turns_played(g0, *self, i as nat));
            }
        }
        proof {
            self.lemma_finished_totals();
            assert(turns_played(g0, *self, i as nat));
        }
        let ghost played = *self;
        assert(played_out(g0, played));
        let score1 = self.player1.calculate_score();
        let score2 = self.player2.calculate_score();
        assert(scores_counted(played, *self));
        let line1 = number_between("Player 1 score is ", score1 as usize, "");
        write_console_line(line1.as_str());
        let line2 = number_between("Player 2 score is ", score2 as usize, "");
        write_console_line(line2.as_str());
        winner_from_scores(score1, score2)
    }

    proof fn lemma_card_count(&self)
        requires
            self.wf(),
        ensures
            self.deck_view().len() + self.hand_of(1).len() + self.hand_of(2).len() + self.won_of(1).len()
                + self.won_of(2).len() == 40,
    {
        assert(full_deck().to_multiset().len() == 40);
    }

    proof fn lemma_deck_at_most_forty(&self)
        requires
            self.wf(),
        ensures
            self.deck_view().len() <= 40,
    {
        assert(full_deck().to_multiset().len() == 40);
        assert(self.all_cards().len() >= self.deck_view().to_multiset().len());
    }

    proof fn lemma_finished_totals(&self)
        requires
            self.wf(),
            self.deck_view().len() == 0,
            self.hand_of(1).len() == 0,
            self.hand_of(2).len() == 0,
        ensures
            (self.won_of(1) + self.won_of(2)).to_multiset() == full_deck().to_multiset(),
            points_sum(self.won_of(1)) + points_sum(self.won_of(2)) == 120,
            points_sum(self.won_of(1)) <= 120,
            points_sum(self.won_of(2)) <= 120,
    {
        vstd::seq_lib::lemma_multiset_commutative(self.won_of(1), self.won_of(2));
        assert(self.deck_view().to_multiset() =~= Multiset::empty());
        assert(self.hand_of(1).to_multiset() =~= Multiset::empty());
        assert(self.hand_of(2).to_multiset() =~= Multiset::empty());
        assert((self.won_of(1) + self.won_of(2)).to_multiset() =~= full_deck().to_multiset());
        lemma_points_sum_permutation(self.won_of(1) + self.won_of(2), full_deck());
        lemma_points_sum_concat(self.won_of(1), self.won_of(2));
        lemma_full_deck_points();
    }

}

} // verus!
