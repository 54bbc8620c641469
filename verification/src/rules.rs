use vstd::prelude::*;

use crate::card::{full_deck, number_order, Card, CardNumber, CardSuit};

verus! {

/// Points that a card is worth at the end of the game: Ace 11, Three 10,
/// King 4, Knight 3, Knave 2, every other rank nothing.
pub open spec fn points(card: Card) -> nat {
    match card.value {
        CardNumber::Ace => 11,
        CardNumber::Three => 10,
        CardNumber::King => 4,
        CardNumber::Knight => 3,
        CardNumber::Knave => 2,
        _ => 0,
    }
}

/// Taking strength of a rank inside a suit: Ace beats Three beats King,
/// then Knight, Knave, Seven down to Two.
pub open spec fn strength(card: Card) -> nat {
    match card.value {
        CardNumber::Ace => 10,
        CardNumber::Three => 9,
        CardNumber::King => 8,
        CardNumber::Knight => 7,
        CardNumber::Knave => 6,
        CardNumber::Seven => 5,
        CardNumber::Six => 4,
        CardNumber::Five => 3,
        CardNumber::Four => 2,
        CardNumber::Two => 1,
    }
}

/// Total points of a pile of cards.
pub open spec fn points_sum(cards: Seq<Card>) -> nat
    decreases cards.len(),
{
    if cards.len() == 0 {
        0
    } else {
        points_sum(cards.drop_last()) + points(cards.last())
    }
}

/// Whether the card led to a trick takes it against the card played in answer:
/// a card of the led suit answered in the same suit wins by strength; a led
/// trump wins against any other suit; otherwise the leader wins unless the
/// answer is a trump.
pub open spec fn leader_wins(lead: Card, follow: Card, briscola_suit: CardSuit) -> bool {
    if lead.suit == follow.suit {
        strength(lead) > strength(follow)
    } else if lead.suit == briscola_suit {
        true
    } else {
        follow.suit != briscola_suit
    }
}

/// The ranks of a suit from the weakest to the strongest in taking a trick:
/// Two, Four, Five, Six, Seven, Knave, Knight, King, Three, Ace.
pub open spec fn taking_order() -> Seq<CardNumber> {
    seq![
        CardNumber::Two,
        CardNumber::Four,
        CardNumber::Five,
        CardNumber::Six,
        CardNumber::Seven,
        CardNumber::Knave,
        CardNumber::Knight,
        CardNumber::King,
        CardNumber::Three,
        CardNumber::Ace,
    ]
}

/// Every rank has its place in the taking order.
pub proof fn lemma_taking_order_place(n: CardNumber) -> (k: int)
    ensures
        0 <= k < 10,
        taking_order()[k] == n,
{
    match n {
        CardNumber::Two => 0,
        CardNumber::Four => 1,
        CardNumber::Five => 2,
        CardNumber::Six => 3,
        CardNumber::Seven => 4,
        CardNumber::Knave => 5,
        CardNumber::Knight => 6,
        CardNumber::King => 7,
        CardNumber::Three => 8,
        CardNumber::Ace => 9,
    }
}

/// The strength by which cards of one suit are compared grows along the
/// taking order.
pub proof fn lemma_strength_follows_taking_order(k: int)
    requires
        0 <= k < 10,
    ensures
        strength(Card { value: taking_order()[k], suit: CardSuit::Cups }) == k + 1,
{
    if k == 0 {
    } else if k == 1 {
    } else if k == 2 {
    } else if k == 3 {
    } else if k == 4 {
    } else if k == 5 {
    } else if k == 6 {
    } else if k == 7 {
    } else if k == 8 {
    } else {
    }
}

/// What the ranks are worth along the taking order: nothing from the Two to
/// the Seven, then Knave 2, Knight 3, King 4, Three 10 and Ace 11, so a rank
/// that takes another is worth at least as much.
pub proof fn lemma_points_along_taking_order(k: int, suit: CardSuit)
    requires
        0 <= k < 10,
    ensures
        points(Card { value: taking_order()[k], suit }) == seq![0nat, 0, 0, 0, 0, 2, 3, 4, 10, 11][k],
        forall|m: int|
            0 <= m < k ==> #[trigger] points(Card { value: taking_order()[m], suit }) <= points(
                Card { value: taking_order()[k], suit },
            ),
{
    let worth = seq![0nat, 0, 0, 0, 0, 2, 3, 4, 10, 11];
    assert forall|m: int| 0 <= m < 10 implies #[trigger] points(
        Card { value: taking_order()[m], suit },
    ) == worth[m] by {
        if m == 0 {
        } else if m == 1 {
        } else if m == 2 {
        } else if m == 3 {
        } else if m == 4 {
        } else if m == 5 {
        } else if m == 6 {
        } else if m == 7 {
        } else if m == 8 {
        } else {
        }
    }
}

/// Two cards of one suit: the card led takes the trick exactly when its rank
/// comes later in the taking order (Ace, Three, King, Knight, Knave, Seven,
/// Six, Five, Four, Two from the strongest), whatever the trump suit.
pub proof fn lemma_same_suit_trick(i: int, j: int, suit: CardSuit, briscola_suit: CardSuit)
    requires
        0 <= i < 10,
        0 <= j < 10,
    ensures
        leader_wins(
            Card { value: taking_order()[i], suit },
            Card { value: taking_order()[j], suit },
            briscola_suit,
        ) <==> i > j,
{
    lemma_strength_follows_taking_order(i);
    lemma_strength_follows_taking_order(j);
}

/// Two cards of different suits: the answer takes the trick exactly when it
/// is a trump; an answer in another suit that is not trump never takes it.
pub proof fn lemma_other_suit_trick(lead: Card, follow: Card, briscola_suit: CardSuit)
    requires
        lead.suit != follow.suit,
    ensures
        leader_wins(lead, follow, briscola_suit) <==> follow.suit != briscola_suit,
{
}

/// The winner of a game from the two players' points: player 1 or 2, or none
/// on equal points.
pub open spec fn winner_of(score1: int, score2: int) -> Option<usize> {
    if score1 > score2 {
        Some(1)
    } else if score1 < score2 {
        Some(2)
    } else {
        None
    }
}

/// Player number, or None when both scores are equal.
pub fn winner_from_scores(score1: u8, score2: u8) -> (winner: Option<usize>)
    ensures
        winner == winner_of(score1 as int, score2 as int),
{
    if score1 > score2 {
        Some(1)
    } else if score1 < score2 {
        Some(2)
    } else {
        None
    }
}

pub fn card_points(card: Card) -> (p: u8)
    ensures
        p == points(card),
{
    match card.value {
        CardNumber::Ace => 11,
        CardNumber::Three => 10,
        CardNumber::King => 4,
        CardNumber::Knight => 3,
        CardNumber::Knave => 2,
        _ => 0,
    }
}

pub fn rank_strength(card: Card) -> (s: u8)
    ensures
        s == strength(card),
{
    match card.value {
        CardNumber::Ace => 10,
        CardNumber::Three => 9,
        CardNumber::King => 8,
        CardNumber::Knight => 7,
        CardNumber::Knave => 6,
        CardNumber::Seven => 5,
        CardNumber::Six => 4,
        CardNumber::Five => 3,
        CardNumber::Four => 2,
        CardNumber::Two => 1,
    }
}

/// The points of a pile of cards; the pile is one whose points fit in a `u8`.
pub fn calculate_score(cards: &[Card]) -> (score: u8)
    requires
        points_sum(cards@) <= u8::MAX,
    ensures
        score == points_sum(cards@),
{
    let mut total: u8 = 0;
    let mut i: usize = 0;
    while i < cards.len()
        invariant
            i <= cards@.len(),
            total == points_sum(cards@.take(i as int)),
            points_sum(cards@) <= u8::MAX,
        decreases cards@.len() - i,
    {
        proof {
            assert(cards@.take(i + 1).drop_last() =~= cards@.take(i as int));
            lemma_points_sum_prefix(cards@, i + 1);
        }
        total = total + card_points(cards[i]);
        i = i + 1;
    }
    assert(cards@.take(i as int) =~= cards@);
    total
}

/// Whether the cards are worth at most `limit` points together.
pub fn points_at_most(cards: &[Card], limit: u8) -> (r: bool)
    ensures
        r == (points_sum(cards@) <= limit),
{
    let mut total: u8 = 0;
    let mut i: usize = 0;
    while i < cards.len()
        invariant
            i <= cards@.len(),
            total == points_sum(cards@.take(i as int)),
            total <= limit,
        decreases cards@.len() - i,
    {
        proof {
            assert(cards@.take(i + 1).drop_last() =~= cards@.take(i as int));
            lemma_points_sum_prefix(cards@, i + 1);
        }
        let p = card_points(cards[i]);
        if p > limit - total {
            return false;
        }
        total = total + p;
        i = i + 1;
    }
    assert(cards@.take(i as int) =~= cards@);
    true
}

/// Whether the card led wins the trick against the answer, under the given
/// trump suit.
pub fn wins_first(lead: Card, follow: Card, briscola_suit: CardSuit) -> (r: bool)
    ensures
        r == leader_wins(lead, follow, briscola_suit),
{
    if lead.suit == follow.suit {
        return rank_strength(lead) > rank_strength(follow);
    }
    if lead.suit == briscola_suit {
        return true;
    }
    follow.suit != briscola_suit
}

/// The points of the two cards of a trick.
pub fn trick_points(lead: Card, follow: Card) -> (p: u8)
    ensures
        p == points(lead) + points(follow),
{
    card_points(lead) + card_points(follow)
}

pub proof fn lemma_points_sum_push(cards: Seq<Card>, card: Card)
    ensures
        points_sum(cards.push(card)) == points_sum(cards) + points(card),
{
    assert(cards.push(card).drop_last() =~= cards);
}

/// Points add up over the concatenation of two piles.
pub proof fn lemma_points_sum_concat(a: Seq<Card>, b: Seq<Card>)
    ensures
        points_sum(a + b) == points_sum(a) + points_sum(b),
    decreases b.len(),
{
    if b.len() == 0 {
        assert(a + b =~= a);
    } else {
        lemma_points_sum_concat(a, b.drop_last());
        assert((a + b).drop_last() =~= a + b.drop_last());
    }
}

/// A prefix of a pile has no more points than the pile.
pub proof fn lemma_points_sum_prefix(cards: Seq<Card>, i: int)
    requires
        0 <= i <= cards.len(),
    ensures
        points_sum(cards.take(i)) <= points_sum(cards),
{
    assert(cards =~= cards.take(i) + cards.skip(i));
    lemma_points_sum_concat(cards.take(i), cards.skip(i));
}

/// Taking one card out of a pile takes away exactly its points.
pub proof fn lemma_points_sum_remove(cards: Seq<Card>, k: int)
    requires
        0 <= k < cards.len(),
    ensures
        points_sum(cards) == points_sum(cards.remove(k)) + points(cards[k]),
{
    let front = cards.take(k);
    let back = cards.skip(k + 1);
    assert(cards =~= front.push(cards[k]) + back);
    assert(cards.remove(k) =~= front + back);
    lemma_points_sum_concat(front.push(cards[k]), back);
    lemma_points_sum_concat(front, back);
    lemma_points_sum_push(front, cards[k]);
}

/// The points of a pile do not depend on the order of its cards.
pub proof fn lemma_points_sum_permutation(a: Seq<Card>, b: Seq<Card>)
    requires
        a.to_multiset() == b.to_multiset(),
    ensures
        points_sum(a) == points_sum(b),
    decreases a.len(),
{
    broadcast use vstd::seq_lib::group_to_multiset_ensures;

    if a.len() == 0 {
        assert(b.to_multiset().len() == 0);
        assert(b.len() == 0);
    } else {
        let x = a.last();
        let rest = a.drop_last();
        assert(a =~= rest.push(x));
        assert(a.to_multiset().count(x) > 0);
        assert(b.contains(x));
        let k = choose|k: int| 0 <= k < b.len() && b[k] == x;
        assert(b.remove(k).to_multiset() =~= rest.to_multiset());
        lemma_points_sum_permutation(rest, b.remove(k));
        lemma_points_sum_remove(b, k);
    }
}

/// Points of the first `n` ranks of a suit, from Ace on.
spec fn suit_prefix_points(n: int) -> int {
    if n <= 0 { 0 }
    else if n <= 2 { 11 }
    else if n <= 7 { 21 }
    else if n == 8 { 23 }
    else if n == 9 { 26 }
    else { 30 }
}

proof fn lemma_full_deck_prefix_points(i: int)
    requires
        0 <= i <= 40,
    ensures
        points_sum(full_deck().take(i)) == 30 * (i / 10) + suit_prefix_points(i % 10),
    decreases i,
{
    let d = full_deck();
    if i > 0 {
        lemma_full_deck_prefix_points(i - 1);
        assert(d.take(i).drop_last() =~= d.take(i - 1));
        assert(d[i - 1].value == number_order()[(i - 1) % 10]);
    } else {
        assert(d.take(0) =~= Seq::<Card>::empty());
    }
}

/// The forty cards are worth 120 points in all.
pub proof fn lemma_full_deck_points()
    ensures
        points_sum(full_deck()) == 120,
{
    let d = full_deck();
    lemma_full_deck_prefix_points(40);
    assert(d.take(40) =~= d);
}

} // verus!
