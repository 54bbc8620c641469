use vstd::prelude::*;

use crate::card::{Card, CardSuit};
use crate::chance::random_below;
use crate::rules::{
    card_points, leader_wins, lemma_strength_follows_taking_order, points, rank_strength, strength,
    taking_order, wins_first,
};

verus! {

/// How a computer player picks its cards.
#[derive(Clone, Copy, Debug, PartialEq, Eq, Structural)]
pub enum AiDifficulty {
    /// Any legal card, at random.
    Random,
    /// A deterministic, low-risk heuristic over the visible state.
    Challenger,
}

impl AiDifficulty {
    pub fn label(self) -> (label: &'static str)
        ensures
            self == AiDifficulty::Random ==> label@ == "random"@,
            self == AiDifficulty::Challenger ==> label@ == "challenger"@,
    {
        match self {
            AiDifficulty::Random => "random",
            AiDifficulty::Challenger => "challenger",
        }
    }
}

/// What a player at the table can see when it is its turn: the trump suit and,
/// when following, the card that was led.
#[derive(Clone, Copy)]
pub struct VisibleGameState {
    pub briscola_suit: CardSuit,
    pub lead_card: Option<Card>,
}

/// The groups of cards among which the Challenger looks for its cheapest card.
pub enum CardPick {
    /// Any card, priced for leading.
    Lead,
    /// A card that takes the led card, priced for following.
    Winning,
    /// Any card, priced for following.
    AnyFollow,
}

/// Price of a card when leading: trumps and point cards are expensive.
pub open spec fn lead_price(card: Card, briscola_suit: CardSuit) -> int {
    ((if card.suit == briscola_suit { 40int } else { 0int }) + points(card)) * 10 + strength(card)
}

/// Price of a card when following: trumps and point cards are expensive.
pub open spec fn follow_price(card: Card, briscola_suit: CardSuit) -> int {
    ((if card.suit == briscola_suit { 30int } else { 0int }) + points(card)) * 10 + strength(card)
}

pub open spec fn pick_price(pick: CardPick, card: Card, briscola_suit: CardSuit) -> int {
    match pick {
        CardPick::Lead => lead_price(card, briscola_suit),
        _ => follow_price(card, briscola_suit),
    }
}

/// Whether a card belongs to the group that `pick` names.
pub open spec fn pick_eligible(
    pick: CardPick,
    card: Card,
    lead: Option<Card>,
    briscola_suit: CardSuit,
) -> bool {
    match pick {
        CardPick::Lead => true,
        CardPick::AnyFollow => true,
        CardPick::Winning => match lead {
            Some(l) => !leader_wins(l, card, briscola_suit),
            None => false,
        },
    }
}

/// `i` is the first among the first `n` cards of the hand of the cheapest
/// price within the group that `pick` names.
pub open spec fn first_cheapest_upto(
    hand: Seq<Card>,
    n: int,
    i: int,
    pick: CardPick,
    lead: Option<Card>,
    briscola_suit: CardSuit,
) -> bool {
    &&& 0 <= i < n <= hand.len()
    &&& pick_eligible(pick, hand[i], lead, briscola_suit)
    &&& forall|j: int|
        0 <= j < n && pick_eligible(pick, #[trigger] hand[j], lead, briscola_suit) ==> pick_price(
            pick,
            hand[i],
            briscola_suit,
        ) <= pick_price(pick, hand[j], briscola_suit)
    &&& forall|j: int|
        0 <= j < i && pick_eligible(pick, #[trigger] hand[j], lead, briscola_suit) ==> pick_price(
            pick,
            hand[i],
            briscola_suit,
        ) < pick_price(pick, hand[j], briscola_suit)
}

pub open spec fn first_cheapest(
    hand: Seq<Card>,
    i: int,
    pick: CardPick,
    lead: Option<Card>,
    briscola_suit: CardSuit,
) -> bool {
    first_cheapest_upto(hand, hand.len() as int, i, pick, lead, briscola_suit)
}

/// Some card of the hand belongs to the group that `pick` names.
pub open spec fn has_eligible(
    hand: Seq<Card>,
    pick: CardPick,
    lead: Option<Card>,
    briscola_suit: CardSuit,
) -> bool {
    exists|j: int| 0 <= j < hand.len() && pick_eligible(pick, #[trigger] hand[j], lead, briscola_suit)
}

/// The card that the Challenger leads: the first card of cheapest lead price
/// (index 0 for an empty hand).
pub open spec fn challenger_lead_pick(hand: Seq<Card>, briscola_suit: CardSuit, i: int) -> bool {
    if hand.len() == 0 {
        i == 0
    } else {
        first_cheapest(hand, i, CardPick::Lead, None, briscola_suit)
    }
}

/// The card with which the Challenger answers `lead`: when the led card is
/// worth points and some card of the hand takes it, the cheapest card that
/// takes it (any trump is priced above every other card, so a non-trump that
/// takes it is played before a trump); otherwise the cheapest card (index 0
/// for an empty hand).
pub open spec fn challenger_follow_pick(
    hand: Seq<Card>,
    lead: Card,
    briscola_suit: CardSuit,
    i: int,
) -> bool {
    if points(lead) > 0 && has_eligible(hand, CardPick::Winning, Some(lead), briscola_suit) {
        first_cheapest(hand, i, CardPick::Winning, Some(lead), briscola_suit)
    } else if hand.len() == 0 {
        i == 0
    } else {
        first_cheapest(hand, i, CardPick::AnyFollow, Some(lead), briscola_suit)
    }
}

/// The Challenger's choice from the visible state.
pub open spec fn challenger_pick(state: VisibleGameState, hand: Seq<Card>, i: int) -> bool {
    match state.lead_card {
        None => challenger_lead_pick(hand, state.briscola_suit, i),
        Some(lead) => challenger_follow_pick(hand, lead, state.briscola_suit, i),
    }
}

proof fn lemma_first_cheapest_unique(
    hand: Seq<Card>,
    i: int,
    j: int,
    pick: CardPick,
    lead: Option<Card>,
    briscola_suit: CardSuit,
)
    requires
        first_cheapest(hand, i, pick, lead, briscola_suit),
        first_cheapest(hand, j, pick, lead, briscola_suit),
    ensures
        i == j,
{
    if i < j {
        assert(pick_eligible(pick, hand[i], lead, briscola_suit));
    } else if j < i {
        assert(pick_eligible(pick, hand[j], lead, briscola_suit));
    }
}

/// The Challenger is deterministic: from the same visible state and hand it
/// always plays the same card.
pub proof fn lemma_challenger_pick_unique(state: VisibleGameState, hand: Seq<Card>, i: int, j: int)
    requires
        challenger_pick(state, hand, i),
        challenger_pick(state, hand, j),
    ensures
        i == j,
{
    let s = state.briscola_suit;
    match state.lead_card {
        None => {
            if hand.len() > 0 {
                lemma_first_cheapest_unique(hand, i, j, CardPick::Lead, None, s);
            }
        },
        Some(lead) => {
            if points(lead) > 0 && has_eligible(hand, CardPick::Winning, Some(lead), s) {
                lemma_first_cheapest_unique(hand, i, j, CardPick::Winning, Some(lead), s);
            } else if hand.len() > 0 {
                lemma_first_cheapest_unique(hand, i, j, CardPick::AnyFollow, Some(lead), s);
            }
        },
    }
}

/// Whatever the Challenger leads or answers with is a card of its hand.
pub proof fn lemma_challenger_pick_in_hand(state: VisibleGameState, hand: Seq<Card>, i: int)
    requires
        challenger_pick(state, hand, i),
        hand.len() > 0,
    ensures
        0 <= i < hand.len(),
{
}

/// Leading, the Challenger keeps its trumps: it leads a trump only when it
/// holds nothing else.
pub proof fn lemma_challenger_leads_non_trump(state: VisibleGameState, hand: Seq<Card>, i: int, j: int)
    requires
        state.lead_card is None,
        challenger_pick(state, hand, i),
        0 <= j < hand.len(),
        hand[j].suit != state.briscola_suit,
    ensures
        hand[i].suit != state.briscola_suit,
{
    assert(pick_eligible(CardPick::Lead, hand[j], None, state.briscola_suit));
}

/// Answering, the Challenger spends a trump only to take a card worth
/// points, or when it holds nothing but trumps.
pub proof fn lemma_challenger_saves_trumps(state: VisibleGameState, hand: Seq<Card>, i: int)
    requires
        state.lead_card is Some,
        challenger_pick(state, hand, i),
        0 <= i < hand.len(),
        hand[i].suit == state.briscola_suit,
    ensures
        ({
            let lead = state.lead_card->0;
            ||| points(lead) > 0 && !leader_wins(lead, hand[i], state.briscola_suit)
            ||| forall|j: int| 0 <= j < hand.len() ==> #[trigger] hand[j].suit == state.briscola_suit
        }),
{
    let lead = state.lead_card->0;
    let s = state.briscola_suit;
    if points(lead) > 0 && has_eligible(hand, CardPick::Winning, Some(lead), s) {
    } else {
        assert forall|j: int| 0 <= j < hand.len() implies #[trigger] hand[j].suit == s by {
            assert(pick_eligible(CardPick::AnyFollow, hand[j], Some(lead), s));
        }
    }
}

/// Answering a card worth points that some card of its hand takes, the
/// Challenger takes it.
pub proof fn lemma_challenger_takes_points(state: VisibleGameState, hand: Seq<Card>, i: int, j: int)
    requires
        state.lead_card is Some,
        points(state.lead_card->0) > 0,
        challenger_pick(state, hand, i),
        0 <= j < hand.len(),
        !leader_wins(state.lead_card->0, hand[j], state.briscola_suit),
    ensures
        !leader_wins(state.lead_card->0, hand[i], state.briscola_suit),
{
    assert(pick_eligible(CardPick::Winning, hand[j], state.lead_card, state.briscola_suit));
}

/// Answering a card worth points, the Challenger takes it with a non-trump
/// card whenever it holds one that takes it.
pub proof fn lemma_challenger_takes_points_off_trump(
    state: VisibleGameState,
    hand: Seq<Card>,
    i: int,
    j: int,
)
    requires
        state.lead_card is Some,
        points(state.lead_card->0) > 0,
        challenger_pick(state, hand, i),
        0 <= j < hand.len(),
        hand[j].suit != state.briscola_suit,
        !leader_wins(state.lead_card->0, hand[j], state.briscola_suit),
    ensures
        hand[i].suit != state.briscola_suit,
        !leader_wins(state.lead_card->0, hand[i], state.briscola_suit),
{
    assert(pick_eligible(CardPick::Winning, hand[j], state.lead_card, state.briscola_suit));
}

/// A price of the form `(penalty for a trump + points) * 10 + strength`
/// orders cards first by trump or not, then by points, then by rank in the
/// taking order, as long as the trump penalty outweighs any points.
proof fn lemma_price_is_lexicographic(
    a: Card,
    b: Card,
    briscola_suit: CardSuit,
    penalty: int,
    ra: int,
    rb: int,
)
    requires
        penalty >= 13,
        0 <= ra < 10,
        0 <= rb < 10,
        taking_order()[ra] == a.value,
        taking_order()[rb] == b.value,
        ((if a.suit == briscola_suit { penalty } else { 0 }) + points(a)) * 10 + strength(a) <= ((
        if b.suit == briscola_suit {
            penalty
        } else {
            0
        }) + points(b)) * 10 + strength(b),
    ensures
        a.suit == briscola_suit ==> b.suit == briscola_suit,
        (a.suit == briscola_suit) == (b.suit == briscola_suit) ==> points(a) <= points(b),
        (a.suit == briscola_suit) == (b.suit == briscola_suit) && points(a) == points(b) ==> ra <= rb,
{
    lemma_strength_follows_taking_order(ra);
    lemma_strength_follows_taking_order(rb);
    assert(strength(a) == strength(Card { value: taking_order()[ra], suit: CardSuit::Cups }));
    assert(strength(b) == strength(Card { value: taking_order()[rb], suit: CardSuit::Cups }));
    assert(points(a) <= 11 && points(b) <= 11);
}

/// Leading, the Challenger plays the lowest card of its hand: no trump while
/// it holds a card of another suit; then the fewest points; then, among cards
/// worth the same, the lowest rank in the taking order (a Two before a Seven).
/// `ri` and `rj` are the places in the taking order of the ranks of the card
/// led and of any card `j` of the hand.
pub proof fn lemma_challenger_leads_lowest(
    state: VisibleGameState,
    hand: Seq<Card>,
    i: int,
    j: int,
    ri: int,
    rj: int,
)
    requires
        state.lead_card is None,
        challenger_pick(state, hand, i),
        0 <= j < hand.len(),
        0 <= ri < 10,
        0 <= rj < 10,
        taking_order()[ri] == hand[i].value,
        taking_order()[rj] == hand[j].value,
    ensures
        hand[i].suit == state.briscola_suit ==> hand[j].suit == state.briscola_suit,
        (hand[i].suit == state.briscola_suit) == (hand[j].suit == state.briscola_suit) ==> points(
            hand[i],
        ) <= points(hand[j]),
        (hand[i].suit == state.briscola_suit) == (hand[j].suit == state.briscola_suit) && points(
            hand[i],
        ) == points(hand[j]) ==> ri <= rj,
{
    assert(pick_eligible(CardPick::Lead, hand[j], None, state.briscola_suit));
    lemma_price_is_lexicographic(hand[i], hand[j], state.briscola_suit, 40, ri, rj);
}

/// Answering, the Challenger plays the lowest card of the group it chooses
/// from (the cards that take the led card when it takes it, otherwise its
/// whole hand): no trump while the group holds a card of another suit; then
/// the fewest points; then the lowest rank in the taking order. `j` is any
/// card of that group; `ri` and `rj` are the places in the taking order of the
/// ranks of the card played and of card `j`.
pub proof fn lemma_challenger_answers_lowest(
    state: VisibleGameState,
    hand: Seq<Card>,
    i: int,
    j: int,
    ri: int,
    rj: int,
)
    requires
        state.lead_card is Some,
        challenger_pick(state, hand, i),
        0 <= j < hand.len(),
        0 <= ri < 10,
        0 <= rj < 10,
        taking_order()[ri] == hand[i].value,
        taking_order()[rj] == hand[j].value,
        points(state.lead_card->0) > 0 && !leader_wins(state.lead_card->0, hand[i], state.briscola_suit)
            ==> !leader_wins(state.lead_card->0, hand[j], state.briscola_suit),
    ensures
        hand[i].suit == state.briscola_suit ==> hand[j].suit == state.briscola_suit,
        (hand[i].suit == state.briscola_suit) == (hand[j].suit == state.briscola_suit) ==> points(
            hand[i],
        ) <= points(hand[j]),
        (hand[i].suit == state.briscola_suit) == (hand[j].suit == state.briscola_suit) && points(
            hand[i],
        ) == points(hand[j]) ==> ri <= rj,
{
    let lead = state.lead_card->0;
    let s = state.briscola_suit;
    if points(lead) > 0 && has_eligible(hand, CardPick::Winning, Some(lead), s) {
        assert(pick_eligible(CardPick::Winning, hand[j], Some(lead), s));
    } else {
        assert(pick_eligible(CardPick::AnyFollow, hand[j], Some(lead), s));
    }
    lemma_price_is_lexicographic(hand[i], hand[j], s, 30, ri, rj);
}

/// The index of the card that a computer player of the given difficulty plays
/// from its hand. A Random player needs a card to choose from.
pub fn choose_card(difficulty: AiDifficulty, state: VisibleGameState, hand: &[Card]) -> (index:
    usize)
    requires
        difficulty == AiDifficulty::Random ==> hand@.len() > 0,
    ensures
        difficulty == AiDifficulty::Random ==> index < hand@.len(),
        difficulty == AiDifficulty::Challenger ==> challenger_pick(state, hand@, index as int),
        hand@.len() > 0 ==> index < hand@.len(),
{
    match difficulty {
        AiDifficulty::Random => random_card(hand),
        AiDifficulty::Challenger => challenger_card(state, hand),
    }
}

fn random_card(hand: &[Card]) -> (index: usize)
    requires
        hand@.len() > 0,
    ensures
        index < hand@.len(),
{
    random_below(hand.len())
}

fn challenger_card(state: VisibleGameState, hand: &[Card]) -> (index: usize)
    ensures
        challenger_pick(state, hand@, index as int),
        hand@.len() > 0 ==> index < hand@.len(),
{
    match state.lead_card {
        Some(lead) => choose_follow_card(state, hand, lead),
        None => choose_lead_card(state, hand),
    }
}

fn choose_lead_card(state: VisibleGameState, hand: &[Card]) -> (index: usize)
    ensures
        challenger_lead_pick(hand@, state.briscola_suit, index as int),
{
    match cheapest(hand, CardPick::Lead, None, state.briscola_suit) {
        Some(index) => index,
        None => {
            proof {
                if hand@.len() > 0 {
                    assert(pick_eligible(CardPick::Lead, hand@[0], None, state.briscola_suit));
                }
            }
            0
        },
    }
}

fn choose_follow_card(state: VisibleGameState, hand: &[Card], lead: Card) -> (index: usize)
    requires
        state.lead_card == Some(lead),
    ensures
        challenger_follow_pick(hand@, lead, state.briscola_suit, index as int),
{
    let suit = state.briscola_suit;
    if card_points(lead) > 0 {
        if let Some(index) = cheapest(hand, CardPick::Winning, Some(lead), suit) {
            return index;
        }
    }
    match cheapest(hand, CardPick::AnyFollow, Some(lead), suit) {
        Some(index) => index,
        None => {
            proof {
                if hand@.len() > 0 {
                    assert(pick_eligible(CardPick::AnyFollow, hand@[0], Some(lead), suit));
                }
            }
            0
        },
    }
}

/// The first card of the hand with the cheapest price in the group that
/// `pick` names, if the group is not empty.
fn cheapest(hand: &[Card], pick: CardPick, lead: Option<Card>, briscola_suit: CardSuit) -> (found:
    Option<usize>)
    ensures
        found is None <==> !has_eligible(hand@, pick, lead, briscola_suit),
        found matches Some(i) ==> first_cheapest(hand@, i as int, pick, lead, briscola_suit),
{
    let mut best: Option<usize> = None;
    let mut best_price: u16 = 0;
    let mut i: usize = 0;
    while i < hand.len()
        invariant
            i <= hand@.len(),
            best is None <==> forall|j: int|
                0 <= j < i ==> !pick_eligible(pick, #[trigger] hand@[j], lead, briscola_suit),
            best matches Some(b) ==> first_cheapest_upto(
                hand@,
                i as int,
                b as int,
                pick,
                lead,
                briscola_suit,
            ) && best_price == pick_price(pick, hand@[b as int], briscola_suit),
        decreases hand@.len() - i,
    {
        let card = hand[i];
        if eligible(&pick, card, lead, briscola_suit) {
            let p = price(&pick, card, briscola_suit);
            match best {
                None => {
                    best = Some(i);
                    best_price = p;
                },
                Some(_) => {
                    if p < best_price {
                        best = Some(i);
                        best_price = p;
                    }
                },
            }
        }
        i = i + 1;
    }
    best
}

fn eligible(pick: &CardPick, card: Card, lead: Option<Card>, briscola_suit: CardSuit) -> (r: bool)
    ensures
        r == pick_eligible(*pick, card, lead, briscola_suit),
{
    match pick {
        CardPick::Lead => true,
        CardPick::AnyFollow => true,
        CardPick::Winning => match lead {
            Some(l) => !wins_first(l, card, briscola_suit),
            None => false,
        },
    }
}

fn price(pick: &CardPick, card: Card, briscola_suit: CardSuit) -> (p: u16)
    ensures
        p == pick_price(*pick, card, briscola_suit),
{
    match pick {
        CardPick::Lead => lead_cost(card, briscola_suit),
        _ => follow_cost(card, briscola_suit),
    }
}

fn lead_cost(card: Card, briscola_suit: CardSuit) -> (cost: u16)
    ensures
        cost == lead_price(card, briscola_suit),
{
    let trump_penalty: u8 = if card.suit == briscola_suit { 40 } else { 0 };
    (trump_penalty + card_points(card)) as u16 * 10 + rank_strength(card) as u16
}

fn follow_cost(card: Card, briscola_suit: CardSuit) -> (cost: u16)
    ensures
        cost == follow_price(card, briscola_suit),
{
    let trump_penalty: u8 = if card.suit == briscola_suit { 30 } else { 0 };
    (trump_penalty + card_points(card)) as u16 * 10 + rank_strength(card) as u16
}

} // verus!
