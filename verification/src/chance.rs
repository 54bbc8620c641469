use vstd::prelude::*;

use rand::seq::SliceRandom;
use rand::Rng;

use crate::card::Card;

verus! {

/// Calls `rand::Rng::gen_range(0..bound)` on `rand::thread_rng()`. The number
/// drawn depends on chance; the contract states only what rand documents of
/// every outcome: it lies in `0..bound`. rand panics on an empty range, so the
/// bound must be positive.
#[verifier::external_body]
pub(crate) fn random_below(bound: usize) -> (r: usize)
    requires
        bound > 0,
    ensures
        r < bound,
{
    rand::thread_rng().gen_range(0..bound)
}

/// Calls `rand::seq::SliceRandom::shuffle` with `rand::thread_rng()` on the
/// cards and hands them back. rand documents the shuffle as uniform; the order
/// that comes out depends on chance, so the contract states what holds of
/// every outcome: the shuffle swaps elements in place, so the cards are a
/// permutation of those that went in.
#[verifier::external_body]
pub(crate) fn shuffle_cards(cards: Vec<Card>) -> (shuffled: Vec<Card>)
    ensures
        shuffled@.to_multiset() == cards@.to_multiset(),
        shuffled@.len() == cards@.len(),
{
    let mut cards = cards;
    cards.shuffle(&mut rand::thread_rng());
    cards
}

/// `out` is an order that a run of rand's shuffle gave to `cards`.
pub closed spec fn shuffle_outcome(cards: Seq<Card>, out: Seq<Card>) -> bool {
    exists|a: Vec<Card>, b: Vec<Card>|
        a@ == cards && b@ == out && #[trigger] call_ensures(shuffle_cards, (a,), b)
}

/// What came out of a shuffle is a permutation of what went in.
pub proof fn lemma_shuffle_outcome_permutes(cards: Seq<Card>, out: Seq<Card>)
    requires
        shuffle_outcome(cards, out),
    ensures
        out.to_multiset() == cards.to_multiset(),
        out.len() == cards.len(),
{
    let (a, b) = choose|a: Vec<Card>, b: Vec<Card>|
        a@ == cards && b@ == out && #[trigger] call_ensures(shuffle_cards, (a,), b);
}

/// Shuffles the cards with rand and hands them back.
pub(crate) fn shuffled(cards: Vec<Card>) -> (out: Vec<Card>)
    ensures
        shuffle_outcome(cards@, out@),
        out@.to_multiset() == cards@.to_multiset(),
        out@.len() == cards@.len(),
{
    let ghost before = cards;
    let out = shuffle_cards(cards);
    assert(call_ensures(shuffle_cards, (before,), out));
    out
}

} // verus!
