use vstd::multiset::Multiset;
use vstd::prelude::*;

use crate::card::{full_deck, lemma_full_deck_distinct, Card};
use crate::rules::{
    lemma_full_deck_points, lemma_other_suit_trick, lemma_points_sum_concat,
    lemma_points_sum_permutation, lemma_same_suit_trick, points_sum, taking_order,
};
use crate::table::{
    advance_step, ai_may_pick, display_label, is_human, leads_label, play_step, trick_status,
    advance_ready, awaits_player1, collect_winner, collected, dealt_to, hand_of, leader, other_of,
    played, trick_seq, trick_winner, won_of, Phase, TableView,
};

verus! {

broadcast use vstd::seq_lib::group_to_multiset_ensures, vstd::multiset::group_multiset_axioms;

/// Every card at the table: in the deck, in a hand, won, or on the table.
pub open spec fn table_cards(v: TableView) -> Multiset<Card> {
    v.deck.to_multiset().add(v.hand1.to_multiset()).add(v.hand2.to_multiset()).add(
        v.won1.to_multiset(),
    ).add(v.won2.to_multiset()).add(trick_seq(v.trick).to_multiset())
}

/// The shape of the table in each phase.
pub open spec fn phase_shape(v: TableView) -> bool {
    let l = leader(v);
    let f = other_of(l);
    match v.phase {
        Phase::Setup | Phase::CoinToss | Phase::TrumpReveal => {
            &&& v.trick.len() == 0
            &&& v.hand1.len() == 0
            &&& v.hand2.len() == 0
            &&& v.won1.len() == 0
            &&& v.won2.len() == 0
            &&& v.pending is None
        },
        Phase::Dealing => {
            &&& v.trick.len() == 0
            &&& v.won1.len() == 0
            &&& v.won2.len() == 0
            &&& v.pending is None
            &&& (v.hand1.len() == v.hand2.len() || v.hand1.len() == v.hand2.len() + 1)
            &&& v.hand1.len() + v.hand2.len() < 6
        },
        Phase::Lead => {
            &&& v.trick.len() == 0
            &&& v.pending is None
            &&& v.hand1.len() == v.hand2.len()
            &&& v.hand1.len() >= 1
            &&& v.deck.len() % 2 == 0
            &&& v.deck.len() > 0 ==> v.hand1.len() == 3
        },
        Phase::Follow => {
            &&& v.trick.len() == 1
            &&& v.trick[0].0 == l
            &&& v.pending is None
            &&& hand_of(v, l).len() + 1 == hand_of(v, f).len()
            &&& v.deck.len() % 2 == 0
            &&& v.deck.len() > 0 ==> hand_of(v, f).len() == 3
        },
        Phase::Resolve | Phase::Collect => {
            &&& v.trick.len() == 2
            &&& v.trick[0].0 == l
            &&& v.trick[1].0 == f
            &&& v.hand1.len() == v.hand2.len()
            &&& v.deck.len() % 2 == 0
            &&& v.deck.len() > 0 ==> v.hand1.len() == 2
            &&& v.phase == Phase::Resolve ==> v.pending is None
            &&& v.phase == Phase::Collect ==> v.pending == Some(trick_winner(v))
        },
        Phase::DrawPlayer1 => {
            &&& v.trick.len() == 0
            &&& v.pending is None
            &&& v.hand1.len() == 2
            &&& v.hand2.len() == 2
            &&& v.deck.len() > 0
            &&& v.deck.len() % 2 == 0
        },
        Phase::DrawPlayer2 => {
            &&& v.trick.len() == 0
            &&& v.pending is None
            &&& hand_of(v, v.draw_first).len() == 3
            &&& hand_of(v, v.draw_second).len() == 2
            &&& v.deck.len() % 2 == 1
        },
        Phase::Finished => {
            &&& v.trick.len() == 0
            &&& v.pending is None
            &&& v.hand1.len() == 0
            &&& v.hand2.len() == 0
            &&& v.deck.len() == 0
        },
    }
}

/// What holds of every table that a game reaches: the forty cards are all at
/// the table, each once; the deck count matches the deck; no hand holds more
/// than three cards; two cards were won per trick played; and the table has
/// the shape of its phase.
pub open spec fn table_inv(v: TableView) -> bool {
    &&& v.deck_size == v.deck.len()
    &&& table_cards(v) == full_deck().to_multiset()
    &&& v.hand1.len() <= 3
    &&& v.hand2.len() <= 3
    &&& v.trick_number >= 1
    &&& v.won1.len() + v.won2.len() == 2 * (v.trick_number - 1)
    &&& (v.draw_first == 1 || v.draw_first == 2)
    &&& v.draw_second == other_of(v.draw_first)
    &&& phase_shape(v)
}

/// How far a table is from the end of the game: two steps for each card not
/// yet won, one for each card still in the deck, plus the steps left before
/// the current phase deals, plays or collects.
pub open spec fn steps_left(v: TableView) -> int {
    let weight: int = match v.phase {
        Phase::Setup => 6,
        Phase::CoinToss => 5,
        Phase::TrumpReveal => 4,
        Phase::Dealing => 3,
        Phase::DrawPlayer1 => 3,
        Phase::DrawPlayer2 => 3,
        Phase::Lead => 3,
        Phase::Follow => 2,
        Phase::Resolve => 1,
        Phase::Collect => 0,
        Phase::Finished => 0,
    };
    2 * (40 - (v.won1.len() + v.won2.len())) + v.deck.len() + weight
}

/// Who takes the trick on the table, by the rules: with the answer in another
/// suit, the leader takes it unless the answer is a trump (an answer in
/// another suit that is not trump never takes it); with both cards in one
/// suit, the card whose rank comes later in the taking order takes it.
/// `i` and `j` are the places of the led card's and the answer's ranks in the
/// taking order.
pub proof fn lemma_trick_winner_rule(v: TableView, i: int, j: int)
    requires
        v.trick.len() >= 2,
        0 <= i < 10,
        0 <= j < 10,
        v.trick[0].1.value == taking_order()[i],
        v.trick[1].1.value == taking_order()[j],
    ensures
        v.trick[1].1.suit != v.trick[0].1.suit && v.trick[1].1.suit != v.briscola.suit
            ==> trick_winner(v) == v.trick[0].0,
        v.trick[1].1.suit != v.trick[0].1.suit && v.trick[1].1.suit == v.briscola.suit
            ==> trick_winner(v) == v.trick[1].0,
        v.trick[1].1.suit == v.trick[0].1.suit && i > j ==> trick_winner(v) == v.trick[0].0,
        v.trick[1].1.suit == v.trick[0].1.suit && i < j ==> trick_winner(v) == v.trick[1].0,
{
    let lead = v.trick[0].1;
    let answer = v.trick[1].1;
    if answer.suit != lead.suit {
        lemma_other_suit_trick(lead, answer, v.briscola.suit);
    } else {
        lemma_same_suit_trick(i, j, lead.suit, v.briscola.suit);
        assert(lead == Card { value: taking_order()[i], suit: lead.suit });
        assert(answer == Card { value: taking_order()[j], suit: lead.suit });
    }
}

/// The number of cards at the table is forty.
pub proof fn lemma_card_count(v: TableView)
    requires
        table_cards(v) == full_deck().to_multiset(),
    ensures
        v.deck.len() + v.hand1.len() + v.hand2.len() + v.won1.len() + v.won2.len() + v.trick.len()
            == 40,
{
    assert(full_deck().to_multiset().len() == 40);
    assert(trick_seq(v.trick).len() == v.trick.len());
}

proof fn lemma_dealt_cards(v: TableView, p: usize)
    ensures
        table_cards(dealt_to(v, p)) == table_cards(v),
{
    if v.deck.len() > 0 {
        let d = v.deck;
        assert(d.drop_first() =~= d.remove(0));
        let u = dealt_to(v, p);
        assert(table_cards(u) =~= table_cards(v));
    }
}

proof fn lemma_played_cards(v: TableView, p: usize, i: int)
    requires
        0 <= i < hand_of(v, p).len(),
    ensures
        table_cards(played(v, p, i)) == table_cards(v),
{
    let h = hand_of(v, p);
    let c = h[i];
    assert(trick_seq(v.trick.push((p, c))) =~= trick_seq(v.trick).push(c));
    vstd::seq_lib::to_multiset_remove(h, i);
    assert(table_cards(played(v, p, i)) =~= table_cards(v));
}

proof fn lemma_collected_cards(v: TableView)
    ensures
        table_cards(collected(v)) == table_cards(v),
{
    let w = collect_winner(v);
    vstd::seq_lib::lemma_multiset_commutative(won_of(v, w), trick_seq(v.trick));
    assert(trick_seq(Seq::<(usize, Card)>::empty()) =~= Seq::<Card>::empty());
    assert(table_cards(collected(v)) =~= table_cards(v));
}

/// Every table that a game reaches lets `advance` run.
pub proof fn lemma_invariant_ready(v: TableView)
    requires
        table_inv(v),
    ensures
        advance_ready(v),
{
    lemma_card_count(v);
    if v.phase == Phase::Collect {
        lemma_collected_cards(v);
        lemma_pile_points(collected(v));
    }
}

/// Each pile of won cards, together with the cards on the table, is worth no
/// more than the whole deck.
proof fn lemma_pile_points(v: TableView)
    requires
        table_cards(v) == full_deck().to_multiset(),
    ensures
        points_sum(v.won1) + points_sum(trick_seq(v.trick)) <= 120,
        points_sum(v.won2) + points_sum(trick_seq(v.trick)) <= 120,
{
    let t = trick_seq(v.trick);
    let all = v.deck + v.hand1 + v.hand2 + v.won1 + v.won2 + t;
    vstd::seq_lib::lemma_multiset_commutative(v.deck, v.hand1);
    vstd::seq_lib::lemma_multiset_commutative(v.deck + v.hand1, v.hand2);
    vstd::seq_lib::lemma_multiset_commutative(v.deck + v.hand1 + v.hand2, v.won1);
    vstd::seq_lib::lemma_multiset_commutative(v.deck + v.hand1 + v.hand2 + v.won1, v.won2);
    vstd::seq_lib::lemma_multiset_commutative(v.deck + v.hand1 + v.hand2 + v.won1 + v.won2, t);
    assert(all.to_multiset() =~= full_deck().to_multiset());
    lemma_points_sum_permutation(all, full_deck());
    lemma_full_deck_points();
    lemma_points_sum_concat(v.deck, v.hand1);
    lemma_points_sum_concat(v.deck + v.hand1, v.hand2);
    lemma_points_sum_concat(v.deck + v.hand1 + v.hand2, v.won1);
    lemma_points_sum_concat(v.deck + v.hand1 + v.hand2 + v.won1, v.won2);
    lemma_points_sum_concat(v.deck + v.hand1 + v.hand2 + v.won1 + v.won2, t);
}

/// When the table waits for the person, player 1 has a card to play.
pub proof fn lemma_awaiting_player_has_card(v: TableView)
    requires
        table_inv(v),
        awaits_player1(v),
    ensures
        v.hand1.len() > 0,
{
}


/// A card played from the hand of the player whose turn it is keeps the
/// invariant once the table moves to the next phase: from Lead to Follow, or
/// from Follow to Resolve.
proof fn lemma_play_shape(s: TableView, p: usize, i: int, t: TableView)
    requires
        table_inv(s),
        s.phase == Phase::Lead ==> p == leader(s),
        s.phase == Phase::Follow ==> p == other_of(leader(s)),
        s.phase == Phase::Lead || s.phase == Phase::Follow,
        0 <= i < hand_of(s, p).len(),
        t.phase == (if s.phase == Phase::Lead { Phase::Follow } else { Phase::Resolve }),
        t == (TableView { phase: t.phase, status: t.status, ..played(s, p, i) }),
    ensures
        table_inv(t),
{
    lemma_played_cards(s, p, i);
    lemma_card_count(s);
    assert(table_cards(t) == table_cards(played(s, p, i)));
}

/// A step of `advance` keeps the invariant.
pub proof fn lemma_advance_keeps_invariant(s: TableView, t: TableView, r: Option<i32>)
    requires
        table_inv(s),
        advance_step(s, t, r),
    ensures
        table_inv(t),
{
    lemma_card_count(s);
    match s.phase {
        Phase::Dealing => {
            let dealt_cards = s.hand1.len() + s.hand2.len();
            let next_player: usize = if dealt_cards % 2 == 0 { 1 } else { 2 };
            lemma_dealt_cards(s, next_player);
            assert(table_cards(t) == table_cards(dealt_to(s, next_player)));
        },
        Phase::Lead => {
            let p = leader(s);
            if !is_human(s, p) {
                let i = choose|i: int|
                    ai_may_pick(s, p, i) && t == (TableView {
                        phase: Phase::Follow,
                        status: trick_status(s.trick_number, leads_label(s.mode, p)),
                        ..played(s, p, i)
                    });
                lemma_play_shape(s, p, i, t);
            }
        },
        Phase::Follow => {
            let p = other_of(leader(s));
            if !is_human(s, p) {
                let i = choose|i: int|
                    ai_may_pick(s, p, i) && t == (TableView {
                        phase: Phase::Resolve,
                        status: trick_status(
                            s.trick_number,
                            display_label(s.mode, p) + " answers"@,
                        ),
                        ..played(s, p, i)
                    });
                lemma_play_shape(s, p, i, t);
            }
        },
        Phase::Collect => {
            lemma_collected_cards(s);
            let c = collected(s);
            assert(table_cards(t) == table_cards(c));
        },
        Phase::DrawPlayer1 => {
            lemma_dealt_cards(s, s.draw_first);
            assert(table_cards(t) == table_cards(dealt_to(s, s.draw_first)));
        },
        Phase::DrawPlayer2 => {
            lemma_dealt_cards(s, s.draw_second);
            assert(table_cards(t) == table_cards(dealt_to(s, s.draw_second)));
        },
        _ => {
            assert(table_cards(t) == table_cards(s));
        },
    }
}

/// The person's move keeps the invariant.
pub proof fn lemma_play_keeps_invariant(s: TableView, selected: usize, t: TableView, r: Option<i32>)
    requires
        table_inv(s),
        play_step(s, selected, t, r),
    ensures
        table_inv(t),
{
    if awaits_player1(s) && selected < s.hand1.len() {
        lemma_play_shape(s, 1, selected as int, t);
    }
}


/// Unless the table waits for the person, each step of `advance` in a game
/// that has started and not ended brings the end of the game closer, so a
/// game ends after finitely many steps.
pub proof fn lemma_advance_progress(s: TableView, t: TableView, r: Option<i32>)
    requires
        table_inv(s),
        advance_step(s, t, r),
        s.phase != Phase::Setup,
        s.phase != Phase::Finished,
        !awaits_player1(s),
    ensures
        0 <= steps_left(t) < steps_left(s),
{
    lemma_card_count(s);
    lemma_advance_keeps_invariant(s, t, r);
    lemma_card_count(t);
    if s.phase == Phase::Lead || s.phase == Phase::Follow {
        let p = if s.phase == Phase::Lead { leader(s) } else { other_of(leader(s)) };
        assert(!is_human(s, p));
    }
}

/// The person's card, played when the table waits for it, brings the end of
/// the game closer.
pub proof fn lemma_play_progress(s: TableView, selected: usize, t: TableView, r: Option<i32>)
    requires
        table_inv(s),
        play_step(s, selected, t, r),
        awaits_player1(s),
        selected < s.hand1.len(),
    ensures
        0 <= steps_left(t) < steps_left(s),
        r is Some,
{
    lemma_play_keeps_invariant(s, selected, t, r);
    lemma_card_count(t);
}

/// The step with which a game is driven on from `s` to `t`: the person plays
/// the first card of its hand when the table waits for it; otherwise the
/// table advances.
pub open spec fn driven_step(s: TableView, t: TableView) -> bool {
    if awaits_player1(s) {
        exists|r: Option<i32>| play_step(s, 0, t, r)
    } else {
        exists|r: Option<i32>| advance_step(s, t, r)
    }
}

/// Step number `k` of `run` drives on a game that has not ended.
pub open spec fn run_step(run: Seq<TableView>, k: int) -> bool {
    &&& run[k].phase != Phase::Finished
    &&& driven_step(run[k], run[k + 1])
}

/// A table at the coin toss is 125 steps from the end of the game, and one
/// still in setup 126.
proof fn lemma_opening_steps(v: TableView)
    requires
        table_inv(v),
        v.phase == Phase::Setup || v.phase == Phase::CoinToss,
    ensures
        v.phase == Phase::Setup ==> steps_left(v) == 126,
        v.phase == Phase::CoinToss ==> steps_left(v) == 125,
{
    lemma_card_count(v);
}

/// The first `k + 1` tables of a driven game keep the invariant, and table
/// number `k` is at most `125 - k` steps from the end.
proof fn lemma_run_prefix(run: Seq<TableView>, k: int)
    requires
        0 <= k < run.len(),
        table_inv(run[0]),
        run[0].phase == Phase::CoinToss,
        forall|j: int| 0 <= j < run.len() - 1 ==> #[trigger] run_step(run, j),
    ensures
        table_inv(run[k]),
        0 <= steps_left(run[k]) <= 125 - k,
    decreases k,
{
    if k == 0 {
        lemma_opening_steps(run[0]);
    } else {
        lemma_run_prefix(run, k - 1);
        let s = run[k - 1];
        let t = run[k];
        assert(run_step(run, k - 1));
        if s.phase == Phase::Setup {
            lemma_opening_steps(s);
        }
        if awaits_player1(s) {
            let r = choose|r: Option<i32>| play_step(s, 0, t, r);
            lemma_awaiting_player_has_card(s);
            lemma_play_keeps_invariant(s, 0, t, r);
            lemma_play_progress(s, 0, t, r);
        } else {
            let r = choose|r: Option<i32>| advance_step(s, t, r);
            lemma_advance_keeps_invariant(s, t, r);
            lemma_advance_progress(s, t, r);
        }
    }
}

/// A game driven from the coin toss, the person always playing its first
/// card, keeps the invariant at every table and ends in at most 125 steps
/// (fewer than 250): `run` lists the tables one after the other, and every
/// table but the last is a game that has not ended yet.
pub proof fn lemma_game_ends_within_steps(run: Seq<TableView>)
    requires
        run.len() >= 1,
        table_inv(run[0]),
        run[0].phase == Phase::CoinToss,
        forall|k: int| 0 <= k < run.len() - 1 ==> #[trigger] run_step(run, k),
    ensures
        run.len() - 1 <= 125,
        forall|k: int| 0 <= k < run.len() ==> table_inv(#[trigger] run[k]),
{
    lemma_run_prefix(run, run.len() - 1);
    assert forall|k: int| 0 <= k < run.len() implies table_inv(#[trigger] run[k]) by {
        lemma_run_prefix(run, k);
    }
}

/// A finished game has played twenty tricks; the two piles of won cards are
/// the forty cards of the deck, each exactly once; and they are worth 120
/// points together.
pub proof fn lemma_finished_game(v: TableView)
    requires
        table_inv(v),
        v.phase == Phase::Finished,
    ensures
        v.trick_number == 21,
        (v.won1 + v.won2).to_multiset() == full_deck().to_multiset(),
        forall|c: Card| full_deck().contains(c) ==> #[trigger] (v.won1 + v.won2).to_multiset().count(c) == 1,
        points_sum(v.won1) + points_sum(v.won2) == 120,
{
    lemma_card_count(v);
    vstd::seq_lib::lemma_multiset_commutative(v.won1, v.won2);
    assert(v.deck.to_multiset() =~= Multiset::empty());
    assert(v.hand1.to_multiset() =~= Multiset::empty());
    assert(v.hand2.to_multiset() =~= Multiset::empty());
    assert(trick_seq(v.trick).to_multiset() =~= Multiset::empty());
    assert((v.won1 + v.won2).to_multiset() =~= full_deck().to_multiset());
    lemma_points_sum_permutation(v.won1 + v.won2, full_deck());
    lemma_points_sum_concat(v.won1, v.won2);
    lemma_full_deck_points();
    lemma_full_deck_distinct();
    full_deck().lemma_multiset_has_no_duplicates();
}

/// A new table, or one just restarted, satisfies the invariant.
pub proof fn lemma_setup_invariant(v: TableView)
    requires
        v.deck.to_multiset() == full_deck().to_multiset(),
        v.deck_size == v.deck.len(),
        v.hand1.len() == 0,
        v.hand2.len() == 0,
        v.won1.len() == 0,
        v.won2.len() == 0,
        v.trick.len() == 0,
        v.pending is None,
        v.phase == Phase::Setup,
        v.trick_number == 1,
        v.draw_first == 1,
        v.draw_second == 2,
    ensures
        table_inv(v),
{
    assert(v.hand1.to_multiset() =~= Multiset::empty());
    assert(v.hand2.to_multiset() =~= Multiset::empty());
    assert(v.won1.to_multiset() =~= Multiset::empty());
    assert(v.won2.to_multiset() =~= Multiset::empty());
    assert(trick_seq(v.trick).to_multiset() =~= Multiset::empty());
    assert(table_cards(v) =~= full_deck().to_multiset());
}

/// Leaving the setup screen, choosing difficulties or the screen size keep
/// the invariant: they touch only the phase and status of a table in setup,
/// or fields the invariant does not speak of.
pub proof fn lemma_settings_keep_invariant(s: TableView, t: TableView)
    requires
        table_inv(s),
        t.deck == s.deck,
        t.hand1 == s.hand1,
        t.hand2 == s.hand2,
        t.won1 == s.won1,
        t.won2 == s.won2,
        t.trick == s.trick,
        t.pending == s.pending,
        t.player_turn == s.player_turn,
        t.trick_number == s.trick_number,
        t.deck_size == s.deck_size,
        t.draw_first == s.draw_first,
        t.draw_second == s.draw_second,
        t.briscola == s.briscola,
        t.phase == s.phase || (s.phase == Phase::Setup && t.phase == Phase::CoinToss),
    ensures
        table_inv(t),
{
    assert(table_cards(t) == table_cards(s));
}

} // verus!
