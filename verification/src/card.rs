use vstd::prelude::*;

verus! {

/// The four suits of the Italian deck.
#[derive(Debug, Clone, Copy, PartialEq, Eq, Structural)]
pub enum CardSuit {
    Cups,
    Batons,
    Coins,
    Swords,
}

/// The ten ranks of a suit, in the order in which they are numbered.
#[derive(Debug, Clone, Copy, PartialEq, Eq, Structural)]
pub enum CardNumber {
    Ace,
    Two,
    Three,
    Four,
    Five,
    Six,
    Seven,
    /// Fante
    Knave,
    /// Cavallo
    Knight,
    King,
}

/// A card: a rank of a suit.
#[derive(Debug, Clone, Copy, PartialEq, Eq, Structural)]
pub struct Card {
    pub value: CardNumber,
    pub suit: CardSuit,
}

/// The suits in deck order.
pub open spec fn suit_order() -> Seq<CardSuit> {
    seq![CardSuit::Cups, CardSuit::Batons, CardSuit::Coins, CardSuit::Swords]
}

/// The ranks in deck order.
pub open spec fn number_order() -> Seq<CardNumber> {
    seq![
        CardNumber::Ace,
        CardNumber::Two,
        CardNumber::Three,
        CardNumber::Four,
        CardNumber::Five,
        CardNumber::Six,
        CardNumber::Seven,
        CardNumber::Knave,
        CardNumber::Knight,
        CardNumber::King,
    ]
}

/// The face value of a rank: Ace is 1, Knave 8, Knight 9, King 10.
pub open spec fn number_value(n: CardNumber) -> u8 {
    match n {
        CardNumber::Ace => 1,
        CardNumber::Two => 2,
        CardNumber::Three => 3,
        CardNumber::Four => 4,
        CardNumber::Five => 5,
        CardNumber::Six => 6,
        CardNumber::Seven => 7,
        CardNumber::Knave => 8,
        CardNumber::Knight => 9,
        CardNumber::King => 10,
    }
}

/// The forty cards, suit by suit, each suit from Ace to King.
pub open spec fn full_deck() -> Seq<Card> {
    Seq::new(40, |i: int| Card { value: number_order()[i % 10], suit: suit_order()[i / 10] })
}

impl CardSuit {
    /// The four suits in deck order.
    pub fn iterator() -> (suits: Vec<CardSuit>)
        ensures
            suits@ == suit_order(),
    {
        let suits = vec![CardSuit::Cups, CardSuit::Batons, CardSuit::Coins, CardSuit::Swords];
        assert(suits@ =~= suit_order());
        suits
    }
}

impl CardNumber {
    /// The ten ranks in deck order.
    pub fn iterator() -> (numbers: Vec<CardNumber>)
        ensures
            numbers@ == number_order(),
    {
        let numbers = vec![
            CardNumber::Ace,
            CardNumber::Two,
            CardNumber::Three,
            CardNumber::Four,
            CardNumber::Five,
            CardNumber::Six,
            CardNumber::Seven,
            CardNumber::Knave,
            CardNumber::Knight,
            CardNumber::King,
        ];
        assert(numbers@ =~= number_order());
        numbers
    }

    /// The face value of the rank.
    pub fn eval(&self) -> (v: u8)
        ensures
            v == number_value(*self),
    {
        match self {
            CardNumber::Ace => 1u8,
            CardNumber::Two => 2u8,
            CardNumber::Three => 3u8,
            CardNumber::Four => 4u8,
            CardNumber::Five => 5u8,
            CardNumber::Six => 6u8,
            CardNumber::Seven => 7u8,
            CardNumber::Knave => 8u8,
            CardNumber::Knight => 9u8,
            CardNumber::King => 10u8,
        }
    }
}

impl Card {
    pub fn new(value: CardNumber, suit: CardSuit) -> (card: Card)
        ensures
            card == (Card { value, suit }),
    {
        Card { value, suit }
    }

    /// All forty cards of the deck, suit by suit in the order of
    /// `CardSuit::iterator`, each suit from Ace to King.
    pub fn load_cards() -> (cards: Vec<Card>)
        ensures
            cards@ == full_deck(),
    {
        let suits = CardSuit::iterator();
        let numbers = CardNumber::iterator();
        let mut cards: Vec<Card> = Vec::new();
        let mut s: usize = 0;
        while s < suits.len()
            invariant
                suits@ == suit_order(),
                numbers@ == number_order(),
                s <= 4,
                cards@ == full_deck().take(10 * s),
            decreases 4 - s,
        {
            let mut n: usize = 0;
            while n < numbers.len()
                invariant
                    suits@ == suit_order(),
                    numbers@ == number_order(),
                    s < 4,
                    n <= 10,
                    cards@ == full_deck().take(10 * s + n),
                decreases 10 - n,
            {
                let ghost before = cards@;
                cards.push(Card::new(numbers[n], suits[s]));
                proof {
                    let k = 10 * s + n;
                    assert(k % 10 == n && k / 10 == s) by (nonlinear_arith)
                        requires k == 10 * s + n, n < 10;
                    assert(cards@ =~= full_deck().take(k + 1));
                }
                n = n + 1;
            }
            s = s + 1;
        }
        assert(cards@ =~= full_deck());
        cards
    }
}


/// Different positions of the deck hold different cards.
pub proof fn lemma_full_deck_distinct()
    ensures
        full_deck().no_duplicates(),
{
    let d = full_deck();
    assert forall|i: int, j: int| 0 <= i < d.len() && 0 <= j < d.len() && i != j implies d[i] != d[j] by {
        assert(0 <= i % 10 < 10 && 0 <= j % 10 < 10 && 0 <= i / 10 < 4 && 0 <= j / 10 < 4);
        if i % 10 == j % 10 && i / 10 == j / 10 {
            assert(i == 10 * (i / 10) + i % 10);
            assert(j == 10 * (j / 10) + j % 10);
        }
        let a = i % 10;
        let b = j % 10;
        assert(a != b ==> number_order()[a] != number_order()[b]);
        let x = i / 10;
        let y = j / 10;
        assert(x != y ==> suit_order()[x] != suit_order()[y]);
    }
}

} // verus!
