use vstd::prelude::*;
use vstd::string::*;

use std::io::Write;

use crate::card::{number_value, Card, CardSuit};
use crate::game::UserInput;
use crate::hand::Hand;
use crate::painter::Painter;
use crate::player::PlayerType;
use crate::text::{decimal, decimal_digits, join3, number_between};

verus! {

/// The terminal colour in which a suit is shown.
#[derive(Debug, Clone, Copy, PartialEq, Eq, Structural)]
pub enum SuitColour {
    Blue,
    Green,
    Yellow,
    Red,
}

pub open spec fn suit_colour(suit: CardSuit) -> SuitColour {
    match suit {
        CardSuit::Cups => SuitColour::Blue,
        CardSuit::Batons => SuitColour::Green,
        CardSuit::Coins => SuitColour::Yellow,
        CardSuit::Swords => SuitColour::Red,
    }
}

pub open spec fn suit_name(suit: CardSuit) -> Seq<char> {
    match suit {
        CardSuit::Cups => "Cups"@,
        CardSuit::Batons => "Batons"@,
        CardSuit::Coins => "Coins"@,
        CardSuit::Swords => "Swords"@,
    }
}

/// The digit of the ANSI foreground code of a colour (`3x`).
pub open spec fn colour_digit(colour: SuitColour) -> char {
    match colour {
        SuitColour::Red => '1',
        SuitColour::Green => '2',
        SuitColour::Yellow => '3',
        SuitColour::Blue => '4',
    }
}

/// Text in bold and in a colour for an ANSI terminal: the escape sequence
/// that turns on bold and the colour, the text, and the reset sequence.
pub open spec fn bold_painted(colour: SuitColour, text: Seq<char>) -> Seq<char> {
    seq!['\u{1b}', '[', '1', ';', '3', colour_digit(colour), 'm'] + text + seq![
        '\u{1b}',
        '[',
        '0',
        'm',
    ]
}

/// Calls `ansi_term::Colour::bold` and `ansi_term::Style::paint` and writes the
/// painted text into a `String`. ansi_term writes the prefix `ESC[1;3Xm`
/// (bold, then the foreground code `3X` of the colour), the text, and the
/// reset suffix `ESC[0m`; the contract states that.
#[verifier::external_body]
fn paint_bold(colour: SuitColour, text: &str) -> (painted: String)
    ensures
        painted@ == bold_painted(colour, text@),
{
    let colour = match colour {
        SuitColour::Blue => ansi_term::Colour::Blue,
        SuitColour::Green => ansi_term::Colour::Green,
        SuitColour::Yellow => ansi_term::Colour::Yellow,
        SuitColour::Red => ansi_term::Colour::Red,
    };
    format!("{}", colour.bold().paint(text))
}

/// Calls `std::io::Stdout` through `writeln!`: writes one line to standard
/// output. Nothing is stated of it; a failed write is ignored.
#[verifier::external_body]
pub(crate) fn write_console_line(line: &str) {
    let _ = writeln!(std::io::stdout(), "{}", line);
}

/// Calls `format!` with `{:?}`: the cards as the derived `Debug` impls write a
/// slice of them. The text only goes to the terminal; nothing is stated of it.
#[verifier::external_body]
pub(crate) fn cards_debug_text(cards: &[Card]) -> String {
    format!("{:?}", cards)
}

/// Calls `std::io::Stdin::read_line`: one line typed at the terminal. What
/// comes back depends on the person at the terminal, so nothing is stated of
/// it; a failed read gives an empty line.
#[verifier::external_body]
fn read_console_line() -> String {
    let mut line = String::new();
    let _ = std::io::stdin().read_line(&mut line);
    line
}

/// `line` is a line that a read at the terminal handed back.
pub closed spec fn typed_at_terminal(line: Seq<char>) -> bool {
    exists|s: String| s@ == line && #[trigger] call_ensures(read_console_line, (), s)
}

/// The card that a typed line chooses from a hand of `hand_len` cards: the
/// line without surrounding white space must be a number in decimal below
/// the number of cards, and that number is the index chosen.
pub open spec fn typed_selection(text: Seq<char>, hand_len: nat) -> Option<usize> {
    match parsed_decimal(whitespace_trimmed(text)) {
        Some(n) => if n < hand_len {
            Some(n)
        } else {
            None
        },
        None => None,
    }
}

/// What `str::trim` leaves of a text: the text without leading and trailing
/// Unicode white space.
pub uninterp spec fn whitespace_trimmed(text: Seq<char>) -> Seq<char>;

/// Calls `str::trim`.
#[verifier::external_body]
fn trim_text(text: &str) -> (trimmed: &str)
    ensures
        trimmed@ == whitespace_trimmed(text@),
{
    text.trim()
}

pub open spec fn is_ascii_digit(c: char) -> bool {
    '0' <= c && c <= '9'
}

/// The number that a string of decimal digits writes.
pub open spec fn digits_value(s: Seq<char>) -> nat
    decreases s.len(),
{
    if s.len() == 0 {
        0
    } else {
        digits_value(s.drop_last()) * 10 + ((s.last() as int) - ('0' as int)) as nat
    }
}

/// Every character of `t` is a decimal digit.
pub open spec fn all_digits(t: Seq<char>) -> bool {
    forall|i: int| 0 <= i < t.len() ==> is_ascii_digit(#[trigger] t[i])
}

/// A `usize` written in decimal: an optional `+` and at least one digit,
/// of a value that fits in a `usize`.
pub open spec fn parsed_decimal(s: Seq<char>) -> Option<usize> {
    let body = if s.len() > 0 && s[0] == '+' {
        s.drop_first()
    } else {
        s
    };
    if body.len() > 0 && all_digits(body) && digits_value(body) <= usize::MAX {
        Some(digits_value(body) as usize)
    } else {
        None
    }
}

/// A prefix of a string of digits writes no larger a number than the whole.
proof fn lemma_digits_value_prefix(t: Seq<char>, k: int)
    requires
        0 <= k <= t.len(),
        all_digits(t),
    ensures
        digits_value(t.take(k)) <= digits_value(t),
    decreases t.len(),
{
    if k < t.len() {
        let front = t.drop_last();
        assert(front.take(k) =~= t.take(k));
        assert forall|i: int| 0 <= i < front.len() implies is_ascii_digit(#[trigger] front[i]) by {
            assert(front[i] == t[i]);
        }
        assert(all_digits(front));
        lemma_digits_value_prefix(front, k);
    } else {
        assert(t.take(k) =~= t);
    }
}

/// The number written in decimal by `text`, as `str::parse::<usize>` reads
/// it: an optional `+` and then digits only, of a value that fits in a
/// `usize`; `None` for anything else.
fn parse_usize(text: &str) -> (n: Option<usize>)
    ensures
        n == parsed_decimal(text@),
{
    let ghost s = text@;
    let mut signed = false;
    let mut value: usize = 0;
    let mut seen_digit = false;
    for c in it: text.chars()
        invariant
            s == text@,
            it.seq() == s,
            0 <= it.index() <= s.len(),
            signed == (it.index() > 0 && s[0] == '+'),
            seen_digit == (it.index() > (if signed { 1int } else { 0int })),
            forall|i: int|
                (if signed { 1int } else { 0int }) <= i < it.index() ==> is_ascii_digit(#[trigger] s[i]),
            value == digits_value(s.subrange(if signed { 1int } else { 0int }, it.index() as int)),
    {
        let ghost p = it.index() as int;
        let ghost start: int = if signed { 1 } else { 0 };
        assert(c == s[p]);
        if !signed && !seen_digit && c == '+' {
            signed = true;
            assert(s.subrange(1, 1) =~= Seq::<char>::empty());
        } else if '0' <= c && c <= '9' {
            let digit = (c as u32 - '0' as u32) as usize;
            proof {
                assert(s.subrange(start, p + 1).drop_last() =~= s.subrange(start, p));
            }
            let next = match value.checked_mul(10) {
                Some(tens) => tens.checked_add(digit),
                None => None,
            };
            match next {
                Some(v) => {
                    value = v;
                    seen_digit = true;
                },
                None => {
                    proof {
                        let body = if s.len() > 0 && s[0] == '+' { s.drop_first() } else { s };
                        if all_digits(body) {
                            assert(body.take(p + 1 - start) =~= s.subrange(start, p + 1));
                            lemma_digits_value_prefix(body, p + 1 - start);
                        }
                    }
                    return None;
                },
            }
        } else {
            proof {
                let body = if s.len() > 0 && s[0] == '+' { s.drop_first() } else { s };
                assert(0 <= p - start < body.len());
                assert(body[p - start] == s[p]);
                assert(!is_ascii_digit(body[p - start]));
                assert(!all_digits(body));
            }
            return None;
        }
    }
    proof {
        let start: int = if signed { 1 } else { 0 };
        let body = if s.len() > 0 && s[0] == '+' { s.drop_first() } else { s };
        assert(body =~= s.subrange(start, s.len() as int));
        assert forall|i: int| 0 <= i < body.len() implies is_ascii_digit(#[trigger] body[i]) by {
            assert(body[i] == s[i + start]);
        }
        assert(all_digits(body));
    }
    if seen_digit {
        Some(value)
    } else {
        None
    }
}

/// Prints cards on the terminal.
pub struct ConsolePainter {}

impl ConsolePainter {
    /// The face value, suit name and colour in which a card is shown.
    pub fn get_card(card: Card) -> (shown: (u8, &'static str, SuitColour))
        ensures
            shown.0 == number_value(card.value),
            shown.1@ == suit_name(card.suit),
            shown.2 == suit_colour(card.suit),
    {
        let (color, suit_as_string) = match card.suit {
            CardSuit::Cups => (SuitColour::Blue, "Cups"),
            CardSuit::Batons => (SuitColour::Green, "Batons"),
            CardSuit::Coins => (SuitColour::Yellow, "Coins"),
            CardSuit::Swords => (SuitColour::Red, "Swords"),
        };
        let value = card.value.eval();
        (value, suit_as_string, color)
    }

    pub fn new() -> ConsolePainter {
        ConsolePainter {  }
    }

    /// A card as the terminal shows it: its face value and its suit in bold
    /// colour.
    pub fn card_text(card: Card) -> (text: String)
        ensures
            text@ == decimal_digits(number_value(card.value) as nat) + " "@ + bold_painted(
                suit_colour(card.suit),
                suit_name(card.suit),
            ),
    {
        let (value, suit, colour) = ConsolePainter::get_card(card);
        let digits = decimal(value as usize);
        let painted = paint_bold(colour, suit);
        join3(digits.as_str(), " ", painted.as_str())
    }
}

/// A card as the terminal shows it.
pub open spec fn shown_card(card: Card) -> Seq<char> {
    decimal_digits(number_value(card.value) as nat) + " "@ + bold_painted(
        suit_colour(card.suit),
        suit_name(card.suit),
    )
}

/// Cards as the terminal shows a hand: each card after two spaces.
pub open spec fn shown_cards(cards: Seq<Card>) -> Seq<char>
    decreases cards.len(),
{
    if cards.len() == 0 {
        Seq::empty()
    } else {
        shown_cards(cards.drop_last()) + "  "@ + shown_card(cards.last())
    }
}

/// A hand as the terminal shows it. Its cards are taken out of the hand to
/// be shown, which leaves the hand without cards.
pub fn hand_text(hand: &mut Hand) -> (text: String)
    ensures
        text@ == shown_cards(old(hand)@),
        final(hand)@ == Seq::<Card>::empty(),
        final(hand).recorded_size() == old(hand).recorded_size(),
{
    let cards = hand.get_hand();
    let mut text = String::new();
    let mut i: usize = 0;
    while i < cards.len()
        invariant
            i <= cards@.len(),
            text@ == shown_cards(cards@.take(i as int)),
        decreases cards@.len() - i,
    {
        let shown = ConsolePainter::card_text(cards[i]);
        text.append("  ");
        text.append(shown.as_str());
        proof {
            assert(cards@.take(i + 1).drop_last() =~= cards@.take(i as int));
        }
        i = i + 1;
    }
    assert(cards@.take(i as int) =~= cards@);
    text
}

impl Painter for ConsolePainter {
    fn print_card(card: Card) {
        let text = ConsolePainter::card_text(card);
        write_console_line(text.as_str());
    }

    fn draw_beginning() {
    }

    fn update_game() {
    }
}

/// The player number of the only person at the table, if exactly one seat is
/// played by a person.
pub open spec fn single_human(player_types: Seq<PlayerType>) -> Option<usize> {
    if player_types[0] == PlayerType::Player && player_types[1] != PlayerType::Player {
        Some(1)
    } else if player_types[0] != PlayerType::Player && player_types[1] == PlayerType::Player {
        Some(2)
    } else {
        None
    }
}

/// The terminal front end: asks people for their cards.
#[derive(Clone)]
pub struct Console {
    single_human_player: Option<usize>,
}

impl Console {
    pub closed spec fn single_human_view(&self) -> Option<usize> {
        self.single_human_player
    }

    pub fn new(player_types: [PlayerType; 2]) -> (console: Console)
        ensures
            console.single_human_view() == single_human(player_types@),
    {
        let first_human = player_types[0] == PlayerType::Player;
        let second_human = player_types[1] == PlayerType::Player;
        let single_human_player = if first_human && !second_human {
            Some(1)
        } else if !first_human && second_human {
            Some(2)
        } else {
            None
        };
        Console { single_human_player }
    }

    /// Whether `player_index` is the only person at the table, to whom the
    /// terminal speaks as "you".
    pub fn is_single_human_player(&self, player_index: usize) -> (r: bool)
        ensures
            r == (self.single_human_view() == Some(player_index)),
    {
        match self.single_human_player {
            Some(index) => index == player_index,
            None => false,
        }
    }

    /// The heading over a player's cards.
    pub fn cards_label(&self, player_index: usize) -> (label: String)
        ensures
            label@ == (if self.single_human_view() == Some(player_index) {
                "Your cards:"@
            } else {
                "Player "@ + decimal_digits(player_index as nat) + " cards:"@
            }),
    {
        if self.is_single_human_player(player_index) {
            String::from_str("Your cards:")
        } else {
            number_between("Player ", player_index, " cards:")
        }
    }

    /// The question that asks a player for a card.
    pub fn selection_label(&self, player_index: usize) -> (label: String)
        ensures
            label@ == (if self.single_human_view() == Some(player_index) {
                "Select your card index:"@
            } else {
                "Select a card index for player "@ + decimal_digits(player_index as nat) + ":"@
            }),
    {
        if self.is_single_human_player(player_index) {
            String::from_str("Select your card index:")
        } else {
            number_between("Select a card index for player ", player_index, ":")
        }
    }

    /// One line of the list of cards: its index and the card.
    pub fn card_line(index: usize, card: Card) -> (line: String)
        ensures
            line@ == "  ["@ + decimal_digits(index as nat) + "] "@ + decimal_digits(
                number_value(card.value) as nat,
            ) + " "@ + bold_painted(suit_colour(card.suit), suit_name(card.suit)),
    {
        let head = number_between("  [", index, "] ");
        let text = ConsolePainter::card_text(card);
        let mut line = head;
        line.append(text.as_str());
        line
    }

    /// The card chosen by a typed answer: the answer, without surrounding
    /// white space, must be a number below the number of cards.
    pub fn selection_from_text(text: &str, hand_len: usize) -> (selected: Option<usize>)
        ensures
            selected == (match parsed_decimal(whitespace_trimmed(text@)) {
                Some(n) => if n < hand_len {
                    Some(n)
                } else {
                    None
                },
                None => None,
            }),
    {
        let trimmed = trim_text(text);
        Console::selection_from_trimmed(trimmed, hand_len)
    }

    /// The card chosen by an answer already stripped of surrounding white
    /// space: a number in decimal (an optional `+` and digits only) below the
    /// number of cards.
    pub fn selection_from_trimmed(trimmed: &str, hand_len: usize) -> (selected: Option<usize>)
        ensures
            selected == (match parsed_decimal(trimmed@) {
                Some(n) => if n < hand_len {
                    Some(n)
                } else {
                    None
                },
                None => None,
            }),
    {
        match parse_usize(trimmed) {
            Some(selected) => if selected < hand_len {
                Some(selected)
            } else {
                None
            },
            None => None,
        }
    }
}

impl UserInput for Console {
    /// Shows the player's cards and asks until a valid index is typed. After
    /// `usize::MAX` invalid answers it settles for the first card.
    fn user_input(&self, player_index: usize, hand: &[Card]) -> (selected: usize)
        ensures
            (exists|line: Seq<char>|
                typed_at_terminal(line) && #[trigger] typed_selection(line, hand@.len()) == Some(
                    selected,
                )) || (selected == 0 && exists|line: Seq<char>|
                typed_at_terminal(line) && #[trigger] typed_selection(line, hand@.len()) is None),
    {
        let mut attempts: usize = 0;
        while attempts < usize::MAX
            invariant
                hand@.len() > 0,
                attempts > 0 ==> exists|line: Seq<char>|
                    typed_at_terminal(line) && #[trigger] typed_selection(line, hand@.len()) is None,
            decreases usize::MAX - attempts,
        {
            let heading = self.cards_label(player_index);
            write_console_line(heading.as_str());
            let mut index: usize = 0;
            while index < hand.len()
                invariant
                    index <= hand@.len(),
                decreases hand@.len() - index,
            {
                let line = Console::card_line(index, hand[index]);
                write_console_line(line.as_str());
                index = index + 1;
            }
            let question = self.selection_label(player_index);
            write_console_line(question.as_str());
            let answer = read_console_line();
            assert(call_ensures(read_console_line, (), answer));
            let choice = Console::selection_from_text(answer.as_str(), hand.len());
            assert(typed_at_terminal(answer@) && typed_selection(answer@, hand@.len()) == choice);
            match choice {
                Some(selected) => {
                    return selected;
                },
                None => write_console_line("Invalid card index. Try again."),
            }
            attempts = attempts + 1;
        }
        0
    }
}

} // verus!
