use vstd::prelude::*;
use vstd::string::StringExecFns;

verus! {

/// Rank of an ace.
pub const R_A: u8 = 1;

/// Rank of a jack.
pub const R_J: u8 = 11;

/// Rank of a queen.
pub const R_Q: u8 = 12;

/// Rank of a king.
pub const R_K: u8 = 13;

/// The two seats at the table: `Player1` holds the bottom hand (the human),
/// `Player2` the top hand (the opponent).
#[derive(Clone, Copy, Debug, PartialEq, Eq, Structural)]
pub enum Player {
    Player1,
    Player2,
}

#[derive(Clone, Copy, Debug, PartialEq, Eq, Structural)]
pub enum Suit {
    Spade,
    Heart,
    Diamond,
    Club,
}

/// What a card played onto the board leads to.
#[derive(Clone, Copy, Debug, PartialEq, Eq, Structural)]
pub enum WinStatus {
    /// The second card on an empty board matched the first: capture with bonus.
    Pisti,
    /// The board is captured.
    Win,
    /// The card stays on the board.
    Pass,
}

/// A playing card; a card of the standard deck has a rank in `1..=13`.
#[derive(Clone, Copy, Debug, PartialEq, Eq, Structural)]
pub struct Card {
    pub rank: u8,
    pub suit: Suit,
}

pub open spec fn other_player(p: Player) -> Player {
    match p {
        Player::Player1 => Player::Player2,
        Player::Player2 => Player::Player1,
    }
}

pub open spec fn suit_symbol(s: Suit) -> Seq<char> {
    match s {
        Suit::Spade => seq!['\u{2660}', '\u{fe0e}'],
        Suit::Heart => seq!['\u{2665}'],
        Suit::Diamond => seq!['\u{2666}'],
        Suit::Club => seq!['\u{2663}', '\u{fe0e}'],
    }
}

pub open spec fn digit_char(d: nat) -> char {
    if d == 0 {
        '0'
    } else if d == 1 {
        '1'
    } else if d == 2 {
        '2'
    } else if d == 3 {
        '3'
    } else if d == 4 {
        '4'
    } else if d == 5 {
        '5'
    } else if d == 6 {
        '6'
    } else if d == 7 {
        '7'
    } else if d == 8 {
        '8'
    } else {
        '9'
    }
}

/// Decimal notation of a natural number, without leading zeros.
pub open spec fn decimal(n: nat) -> Seq<char>
    decreases n,
{
    if n < 10 {
        seq![digit_char(n)]
    } else {
        decimal(n / 10).push(digit_char(n % 10))
    }
}

/// How a rank is written: a letter for ace and court cards, digits otherwise.
pub open spec fn rank_text(rank: u8) -> Seq<char> {
    if rank == R_A {
        seq!['A']
    } else if rank == R_J {
        seq!['J']
    } else if rank == R_Q {
        seq!['Q']
    } else if rank == R_K {
        seq!['K']
    } else {
        decimal(rank as nat)
    }
}

/// The image name of a card: rank letter (`T` for ten) followed by suit letter.
pub open spec fn card_file_name(c: Card) -> Seq<char> {
    let first = if c.rank == 11 {
        seq!['J']
    } else if c.rank == 12 {
        seq!['Q']
    } else if c.rank == 13 {
        seq!['K']
    } else if c.rank == 1 {
        seq!['A']
    } else if c.rank == 10 {
        seq!['T']
    } else {
        decimal(c.rank as nat)
    };
    let second = match c.suit {
        Suit::Spade => 'S',
        Suit::Heart => 'H',
        Suit::Diamond => 'D',
        Suit::Club => 'C',
    };
    first.push(second)
}

fn digit_string(d: u8) -> (r: String)
    requires
        d < 10,
    ensures
        r@ == seq![digit_char(d as nat)],
{
    let s = if d == 0 {
        "0"
    } else if d == 1 {
        "1"
    } else if d == 2 {
        "2"
    } else if d == 3 {
        "3"
    } else if d == 4 {
        "4"
    } else if d == 5 {
        "5"
    } else if d == 6 {
        "6"
    } else if d == 7 {
        "7"
    } else if d == 8 {
        "8"
    } else {
        "9"
    };
    proof {
        reveal_strlit("0");
        reveal_strlit("1");
        reveal_strlit("2");
        reveal_strlit("3");
        reveal_strlit("4");
        reveal_strlit("5");
        reveal_strlit("6");
        reveal_strlit("7");
        reveal_strlit("8");
        reveal_strlit("9");
    }
    String::from_str(s)
}

/// Writes a byte in decimal.
fn decimal_string(n: u8) -> (r: String)
    ensures
        r@ == decimal(n as nat),
    decreases n,
{
    if n < 10 {
        digit_string(n)
    } else {
        let mut r = decimal_string(n / 10);
        let last = digit_string(n % 10);
        r.append(last.as_str());
        r
    }
}

fn letter_string(s: &str) -> (r: String)
    ensures
        r@ == s@,
{
    String::from_str(s)
}

pub fn rank_to_str(a_rank: u8) -> (r: String)
    ensures
        r@ == rank_text(a_rank),
{
    proof {
        reveal_strlit("A");
        reveal_strlit("J");
        reveal_strlit("Q");
        reveal_strlit("K");
    }
    if a_rank == R_A {
        letter_string("A")
    } else if a_rank == R_J {
        letter_string("J")
    } else if a_rank == R_Q {
        letter_string("Q")
    } else if a_rank == R_K {
        letter_string("K")
    } else {
        decimal_string(a_rank)
    }
}

pub fn card_into_filename(card: Card) -> (r: String)
    ensures
        r@ == card_file_name(card),
{
    proof {
        reveal_strlit("A");
        reveal_strlit("J");
        reveal_strlit("Q");
        reveal_strlit("K");
        reveal_strlit("T");
        reveal_strlit("S");
        reveal_strlit("H");
        reveal_strlit("D");
        reveal_strlit("C");
    }
    let mut r = if card.rank == 11 {
        letter_string("J")
    } else if card.rank == 12 {
        letter_string("Q")
    } else if card.rank == 13 {
        letter_string("K")
    } else if card.rank == 1 {
        letter_string("A")
    } else if card.rank == 10 {
        letter_string("T")
    } else {
        decimal_string(card.rank)
    };
    let second = match card.suit {
        Suit::Spade => "S",
        Suit::Heart => "H",
        Suit::Diamond => "D",
        Suit::Club => "C",
    };
    r.append(second);
    r
}

impl Suit {
    /// The suit's symbol, as a card face shows it.
    pub fn to_string(&self) -> (r: String)
        ensures
            r@ == suit_symbol(*self),
    {
        proof {
            reveal_strlit("\u{2660}\u{fe0e}");
            reveal_strlit("\u{2665}");
            reveal_strlit("\u{2666}");
            reveal_strlit("\u{2663}\u{fe0e}");
        }
        let s = match self {
            Suit::Spade => "\u{2660}\u{fe0e}",
            Suit::Heart => "\u{2665}",
            Suit::Diamond => "\u{2666}",
            Suit::Club => "\u{2663}\u{fe0e}",
        };
        String::from_str(s)
    }
}

impl Card {
    /// Rank followed by suit symbol, as in `10♦` or `A♠`.
    pub fn to_string(&self) -> (r: String)
        ensures
            r@ == rank_text(self.rank) + suit_symbol(self.suit),
    {
        let mut r = rank_to_str(self.rank);
        let s = self.suit.to_string();
        r.append(s.as_str());
        r
    }
}

} // verus!
