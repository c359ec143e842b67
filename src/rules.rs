use vstd::prelude::*;
use crate::card::{Card, Suit, WinStatus, R_A, R_J};

verus! {

/// Number of cards in the deck.
pub const DECK_SIZE: usize = 52;

/// The suits in the order the deck is built.
pub open spec fn suit_at(i: int) -> Suit {
    if i == 0 {
        Suit::Spade
    } else if i == 1 {
        Suit::Heart
    } else if i == 2 {
        Suit::Diamond
    } else {
        Suit::Club
    }
}

pub open spec fn suit_index(s: Suit) -> int {
    match s {
        Suit::Spade => 0,
        Suit::Heart => 1,
        Suit::Diamond => 2,
        Suit::Club => 3,
    }
}

/// A card that belongs to the standard deck.
pub open spec fn is_standard_card(c: Card) -> bool {
    1 <= c.rank <= 13
}

/// The freshly built deck: suit after suit, each from ace up to king.
pub open spec fn standard_deck() -> Seq<Card> {
    Seq::new(52, |i: int| Card { rank: (i % 13 + 1) as u8, suit: suit_at(i / 13) })
}

/// The outcome of a play, read off the board after the card was put on top.
pub open spec fn play_outcome(board: Seq<Card>) -> WinStatus {
    if board.len() <= 1 {
        WinStatus::Pass
    } else if board.last().rank == board[board.len() - 2].rank {
        if board.len() == 2 {
            WinStatus::Pisti
        } else {
            WinStatus::Win
        }
    } else if board.last().rank == R_J {
        WinStatus::Win
    } else {
        WinStatus::Pass
    }
}

/// Points a single captured card is worth.
pub open spec fn card_bonus(c: Card) -> nat {
    if c.rank == R_A || c.rank == R_J {
        1
    } else if c.rank == 2 && c.suit == Suit::Club {
        2
    } else if c.rank == 10 && c.suit == Suit::Diamond {
        3
    } else {
        0
    }
}

/// Points of all the cards of a won pile.
pub open spec fn pile_bonus(s: Seq<Card>) -> nat
    decreases s.len(),
{
    if s.len() == 0 {
        0
    } else {
        pile_bonus(s.drop_last()) + card_bonus(s.last())
    }
}

/// Three points to the player with strictly more captured cards.
pub open spec fn count_bonus(mine: nat, other: nat) -> nat {
    if mine > other {
        3
    } else {
        0
    }
}

/// The score of a player, from their pisti count and both won piles.
pub open spec fn player_points(pisti: nat, won: Seq<Card>, other_won: Seq<Card>) -> nat {
    pisti * 10 + count_bonus(won.len(), other_won.len()) + pile_bonus(won)
}

/// Index of the last card of `hand` with the given rank, or -1 if there is none.
pub open spec fn last_rank_match(hand: Seq<Card>, rank: u8) -> int
    decreases hand.len(),
{
    if hand.len() == 0 {
        -1
    } else if hand.last().rank == rank {
        hand.len() - 1
    } else {
        last_rank_match(hand.drop_last(), rank)
    }
}

/// Index of the last occurrence of `c` in `s`, or -1 if there is none.
pub open spec fn last_index_of(s: Seq<Card>, c: Card) -> int
    decreases s.len(),
{
    if s.len() == 0 {
        -1
    } else if s.last() == c {
        s.len() - 1
    } else {
        last_index_of(s.drop_last(), c)
    }
}

/// The card the opponent plays: the last one matching the board's top rank,
/// else the one at `fallback`.
pub open spec fn chosen_index(hand: Seq<Card>, board: Seq<Card>, fallback: int) -> int {
    if board.len() > 0 && last_rank_match(hand, board.last().rank) >= 0 {
        last_rank_match(hand, board.last().rank)
    } else {
        fallback
    }
}

/// The deck is made of the 52 distinct cards of ranks 1 to 13 in the four suits.
pub proof fn lemma_standard_deck()
    ensures
        standard_deck().len() == 52,
        standard_deck().no_duplicates(),
        forall|i: int| 0 <= i < 52 ==> #[trigger] is_standard_card(standard_deck()[i]),
        forall|c: Card| is_standard_card(c) ==> #[trigger] standard_deck().contains(c),
{
    let d = standard_deck();
    assert forall|i: int, j: int| 0 <= i < 52 && 0 <= j < 52 && i != j implies d[i] != d[j] by {
        if d[i] == d[j] {
            assert(i % 13 == j % 13);
            assert(i / 13 == j / 13);
        }
    }
    assert forall|c: Card| is_standard_card(c) implies #[trigger] d.contains(c) by {
        let k = suit_index(c.suit) * 13 + c.rank - 1;
        assert(d[k] == c);
    }
}

/// `last_rank_match` is the highest index holding the rank.
pub proof fn lemma_last_rank_match(hand: Seq<Card>, rank: u8)
    ensures
        -1 <= last_rank_match(hand, rank) < hand.len(),
        last_rank_match(hand, rank) >= 0 ==> hand[last_rank_match(hand, rank)].rank == rank,
        forall|j: int|
            last_rank_match(hand, rank) < j < hand.len() ==> #[trigger] hand[j].rank != rank,
    decreases hand.len(),
{
    if hand.len() > 0 {
        let rest = hand.drop_last();
        lemma_last_rank_match(rest, rank);
        assert forall|j: int| last_rank_match(hand, rank) < j < hand.len() implies #[trigger] hand[j].rank
            != rank by {
            if j < rest.len() {
                assert(hand[j] == rest[j]);
            }
        }
    }
}

/// `last_index_of` is the highest index holding the card.
pub proof fn lemma_last_index_of(s: Seq<Card>, c: Card)
    ensures
        -1 <= last_index_of(s, c) < s.len(),
        last_index_of(s, c) >= 0 ==> s[last_index_of(s, c)] == c,
        last_index_of(s, c) >= 0 <==> s.contains(c),
        forall|j: int| last_index_of(s, c) < j < s.len() ==> #[trigger] s[j] != c,
    decreases s.len(),
{
    if s.len() > 0 {
        let rest = s.drop_last();
        lemma_last_index_of(rest, c);
        assert forall|j: int| last_index_of(s, c) < j < s.len() implies #[trigger] s[j] != c by {
            if j < rest.len() {
                assert(s[j] == rest[j]);
            }
        }
        if !s.contains(c) {
            assert(last_index_of(s, c) < 0);
        } else if s.last() != c {
            let k = choose|k: int| 0 <= k < s.len() && s[k] == c;
            assert(s.drop_last()[k] == c);
        }
    }
}

proof fn lemma_pile_bonus_bound(s: Seq<Card>)
    ensures
        pile_bonus(s) <= 3 * s.len(),
    decreases s.len(),
{
    if s.len() > 0 {
        lemma_pile_bonus_bound(s.drop_last());
    }
}

/// Classifies a play from the board as it stands after the card was put on it.
pub fn outcome_of_board(board: &Vec<Card>) -> (r: WinStatus)
    ensures
        r == play_outcome(board@),
{
    let n = board.len();
    if n > 1 {
        let last_card_1 = board[n - 1];
        let last_card_2 = board[n - 2];
        if last_card_1.rank == last_card_2.rank {
            if n == 2 {
                WinStatus::Pisti
            } else {
                WinStatus::Win
            }
        } else if last_card_1.rank == R_J {
            WinStatus::Win
        } else {
            WinStatus::Pass
        }
    } else {
        WinStatus::Pass
    }
}

pub fn card_points(c: Card) -> (r: usize)
    ensures
        r == card_bonus(c),
{
    if c.rank == R_A || c.rank == R_J {
        1
    } else if c.rank == 2 && c.suit == Suit::Club {
        2
    } else if c.rank == 10 && c.suit == Suit::Diamond {
        3
    } else {
        0
    }
}

/// Sum of the points of the cards of a won pile.
pub fn pile_points(pile: &Vec<Card>) -> (r: usize)
    requires
        3 * pile.len() <= usize::MAX,
    ensures
        r == pile_bonus(pile@),
{
    let mut total: usize = 0;
    let mut i: usize = 0;
    while i < pile.len()
        invariant
            i <= pile.len(),
            3 * pile.len() <= usize::MAX,
            total == pile_bonus(pile@.subrange(0, i as int)),
        decreases pile.len() - i,
    {
        proof {
            let s = pile@.subrange(0, i as int + 1);
            assert(s.drop_last() =~= pile@.subrange(0, i as int));
            lemma_pile_bonus_bound(pile@.subrange(0, i as int));
        }
        total = total + card_points(pile[i]);
        i = i + 1;
    }
    assert(pile@.subrange(0, pile.len() as int) =~= pile@);
    total
}

/// Score of a player: ten per pisti, three for the larger won pile, plus the
/// points of the captured cards.
pub fn points_of(pisti: u8, won: &Vec<Card>, other_won: &Vec<Card>) -> (r: usize)
    requires
        3 * won.len() + 10 * pisti + 3 <= usize::MAX,
    ensures
        r == player_points(pisti as nat, won@, other_won@),
{
    let count_score: usize = if won.len() > other_won.len() {
        3
    } else {
        0
    };
    proof {
        lemma_pile_bonus_bound(won@);
    }
    let base: usize = pisti as usize * 10;
    base + count_score + pile_points(won)
}

/// The opponent's choice: the highest index in `hand` whose rank matches the
/// top of the board; `fallback` when the board is empty or nothing matches.
pub fn choose_card_index(hand: &Vec<Card>, board: &Vec<Card>, fallback: usize) -> (r: usize)
    requires
        fallback < hand.len(),
    ensures
        r == chosen_index(hand@, board@, fallback as int),
        r < hand.len(),
{
    proof {
        lemma_last_rank_match(hand@, 0);
    }
    if board.len() == 0 {
        return fallback;
    }
    let top = board[board.len() - 1];
    let mut chosen = fallback;
    let mut i: usize = 0;
    while i < hand.len()
        invariant
            i <= hand.len(),
            fallback < hand.len(),
            chosen == (if last_rank_match(hand@.subrange(0, i as int), top.rank) >= 0 {
                last_rank_match(hand@.subrange(0, i as int), top.rank)
            } else {
                fallback as int
            }),
        decreases hand.len() - i,
    {
        proof {
            let s = hand@.subrange(0, i as int + 1);
            assert(s.drop_last() =~= hand@.subrange(0, i as int));
            lemma_last_rank_match(hand@.subrange(0, i as int), top.rank);
        }
        if hand[i].rank == top.rank {
            chosen = i;
        }
        i = i + 1;
    }
    assert(hand@.subrange(0, hand.len() as int) =~= hand@);
    proof {
        lemma_last_rank_match(hand@, top.rank);
    }
    chosen
}

/// Index of the last occurrence of `c` in `cards`, if any.
pub fn find_last_index(cards: &Vec<Card>, c: Card) -> (r: Option<usize>)
    ensures
        r is Some <==> last_index_of(cards@, c) >= 0,
        r is Some ==> r->0 == last_index_of(cards@, c),
{
    let mut found: Option<usize> = None;
    let mut i: usize = 0;
    while i < cards.len()
        invariant
            i <= cards.len(),
            found is Some <==> last_index_of(cards@.subrange(0, i as int), c) >= 0,
            found is Some ==> found->0 == last_index_of(cards@.subrange(0, i as int), c),
        decreases cards.len() - i,
    {
        proof {
            let s = cards@.subrange(0, i as int + 1);
            assert(s.drop_last() =~= cards@.subrange(0, i as int));
            lemma_last_index_of(cards@.subrange(0, i as int), c);
        }
        if cards[i] == c {
            found = Some(i);
        }
        i = i + 1;
    }
    assert(cards@.subrange(0, cards.len() as int) =~= cards@);
    found
}

} // verus!
