use vstd::prelude::*;
use crate::card::Card;
use crate::game::GameView;
use crate::rules::{is_standard_card, lemma_standard_deck, standard_deck};

verus! {

broadcast use vstd::seq_lib::group_to_multiset_ensures;

/// The sizes of the piles of a game whose cards are conserved add up to the
/// size of the deck.
pub proof fn lemma_pile_sizes(g: GameView)
    requires
        g.cards_conserved(),
    ensures
        g.deck.len() + g.board.len() + g.bottom_hand.len() + g.top_hand.len()
            + g.player1_won_cards.len() + g.player2_won_cards.len() == 52,
{
    lemma_standard_deck();
    assert(g.card_multiset().len() == standard_deck().to_multiset().len());
}

/// The cards of all the piles, read one after the other, make up the same
/// multiset as the piles counted separately.
proof fn lemma_all_cards_multiset(g: GameView)
    ensures
        g.all_cards().to_multiset() =~= g.card_multiset(),
{
    let s1 = g.deck + g.board;
    let s2 = s1 + g.bottom_hand;
    let s3 = s2 + g.top_hand;
    let s4 = s3 + g.player1_won_cards;
    vstd::seq_lib::lemma_multiset_commutative(g.deck, g.board);
    vstd::seq_lib::lemma_multiset_commutative(s1, g.bottom_hand);
    vstd::seq_lib::lemma_multiset_commutative(s2, g.top_hand);
    vstd::seq_lib::lemma_multiset_commutative(s3, g.player1_won_cards);
    vstd::seq_lib::lemma_multiset_commutative(s4, g.player2_won_cards);
}

/// Whenever the cards of a game are conserved, deck, board, both hands and
/// both won piles hold 52 cards between them, none of them twice, and those
/// are exactly the cards of the standard deck.
pub proof fn lemma_cards_conserved(g: GameView)
    requires
        g.cards_conserved(),
    ensures
        g.all_cards().len() == 52,
        g.all_cards().no_duplicates(),
        forall|c: Card| #[trigger] g.all_cards().contains(c) <==> is_standard_card(c),
{
    let all = g.all_cards();
    let d = standard_deck();
    lemma_all_cards_multiset(g);
    lemma_standard_deck();
    assert(all.to_multiset() == d.to_multiset());
    assert(all.to_multiset().len() == all.len());
    assert(d.to_multiset().len() == d.len());
    d.lemma_multiset_has_no_duplicates();
    all.lemma_multiset_has_no_duplicates_conv();
    assert forall|c: Card| #[trigger] all.contains(c) <==> is_standard_card(c) by {
        if all.contains(c) {
            assert(all.to_multiset().count(c) > 0);
            assert(d.contains(c));
            let i = choose|i: int| 0 <= i < d.len() && d[i] == c;
            assert(is_standard_card(d[i]));
        }
        if is_standard_card(c) {
            assert(d.contains(c));
            assert(d.to_multiset().count(c) > 0);
        }
    }
}

} // verus!
