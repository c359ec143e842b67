use vstd::prelude::*;
use vstd::multiset::Multiset;
use crate::card::{other_player, Card, Player, WinStatus};
use crate::game::{captured, dealt_bottom, dealt_top, recomputed, Game, GameError, GameView};
use crate::laws::lemma_pile_sizes;
use crate::rules::{play_outcome, standard_deck};

verus! {

broadcast use vstd::seq_lib::group_to_multiset_ensures;

/// How many times the board may be dealt before dealing gives up.
pub const MAX_DEALS: u32 = 1000;

/// Where the game stands after a turn.
#[derive(Clone, Copy, Debug, PartialEq, Eq, Structural)]
pub enum RoundState {
    /// A hand still holds cards: play goes on.
    InPlay,
    /// Both hands were empty and have been dealt four new cards each.
    Redealt,
    /// Both hands were empty with no deal left: the board went to the player
    /// who did not start, and the game is over.
    GameOver,
}

/// `g` with `p`'s hand replaced by `h`.
pub open spec fn with_hand(g: GameView, p: Player, h: Seq<Card>) -> GameView {
    match p {
        Player::Player1 => GameView { bottom_hand: h, ..g },
        Player::Player2 => GameView { top_hand: h, ..g },
    }
}

/// The state right after `p` put the card at `index` of their hand on the
/// board, before any capture.
pub open spec fn after_play(g: GameView, p: Player, index: int) -> GameView {
    let c = g.hand(p)[index];
    GameView { board: g.board.push(c), ..with_hand(g, p, g.hand(p).remove(index)) }
}

/// The state after the play has been resolved: a capture when the outcome is
/// one, and the scores recomputed.
pub open spec fn resolved(g: GameView, p: Player, stat: WinStatus) -> GameView {
    recomputed(
        if stat == WinStatus::Pass {
            g
        } else {
            captured(g, stat, p)
        },
    )
}

/// The state at the start of a game: a shuffled deck, four cards on the
/// board with no jack on top, four cards in each hand, nothing won yet.
pub open spec fn freshly_dealt(g: GameView, before: GameView) -> bool {
    &&& g.wf()
    &&& g.board.len() == 4
    &&& !g.jack_on_top()
    &&& g.bottom_hand.len() == 4
    &&& g.top_hand.len() == 4
    &&& g.deck.len() == 40
    &&& g.player1_won_cards.len() == 0
    &&& g.player2_won_cards.len() == 0
    &&& g.player1_pisti_count == 0
    &&& g.player2_pisti_count == 0
    &&& g.player1_point == 0
    &&& g.player2_point == 0
    &&& g.first_player == before.first_player
    &&& g.ai_player == before.ai_player
    &&& !g.game_over
}

proof fn lemma_empty_multiset(s: Seq<Card>)
    requires
        s.len() == 0,
    ensures
        s.to_multiset() =~= Multiset::<Card>::empty(),
{
    assert(s =~= Seq::<Card>::empty());
}

impl Game {
    /// Starts a game: builds and shuffles a deck, deals four cards onto the
    /// board (again from a new deck while a jack shows on top), then deals
    /// four cards to each hand. The starting player and the program's player
    /// are kept; everything else starts afresh. Gives up, changing nothing,
    /// when every one of `MAX_DEALS` boards showed a jack.
    pub fn start_game_and_give_cards_to_players(&mut self) -> (r: Result<(), GameError>)
        ensures
            r is Ok ==> freshly_dealt(final(self)@, old(self)@),
            r is Err ==> r->Err_0 == GameError::ReshuffleLimit && final(self)@ == old(self)@,
    {
        let mut attempt: u32 = 0;
        while attempt < MAX_DEALS
            invariant
                self@ == old(self)@,
            decreases MAX_DEALS - attempt,
        {
            let mut fresh = Game::new();
            fresh.first_player = self.first_player;
            fresh.ai_player = self.ai_player;
            fresh.create_deck();
            proof {
                lemma_empty_multiset(fresh@.board);
                lemma_empty_multiset(fresh@.bottom_hand);
                lemma_empty_multiset(fresh@.top_hand);
                lemma_empty_multiset(fresh@.player1_won_cards);
                lemma_empty_multiset(fresh@.player2_won_cards);
                assert(fresh@.card_multiset() =~= standard_deck().to_multiset());
            }
            fresh.shuffle_deck();
            let _board = fresh.put_cards_onto_board();
            if !fresh.is_reshuffle_required() {
                let _hands = fresh.give_cards_to_players();
                proof {
                    assert(fresh@.player1_won_cards =~= Seq::<Card>::empty());
                    assert(fresh@.player2_won_cards =~= Seq::<Card>::empty());
                    assert(fresh@.points_current());
                }
                *self = fresh;
                return Ok(());
            }
            attempt = attempt + 1;
        }
        Err(GameError::ReshuffleLimit)
    }

    /// `player` plays the card at `index` of their hand: it goes on top of
    /// the board, a capture follows when the play wins, and the scores are
    /// recomputed. Refused once the game is over, or when `index` is not a
    /// place in the hand.
    pub fn play_from_hand(&mut self, player: Player, index: usize) -> (r: Result<
        WinStatus,
        GameError,
    >)
        requires
            old(self)@.wf(),
        ensures
            final(self)@.wf(),
            match r {
                Err(e) => {
                    &&& final(self)@ == old(self)@
                    &&& (e == GameError::OperationAfterGameOver) == old(self)@.game_over
                    &&& (e == GameError::InvalidCardIndex) == (!old(self)@.game_over && index
                        >= old(self)@.hand(player).len())
                },
                Ok(stat) => {
                    let played = after_play(old(self)@, player, index as int);
                    &&& !old(self)@.game_over
                    &&& index < old(self)@.hand(player).len()
                    &&& stat == play_outcome(played.board)
                    &&& final(self)@ == resolved(played, player, stat)
                },
            },
    {
        if self.game_over {
            return Err(GameError::OperationAfterGameOver);
        }
        let n = match player {
            Player::Player1 => self.bottom_hand.len(),
            Player::Player2 => self.top_hand.len(),
        };
        if index >= n {
            return Err(GameError::InvalidCardIndex);
        }
        let ghost g0 = self@;
        let a_card = match player {
            Player::Player1 => self.bottom_hand.remove(index),
            Player::Player2 => self.top_hand.remove(index),
        };
        let stat = self.play_card(a_card);
        let ghost played = self@;
        proof {
            assert(played == after_play(g0, player, index as int));
            let h = g0.hand(player);
            assert(h.contains(a_card) && h[index as int] == a_card);
            assert(h.to_multiset().count(a_card) > 0);
            assert(played.card_multiset() =~= g0.card_multiset());
            lemma_pile_sizes(g0);
            lemma_pile_sizes(played);
            if stat == WinStatus::Pisti {
                assert(played.board.len() == 2);
            }
            let after = if stat == WinStatus::Pass {
                played
            } else {
                captured(played, stat, player)
            };
            assert(after.points_fit());
        }
        self.move_cards_if_win(stat, player);
        Ok(stat)
    }

    /// Closes a turn. While a hand holds cards nothing changes. When both
    /// are empty, each hand is dealt four new cards if the deck holds more
    /// than seven; otherwise the player who did not start takes what is left
    /// on the board, the scores are recomputed and the game is over.
    pub fn end_turn(&mut self) -> (r: Result<RoundState, GameError>)
        requires
            old(self)@.wf(),
        ensures
            final(self)@.wf(),
            match r {
                Err(e) => {
                    &&& e == GameError::OperationAfterGameOver
                    &&& old(self)@.game_over
                    &&& final(self)@ == old(self)@
                },
                Ok(RoundState::InPlay) => {
                    &&& !old(self)@.game_over
                    &&& (old(self)@.bottom_hand.len() > 0 || old(self)@.top_hand.len() > 0)
                    &&& final(self)@ == old(self)@
                },
                Ok(RoundState::Redealt) => {
                    let d = old(self)@.deck;
                    &&& !old(self)@.game_over
                    &&& old(self)@.bottom_hand.len() == 0
                    &&& old(self)@.top_hand.len() == 0
                    &&& d.len() > 7
                    &&& final(self)@ == (GameView {
                        deck: d.subrange(0, d.len() - 8),
                        bottom_hand: dealt_bottom(d),
                        top_hand: dealt_top(d),
                        ..old(self)@
                    })
                },
                Ok(RoundState::GameOver) => {
                    let last = other_player(old(self)@.first_player);
                    &&& !old(self)@.game_over
                    &&& old(self)@.bottom_hand.len() == 0
                    &&& old(self)@.top_hand.len() == 0
                    &&& old(self)@.deck.len() <= 7
                    &&& final(self)@ == (GameView {
                        game_over: true,
                        ..resolved(old(self)@, last, WinStatus::Win)
                    })
                },
            },
    {
        if self.game_over {
            return Err(GameError::OperationAfterGameOver);
        }
        if self.bottom_hand.len() > 0 || self.top_hand.len() > 0 {
            return Ok(RoundState::InPlay);
        }
        proof {
            lemma_pile_sizes(self@);
        }
        if self.deck.len() > 7 {
            let ghost g0 = self@;
            let _hands = self.give_cards_to_players();
            proof {
                assert(g0.bottom_hand + dealt_bottom(g0.deck) =~= dealt_bottom(g0.deck));
                assert(g0.top_hand + dealt_top(g0.deck) =~= dealt_top(g0.deck));
            }
            Ok(RoundState::Redealt)
        } else {
            let last = self.get_last_player();
            proof {
                let after = captured(self@, WinStatus::Win, last);
                lemma_move_board(self@, last);
                lemma_pile_sizes(after);
            }
            self.move_cards_if_win(WinStatus::Win, last);
            self.game_over = true;
            Ok(RoundState::GameOver)
        }
    }
}

/// A capture keeps the cards of the game.
proof fn lemma_move_board(g: GameView, p: Player)
    ensures
        captured(g, WinStatus::Win, p).card_multiset() =~= g.card_multiset(),
{
    let after = captured(g, WinStatus::Win, p);
    lemma_empty_multiset(after.board);
    vstd::seq_lib::lemma_multiset_commutative(g.won(p), g.board);
}

} // verus!
