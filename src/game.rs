use vstd::prelude::*;
use vstd::multiset::Multiset;
use crate::card::{other_player, Card, Player, Suit, WinStatus, R_J};
use crate::random::{get_random_index, shuffle_cards};
use crate::rules::{
    choose_card_index, find_last_index, last_index_of, last_rank_match, outcome_of_board, play_outcome, player_points, points_of, standard_deck,
    suit_at, DECK_SIZE,
};

verus! {

/// Why an operation of the game was refused; a refused call leaves the game
/// as it was.
#[derive(Clone, Copy, Debug, PartialEq, Eq, Structural)]
pub enum GameError {
    /// A hand index that is out of range.
    InvalidCardIndex,
    /// The deck holds too few cards for the deal.
    EmptyDeck,
    /// The card looked for is not in the player's hand.
    CardNotInHand,
    /// The game is over; no more plays are taken.
    OperationAfterGameOver,
    /// Every deal of the board allowed showed a jack on top.
    ReshuffleLimit,
}

/// The whole state of a game.
#[derive(Clone, Debug)]
pub struct Game {
    pub board: Vec<Card>,
    pub deck: Vec<Card>,
    pub bottom_hand: Vec<Card>,
    pub top_hand: Vec<Card>,
    pub player1_won_cards: Vec<Card>,
    pub player2_won_cards: Vec<Card>,
    pub player1_pisti_count: u8,
    pub player2_pisti_count: u8,
    pub first_player: Player,
    /// The player the program plays for; `None` when both players are human.
    pub ai_player: Option<Player>,
    pub player1_point: usize,
    pub player2_point: usize,
    pub game_over: bool,
}

/// The mathematical picture of a `Game`.
pub struct GameView {
    pub board: Seq<Card>,
    pub deck: Seq<Card>,
    pub bottom_hand: Seq<Card>,
    pub top_hand: Seq<Card>,
    pub player1_won_cards: Seq<Card>,
    pub player2_won_cards: Seq<Card>,
    pub player1_pisti_count: nat,
    pub player2_pisti_count: nat,
    pub first_player: Player,
    pub ai_player: Option<Player>,
    pub player1_point: nat,
    pub player2_point: nat,
    pub game_over: bool,
}

impl View for Game {
    type V = GameView;

    open spec fn view(&self) -> GameView {
        GameView {
            board: self.board@,
            deck: self.deck@,
            bottom_hand: self.bottom_hand@,
            top_hand: self.top_hand@,
            player1_won_cards: self.player1_won_cards@,
            player2_won_cards: self.player2_won_cards@,
            player1_pisti_count: self.player1_pisti_count as nat,
            player2_pisti_count: self.player2_pisti_count as nat,
            first_player: self.first_player,
            ai_player: self.ai_player,
            player1_point: self.player1_point as nat,
            player2_point: self.player2_point as nat,
            game_over: self.game_over,
        }
    }
}

/// The cards dealt from the end of `d` to the bottom hand: every other card,
/// starting with the last.
pub open spec fn dealt_bottom(d: Seq<Card>) -> Seq<Card> {
    Seq::new(4, |i: int| d[d.len() - 1 - 2 * i])
}

/// The cards dealt from the end of `d` to the top hand, interleaved with
/// those of the bottom hand.
pub open spec fn dealt_top(d: Seq<Card>) -> Seq<Card> {
    Seq::new(4, |i: int| d[d.len() - 2 - 2 * i])
}

/// The four cards taken from the end of `d` onto the board, last card first.
pub open spec fn dealt_board(d: Seq<Card>) -> Seq<Card> {
    Seq::new(4, |i: int| d[d.len() - 1 - i])
}

impl GameView {
    pub open spec fn hand(self, p: Player) -> Seq<Card> {
        match p {
            Player::Player1 => self.bottom_hand,
            Player::Player2 => self.top_hand,
        }
    }

    pub open spec fn won(self, p: Player) -> Seq<Card> {
        match p {
            Player::Player1 => self.player1_won_cards,
            Player::Player2 => self.player2_won_cards,
        }
    }

    pub open spec fn pisti(self, p: Player) -> nat {
        match p {
            Player::Player1 => self.player1_pisti_count,
            Player::Player2 => self.player2_pisti_count,
        }
    }

    pub open spec fn points(self, p: Player) -> nat {
        match p {
            Player::Player1 => self.player1_point,
            Player::Player2 => self.player2_point,
        }
    }

    /// Deck, board, both hands and both won piles, one after the other.
    pub open spec fn all_cards(self) -> Seq<Card> {
        self.deck + self.board + self.bottom_hand + self.top_hand + self.player1_won_cards
            + self.player2_won_cards
    }

    /// Every card in the game, counted wherever it lies.
    pub open spec fn card_multiset(self) -> Multiset<Card> {
        self.deck.to_multiset().add(self.board.to_multiset()).add(
            self.bottom_hand.to_multiset(),
        ).add(self.top_hand.to_multiset()).add(self.player1_won_cards.to_multiset()).add(
            self.player2_won_cards.to_multiset(),
        )
    }

    /// The cards in play are exactly those of one standard deck.
    pub open spec fn cards_conserved(self) -> bool {
        self.card_multiset() == standard_deck().to_multiset()
    }

    /// Both scores as recomputed from the pisti counts and won piles.
    pub open spec fn points_current(self) -> bool {
        &&& self.player1_point == player_points(
            self.player1_pisti_count,
            self.player1_won_cards,
            self.player2_won_cards,
        )
        &&& self.player2_point == player_points(
            self.player2_pisti_count,
            self.player2_won_cards,
            self.player1_won_cards,
        )
    }

    /// Scores that fit the machine integers they are computed in.
    pub open spec fn points_fit(self) -> bool {
        &&& 3 * self.player1_won_cards.len() + 10 * self.player1_pisti_count + 3 <= usize::MAX
        &&& 3 * self.player2_won_cards.len() + 10 * self.player2_pisti_count + 3 <= usize::MAX
    }

    /// The state of a game in progress: all 52 cards accounted for, hands of
    /// at most four cards, two captured cards at least for each pisti, and
    /// the scores up to date.
    pub open spec fn wf(self) -> bool {
        &&& self.cards_conserved()
        &&& self.bottom_hand.len() <= 4
        &&& self.top_hand.len() <= 4
        &&& 2 * self.player1_pisti_count <= self.player1_won_cards.len()
        &&& 2 * self.player2_pisti_count <= self.player2_won_cards.len()
        &&& self.points_current()
    }

    /// The board shows a jack on top.
    pub open spec fn jack_on_top(self) -> bool {
        self.board.len() > 0 && self.board.last().rank == R_J
    }
}

fn suit_from_index(i: usize) -> (r: Suit)
    requires
        i < 4,
    ensures
        r == suit_at(i as int),
{
    if i == 0 {
        Suit::Spade
    } else if i == 1 {
        Suit::Heart
    } else if i == 2 {
        Suit::Diamond
    } else {
        Suit::Club
    }
}

impl Game {
    /// An empty table: no deck yet, nothing dealt, no points; player one
    /// starts and the program plays player two.
    pub fn new() -> (r: Self)
        ensures
            r@.board.len() == 0,
            r@.deck.len() == 0,
            r@.bottom_hand.len() == 0,
            r@.top_hand.len() == 0,
            r@.player1_won_cards.len() == 0,
            r@.player2_won_cards.len() == 0,
            r@.player1_pisti_count == 0,
            r@.player2_pisti_count == 0,
            r@.first_player == Player::Player1,
            r@.ai_player == Some(Player::Player2),
            r@.player1_point == 0,
            r@.player2_point == 0,
            !r@.game_over,
    {
        Game {
            board: Vec::new(),
            deck: Vec::new(),
            bottom_hand: Vec::new(),
            top_hand: Vec::new(),
            player1_won_cards: Vec::new(),
            player2_won_cards: Vec::new(),
            player1_pisti_count: 0,
            player2_pisti_count: 0,
            first_player: Player::Player1,
            ai_player: Some(Player::Player2),
            player1_point: 0,
            player2_point: 0,
            game_over: false,
        }
    }

    /// Replaces the deck with a fresh one of 52 cards, suit after suit.
    pub fn create_deck(&mut self)
        ensures
            final(self)@ == (GameView { deck: standard_deck(), ..old(self)@ }),
    {
        let mut deck_vec: Vec<Card> = Vec::with_capacity(DECK_SIZE);
        let mut i: usize = 0;
        while i < DECK_SIZE
            invariant
                i <= DECK_SIZE,
                deck_vec@ == standard_deck().subrange(0, i as int),
            decreases DECK_SIZE - i,
        {
            let rank: u8 = (i % 13) as u8 + 1;
            let suit = suit_from_index(i / 13);
            deck_vec.push(Card { rank, suit });
            i = i + 1;
            assert(deck_vec@ =~= standard_deck().subrange(0, i as int));
        }
        assert(deck_vec@ =~= standard_deck());
        self.deck = deck_vec;
    }

    /// Shuffles the deck; an empty deck is left alone.
    pub fn shuffle_deck(&mut self)
        ensures
            final(self)@ == (GameView { deck: final(self)@.deck, ..old(self)@ }),
            final(self)@.deck.to_multiset() == old(self)@.deck.to_multiset(),
            final(self)@.deck.len() == old(self)@.deck.len(),
            final(self)@.card_multiset() == old(self)@.card_multiset(),
    {
        if self.deck.len() > 0 {
            shuffle_cards(&mut self.deck);
        }
    }
}

/// Moving the last card of one pile onto another keeps the cards that the
/// two piles hold together.
proof fn lemma_move_last(from: Seq<Card>, to: Seq<Card>)
    requires
        from.len() > 0,
    ensures
        from.to_multiset() =~= from.drop_last().to_multiset().insert(from.last()),
        to.push(from.last()).to_multiset() =~= to.to_multiset().insert(from.last()),
{
    broadcast use vstd::seq_lib::group_to_multiset_ensures;

    assert(from.drop_last().push(from.last()) =~= from);
}

/// Appending one pile to another and emptying the first keeps the cards that
/// the two piles hold together.
proof fn lemma_move_all(from: Seq<Card>, to: Seq<Card>)
    ensures
        Seq::<Card>::empty().to_multiset() =~= Multiset::<Card>::empty(),
        (to + from).to_multiset() =~= to.to_multiset().add(from.to_multiset()),
{
    broadcast use vstd::seq_lib::group_to_multiset_ensures;

    vstd::seq_lib::lemma_multiset_commutative(to, from);
}

impl Game {
    /// Deals four cards to each hand from the end of the deck, alternating
    /// bottom, top, bottom, top, and returns the cards each hand received.
    /// Refused when the deck holds seven cards or fewer.
    pub fn give_cards_to_players(&mut self) -> (r: Result<(Vec<Card>, Vec<Card>), GameError>)
        ensures
            final(self)@.card_multiset() == old(self)@.card_multiset(),
            match r {
                Err(e) => {
                    &&& e == GameError::EmptyDeck
                    &&& old(self)@.deck.len() <= 7
                    &&& final(self)@ == old(self)@
                },
                Ok((bottom, top)) => {
                    let d = old(self)@.deck;
                    &&& d.len() > 7
                    &&& bottom@ == dealt_bottom(d)
                    &&& top@ == dealt_top(d)
                    &&& final(self)@ == (GameView {
                        deck: d.subrange(0, d.len() - 8),
                        bottom_hand: old(self)@.bottom_hand + bottom@,
                        top_hand: old(self)@.top_hand + top@,
                        ..old(self)@
                    })
                },
            },
    {
        if self.deck.len() <= 7 {
            return Err(GameError::EmptyDeck);
        }
        let ghost d0 = self.deck@;
        let mut bottom_vec: Vec<Card> = Vec::new();
        let mut top_vec: Vec<Card> = Vec::new();
        let mut k: usize = 0;
        while k < 4
            invariant
                k <= 4,
                d0 == old(self)@.deck,
                d0.len() > 7,
                self.deck@ == d0.subrange(0, d0.len() - 2 * k),
                bottom_vec@ == dealt_bottom(d0).subrange(0, k as int),
                top_vec@ == dealt_top(d0).subrange(0, k as int),
                self@ == (GameView {
                    deck: self@.deck,
                    bottom_hand: old(self)@.bottom_hand + bottom_vec@,
                    top_hand: old(self)@.top_hand + top_vec@,
                    ..old(self)@
                }),
                self@.card_multiset() == old(self)@.card_multiset(),
            decreases 4 - k,
        {
            let ghost before = self@;
            let bot_card = self.deck.pop().unwrap();
            let top_card = self.deck.pop().unwrap();
            self.bottom_hand.push(bot_card);
            bottom_vec.push(bot_card);
            top_vec.push(top_card);
            self.top_hand.push(top_card);
            proof {
                assert(self.deck@ =~= before.deck.drop_last().drop_last());
                assert(bot_card == before.deck.last());
                assert(top_card == before.deck.drop_last().last());
                lemma_move_last(before.deck, before.bottom_hand);
                lemma_move_last(before.deck.drop_last(), before.top_hand);
                assert(self@.card_multiset() =~= before.card_multiset());
            }
            k = k + 1;
            assert(self.deck@ =~= d0.subrange(0, d0.len() - 2 * k));
            assert(bottom_vec@ =~= dealt_bottom(d0).subrange(0, k as int));
            assert(top_vec@ =~= dealt_top(d0).subrange(0, k as int));
        }
        assert(bottom_vec@ =~= dealt_bottom(d0));
        assert(top_vec@ =~= dealt_top(d0));
        Ok((bottom_vec, top_vec))
    }

    /// Moves four cards from the end of the deck onto the board, last card
    /// first. Refused when the deck holds fewer than four cards.
    pub fn put_cards_onto_board(&mut self) -> (r: Result<(), GameError>)
        ensures
            final(self)@.card_multiset() == old(self)@.card_multiset(),
            match r {
                Err(e) => {
                    &&& e == GameError::EmptyDeck
                    &&& old(self)@.deck.len() < 4
                    &&& final(self)@ == old(self)@
                },
                Ok(_) => {
                    let d = old(self)@.deck;
                    &&& d.len() >= 4
                    &&& final(self)@ == (GameView {
                        deck: d.subrange(0, d.len() - 4),
                        board: old(self)@.board + dealt_board(d),
                        ..old(self)@
                    })
                },
            },
    {
        if self.deck.len() < 4 {
            return Err(GameError::EmptyDeck);
        }
        let ghost d0 = self.deck@;
        assert(old(self)@.board + dealt_board(d0).subrange(0, 0) =~= old(self)@.board);
        assert(d0.subrange(0, d0.len() as int) =~= d0);
        let mut k: usize = 0;
        while k < 4
            invariant
                k <= 4,
                d0 == old(self)@.deck,
                d0.len() >= 4,
                self@ == (GameView {
                    deck: d0.subrange(0, d0.len() - k),
                    board: old(self)@.board + dealt_board(d0).subrange(0, k as int),
                    ..old(self)@
                }),
                self@.card_multiset() == old(self)@.card_multiset(),
            decreases 4 - k,
        {
            let ghost before = self@;
            let c = self.deck.pop().unwrap();
            self.board.push(c);
            proof {
                assert(self.deck@ =~= before.deck.drop_last());
                lemma_move_last(before.deck, before.board);
                assert(self@.card_multiset() =~= before.card_multiset());
            }
            k = k + 1;
            assert(self.deck@ =~= d0.subrange(0, d0.len() - k));
            assert(self.board@ =~= old(self)@.board + dealt_board(d0).subrange(0, k as int));
        }
        assert(dealt_board(d0).subrange(0, 4) =~= dealt_board(d0));
        Ok(())
    }

    /// The card the program plays from its hand: the last one whose rank
    /// matches the top of the board, or else a random one.
    pub fn pick_card_for_ai(&mut self) -> (r: usize)
        requires
            old(self).ai_player is Some,
            old(self)@.hand(old(self).ai_player->0).len() > 0,
        ensures
            final(self)@ == old(self)@,
            r < old(self)@.hand(old(self).ai_player->0).len(),
            old(self)@.board.len() > 0 && last_rank_match(
                old(self)@.hand(old(self).ai_player->0),
                old(self)@.board.last().rank,
            ) >= 0 ==> r == last_rank_match(
                old(self)@.hand(old(self).ai_player->0),
                old(self)@.board.last().rank,
            ),
    {
        let ai_cards = match self.get_ai_player_hand() {
            Some(h) => h,
            None => {
                return 0;
            },
        };
        let fallback = get_random_index(ai_cards);
        choose_card_index(ai_cards, &self.board, fallback)
    }

    /// Puts a card on top of the board and tells what the play leads to.
    pub fn play_card(&mut self, a_card: Card) -> (r: WinStatus)
        ensures
            final(self)@ == (GameView { board: old(self)@.board.push(a_card), ..old(self)@ }),
            r == play_outcome(final(self)@.board),
    {
        self.board.push(a_card);
        outcome_of_board(&self.board)
    }

    /// Counts a pisti for `player` when `stat` is one.
    pub fn create_pisti(&mut self, stat: WinStatus, player: Player)
        requires
            stat == WinStatus::Pisti ==> old(self)@.pisti(player) < 255,
        ensures
            stat != WinStatus::Pisti ==> final(self)@ == old(self)@,
            stat == WinStatus::Pisti && player == Player::Player1 ==> final(self)@ == (GameView {
                player1_pisti_count: old(self)@.player1_pisti_count + 1,
                ..old(self)@
            }),
            stat == WinStatus::Pisti && player == Player::Player2 ==> final(self)@ == (GameView {
                player2_pisti_count: old(self)@.player2_pisti_count + 1,
                ..old(self)@
            }),
    {
        match stat {
            WinStatus::Pisti => match player {
                Player::Player1 => {
                    self.player1_pisti_count = self.player1_pisti_count + 1;
                },
                Player::Player2 => {
                    self.player2_pisti_count = self.player2_pisti_count + 1;
                },
            },
            _ => {},
        }
    }

    /// Recomputes both scores from the pisti counts and the won piles.
    pub fn calculate_points(&mut self)
        requires
            old(self)@.points_fit(),
        ensures
            final(self)@ == (GameView {
                player1_point: player_points(
                    old(self)@.player1_pisti_count,
                    old(self)@.player1_won_cards,
                    old(self)@.player2_won_cards,
                ),
                player2_point: player_points(
                    old(self)@.player2_pisti_count,
                    old(self)@.player2_won_cards,
                    old(self)@.player1_won_cards,
                ),
                ..old(self)@
            }),
            final(self)@.points_current(),
    {
        self.player1_point = points_of(
            self.player1_pisti_count,
            &self.player1_won_cards,
            &self.player2_won_cards,
        );
        self.player2_point = points_of(
            self.player2_pisti_count,
            &self.player2_won_cards,
            &self.player1_won_cards,
        );
    }

    /// On a pisti or a win, moves the whole board onto `player`'s won pile
    /// (and counts the pisti); then recomputes the scores.
    pub fn move_cards_if_win(&mut self, stat: WinStatus, player: Player)
        requires
            stat == WinStatus::Pisti ==> old(self)@.pisti(player) < 255,
            ({
                let after = if stat == WinStatus::Pass {
                    old(self)@
                } else {
                    captured(old(self)@, stat, player)
                };
                after.points_fit()
            }),
        ensures
            final(self)@ == recomputed(
                if stat == WinStatus::Pass {
                    old(self)@
                } else {
                    captured(old(self)@, stat, player)
                },
            ),
            final(self)@.card_multiset() == old(self)@.card_multiset(),
    {
        match stat {
            WinStatus::Pisti | WinStatus::Win => {
                let ghost before = self@;
                match player {
                    Player::Player1 => {
                        self.player1_won_cards.append(&mut self.board);
                    },
                    Player::Player2 => {
                        self.player2_won_cards.append(&mut self.board);
                    },
                }
                self.create_pisti(stat, player);
                proof {
                    assert(self.board@ =~= Seq::<Card>::empty());
                    lemma_move_all(before.board, before.won(player));
                    assert(self@.card_multiset() =~= before.card_multiset());
                    assert(self@ == captured(before, stat, player));
                }
            },
            WinStatus::Pass => {},
        }
        self.calculate_points();
    }

    /// The player who did not start: the one who takes the board left at
    /// the end of the game.
    pub fn get_last_player(&self) -> (r: Player)
        ensures
            r == other_player(self.first_player),
    {
        match self.first_player {
            Player::Player1 => Player::Player2,
            Player::Player2 => Player::Player1,
        }
    }

    /// Where `a_card` lies in `a_player`'s hand (its last place, should it
    /// occur twice).
    pub fn get_index_of_card(&self, a_card: Card, a_player: Player) -> (r: Result<usize, GameError>)
        ensures
            match r {
                Ok(i) => {
                    &&& self@.hand(a_player).contains(a_card)
                    &&& i == last_index_of(self@.hand(a_player), a_card)
                },
                Err(e) => e == GameError::CardNotInHand && !self@.hand(a_player).contains(a_card),
            },
    {
        proof {
            crate::rules::lemma_last_index_of(self@.hand(a_player), a_card);
        }
        match find_last_index(self.get_player_cards(a_player), a_card) {
            Some(i) => Ok(i),
            None => Err(GameError::CardNotInHand),
        }
    }

    /// Whether the board shows a jack on top, so that the deal must start
    /// again from a fresh deck.
    pub fn is_reshuffle_required(&self) -> (r: bool)
        ensures
            r == self@.jack_on_top(),
    {
        let n = self.board.len();
        if n == 0 {
            false
        } else {
            self.board[n - 1].rank == R_J
        }
    }

    pub fn get_player_cards(&self, a_player: Player) -> (r: &Vec<Card>)
        ensures
            r@ == self@.hand(a_player),
    {
        match a_player {
            Player::Player1 => &self.bottom_hand,
            Player::Player2 => &self.top_hand,
        }
    }

    /// The hand of the player the program plays for, if any.
    pub fn get_ai_player_hand(&self) -> (r: Option<&Vec<Card>>)
        ensures
            r is Some <==> self.ai_player is Some,
            r is Some ==> r->0@ == self@.hand(self.ai_player->0),
    {
        match self.ai_player {
            None => None,
            Some(a_player) => Some(self.get_player_cards(a_player)),
        }
    }
}

/// The state after `player` captured the board, with a pisti counted when
/// `stat` is one.
pub open spec fn captured(g: GameView, stat: WinStatus, player: Player) -> GameView {
    let pisti = if stat == WinStatus::Pisti {
        1nat
    } else {
        0nat
    };
    match player {
        Player::Player1 => GameView {
            board: Seq::empty(),
            player1_won_cards: g.player1_won_cards + g.board,
            player1_pisti_count: g.player1_pisti_count + pisti,
            ..g
        },
        Player::Player2 => GameView {
            board: Seq::empty(),
            player2_won_cards: g.player2_won_cards + g.board,
            player2_pisti_count: g.player2_pisti_count + pisti,
            ..g
        },
    }
}

/// The state with both scores recomputed.
pub open spec fn recomputed(g: GameView) -> GameView {
    GameView {
        player1_point: player_points(g.player1_pisti_count, g.player1_won_cards, g.player2_won_cards),
        player2_point: player_points(g.player2_pisti_count, g.player2_won_cards, g.player1_won_cards),
        ..g
    }
}

} // verus!
