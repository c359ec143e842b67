use pisti::card::{card_into_filename, rank_to_str, Card, Player, Suit, WinStatus};
use pisti::controller::RoundState;
use pisti::game::{Game, GameError};
use pisti::random::get_random_index;
use pisti::rules::{choose_card_index, outcome_of_board, pile_points, points_of};

fn c(rank: u8, suit: Suit) -> Card {
    Card { rank, suit }
}

fn suit_key(s: Suit) -> u8 {
    match s {
        Suit::Spade => 0,
        Suit::Heart => 1,
        Suit::Diamond => 2,
        Suit::Club => 3,
    }
}

fn sorted_keys(cards: &[Card]) -> Vec<(u8, u8)> {
    let mut keys: Vec<(u8, u8)> = cards.iter().map(|x| (suit_key(x.suit), x.rank)).collect();
    keys.sort();
    keys
}

fn all_cards(g: &Game) -> Vec<Card> {
    let mut v = Vec::new();
    v.extend_from_slice(&g.deck);
    v.extend_from_slice(&g.board);
    v.extend_from_slice(&g.bottom_hand);
    v.extend_from_slice(&g.top_hand);
    v.extend_from_slice(&g.player1_won_cards);
    v.extend_from_slice(&g.player2_won_cards);
    v
}

fn full_deck_keys() -> Vec<(u8, u8)> {
    let mut keys = Vec::new();
    for s in 0..4u8 {
        for r in 1..=13u8 {
            keys.push((s, r));
        }
    }
    keys
}

fn assert_cards_conserved(g: &Game) {
    let all = all_cards(g);
    assert_eq!(all.len(), 52);
    assert_eq!(sorted_keys(&all), full_deck_keys());
}

#[test]
fn create_deck_yields_52_distinct_cards() {
    let mut g = Game::new();
    g.create_deck();
    assert_eq!(g.deck.len(), 52);
    assert_eq!(sorted_keys(&g.deck), full_deck_keys());
    assert_eq!(g.deck[0], c(1, Suit::Spade));
    assert_eq!(g.deck[12], c(13, Suit::Spade));
    assert_eq!(g.deck[13], c(1, Suit::Heart));
    assert_eq!(g.deck[51], c(13, Suit::Club));
}

#[test]
fn shuffle_keeps_the_cards() {
    let mut g = Game::new();
    g.create_deck();
    let before = g.deck.clone();
    g.shuffle_deck();
    assert_eq!(sorted_keys(&g.deck), sorted_keys(&before));
}

#[test]
fn shuffle_reorders_the_deck() {
    let mut g = Game::new();
    g.create_deck();
    let before = g.deck.clone();
    let mut moved = false;
    for _ in 0..5 {
        g.shuffle_deck();
        if g.deck != before {
            moved = true;
        }
    }
    assert!(moved);
}

#[test]
fn shuffle_of_empty_deck_is_noop() {
    let mut g = Game::new();
    g.shuffle_deck();
    assert!(g.deck.is_empty());
}

#[test]
fn matching_second_card_is_pisti() {
    let mut g = Game::new();
    g.board = vec![c(5, Suit::Spade)];
    let stat = g.play_card(c(5, Suit::Heart));
    assert_eq!(stat, WinStatus::Pisti);
    assert_eq!(g.board, vec![c(5, Suit::Spade), c(5, Suit::Heart)]);
}

#[test]
fn matching_card_on_longer_board_is_win() {
    let mut g = Game::new();
    g.board = vec![c(5, Suit::Spade), c(5, Suit::Heart), c(3, Suit::Diamond)];
    let stat = g.play_card(c(3, Suit::Club));
    assert_eq!(stat, WinStatus::Win);
    assert_eq!(g.board.len(), 4);
}

#[test]
fn jack_on_empty_board_passes() {
    let mut g = Game::new();
    let stat = g.play_card(c(11, Suit::Spade));
    assert_eq!(stat, WinStatus::Pass);
    assert_eq!(g.board, vec![c(11, Suit::Spade)]);
}

#[test]
fn jack_on_nonempty_board_wins() {
    let mut g = Game::new();
    g.board = vec![c(4, Suit::Club)];
    assert_eq!(g.play_card(c(11, Suit::Heart)), WinStatus::Win);
}

#[test]
fn different_rank_passes() {
    let board = vec![c(4, Suit::Club), c(9, Suit::Heart)];
    assert_eq!(outcome_of_board(&board), WinStatus::Pass);
}

#[test]
fn opponent_picks_last_rank_match() {
    let hand = vec![c(3, Suit::Spade), c(7, Suit::Heart), c(3, Suit::Diamond), c(9, Suit::Club)];
    let board = vec![c(8, Suit::Club), c(3, Suit::Heart)];
    assert_eq!(choose_card_index(&hand, &board, 0), 2);
    assert_eq!(choose_card_index(&hand, &board, 3), 2);
}

#[test]
fn opponent_falls_back_without_match() {
    let hand = vec![c(3, Suit::Spade), c(7, Suit::Heart)];
    let board = vec![c(12, Suit::Club)];
    assert_eq!(choose_card_index(&hand, &board, 1), 1);
    assert_eq!(choose_card_index(&hand, &Vec::new(), 0), 0);
}

#[test]
fn pick_card_for_ai_uses_top_hand() {
    let mut g = Game::new();
    g.top_hand = vec![c(3, Suit::Spade), c(7, Suit::Heart), c(3, Suit::Diamond), c(9, Suit::Club)];
    g.bottom_hand = vec![c(3, Suit::Club)];
    g.board = vec![c(3, Suit::Heart)];
    assert_eq!(g.pick_card_for_ai(), 2);
    g.board = vec![c(13, Suit::Heart)];
    for _ in 0..20 {
        assert!(g.pick_card_for_ai() < 4);
    }
}

#[test]
fn random_index_is_in_range() {
    let cards = vec![c(1, Suit::Spade), c(2, Suit::Spade), c(3, Suit::Spade)];
    for _ in 0..50 {
        assert!(get_random_index(&cards) < 3);
    }
}

#[test]
fn scoring_example() {
    let mut g = Game::new();
    g.player1_won_cards =
        vec![c(1, Suit::Spade), c(11, Suit::Heart), c(2, Suit::Club), c(10, Suit::Diamond)];
    g.player1_pisti_count = 2;
    g.player2_won_cards = vec![c(5, Suit::Spade)];
    g.calculate_points();
    assert_eq!(g.player1_point, 30);
    assert_eq!(g.player2_point, 0);
}

#[test]
fn equal_piles_get_no_count_bonus() {
    let a = vec![c(4, Suit::Spade), c(5, Suit::Heart)];
    let b = vec![c(6, Suit::Spade), c(1, Suit::Heart)];
    assert_eq!(points_of(0, &a, &b), 0);
    assert_eq!(points_of(1, &b, &a), 11);
    assert_eq!(pile_points(&vec![c(10, Suit::Diamond), c(2, Suit::Club), c(10, Suit::Heart)]), 5);
}

#[test]
fn reshuffle_required_iff_jack_on_top() {
    let mut g = Game::new();
    assert!(!g.is_reshuffle_required());
    g.board = vec![c(11, Suit::Club), c(4, Suit::Heart)];
    assert!(!g.is_reshuffle_required());
    g.board = vec![c(4, Suit::Heart), c(11, Suit::Club)];
    assert!(g.is_reshuffle_required());
}

#[test]
fn deal_order_is_interleaved() {
    let mut g = Game::new();
    g.create_deck();
    let (bottom, top) = g.give_cards_to_players().unwrap();
    assert_eq!(bottom, vec![c(13, Suit::Club), c(11, Suit::Club), c(9, Suit::Club), c(7, Suit::Club)]);
    assert_eq!(top, vec![c(12, Suit::Club), c(10, Suit::Club), c(8, Suit::Club), c(6, Suit::Club)]);
    assert_eq!(g.bottom_hand, bottom);
    assert_eq!(g.top_hand, top);
    assert_eq!(g.deck.len(), 44);
}

#[test]
fn board_deal_takes_four_from_the_end() {
    let mut g = Game::new();
    g.create_deck();
    g.put_cards_onto_board().unwrap();
    assert_eq!(
        g.board,
        vec![c(13, Suit::Club), c(12, Suit::Club), c(11, Suit::Club), c(10, Suit::Club)]
    );
    assert_eq!(g.deck.len(), 48);
}

#[test]
fn dealing_from_a_short_deck_is_refused() {
    let mut g = Game::new();
    g.deck = vec![c(1, Suit::Spade); 7];
    assert_eq!(g.give_cards_to_players(), Err(GameError::EmptyDeck));
    assert_eq!(g.deck.len(), 7);
    g.deck = vec![c(1, Suit::Spade); 3];
    assert_eq!(g.put_cards_onto_board(), Err(GameError::EmptyDeck));
    assert!(g.board.is_empty());
}

#[test]
fn index_of_card_in_hand() {
    let mut g = Game::new();
    g.bottom_hand = vec![c(2, Suit::Heart), c(6, Suit::Club), c(9, Suit::Spade)];
    assert_eq!(g.get_index_of_card(c(6, Suit::Club), Player::Player1), Ok(1));
    assert_eq!(g.get_index_of_card(c(6, Suit::Heart), Player::Player1), Err(GameError::CardNotInHand));
    assert_eq!(g.get_index_of_card(c(6, Suit::Club), Player::Player2), Err(GameError::CardNotInHand));
}

#[test]
fn hands_and_players() {
    let mut g = Game::new();
    g.bottom_hand = vec![c(2, Suit::Heart)];
    g.top_hand = vec![c(3, Suit::Heart), c(4, Suit::Heart)];
    assert_eq!(g.get_player_cards(Player::Player1).len(), 1);
    assert_eq!(g.get_player_cards(Player::Player2).len(), 2);
    assert_eq!(g.get_ai_player_hand().map(|h| h.len()), Some(2));
    g.ai_player = None;
    assert!(g.get_ai_player_hand().is_none());
    assert_eq!(g.get_last_player(), Player::Player2);
    g.first_player = Player::Player2;
    assert_eq!(g.get_last_player(), Player::Player1);
}

#[test]
fn capture_moves_board_and_counts_pisti() {
    let mut g = Game::new();
    g.board = vec![c(5, Suit::Spade), c(5, Suit::Heart)];
    g.move_cards_if_win(WinStatus::Pisti, Player::Player2);
    assert!(g.board.is_empty());
    assert_eq!(g.player2_won_cards, vec![c(5, Suit::Spade), c(5, Suit::Heart)]);
    assert_eq!(g.player2_pisti_count, 1);
    assert_eq!(g.player2_point, 13);
    g.board = vec![c(7, Suit::Spade)];
    g.move_cards_if_win(WinStatus::Pass, Player::Player1);
    assert_eq!(g.board.len(), 1);
    g.move_cards_if_win(WinStatus::Win, Player::Player1);
    assert_eq!(g.player1_won_cards, vec![c(7, Suit::Spade)]);
    assert_eq!(g.player1_pisti_count, 0);
}

#[test]
fn create_pisti_counts_only_pisti() {
    let mut g = Game::new();
    g.create_pisti(WinStatus::Win, Player::Player1);
    assert_eq!(g.player1_pisti_count, 0);
    g.create_pisti(WinStatus::Pisti, Player::Player1);
    assert_eq!(g.player1_pisti_count, 1);
}

#[test]
fn start_game_deals_without_jack_on_top() {
    let mut g = Game::new();
    g.start_game_and_give_cards_to_players().unwrap();
    assert_eq!(g.board.len(), 4);
    assert_ne!(g.board[3].rank, 11);
    assert_eq!(g.bottom_hand.len(), 4);
    assert_eq!(g.top_hand.len(), 4);
    assert_eq!(g.deck.len(), 40);
    assert_cards_conserved(&g);
}

#[test]
fn whole_game_conserves_cards() {
    let mut g = Game::new();
    g.start_game_and_give_cards_to_players().unwrap();
    let mut turns = 0;
    loop {
        assert_cards_conserved(&g);
        assert!(g.bottom_hand.len() <= 4 && g.top_hand.len() <= 4);
        g.play_from_hand(Player::Player1, 0).unwrap();
        let i = g.pick_card_for_ai();
        g.play_from_hand(Player::Player2, i).unwrap();
        turns += 1;
        match g.end_turn().unwrap() {
            RoundState::GameOver => break,
            RoundState::InPlay | RoundState::Redealt => {}
        }
    }
    assert_eq!(turns, 24);
    assert_cards_conserved(&g);
    assert!(g.board.is_empty());
    assert!(g.deck.is_empty());
    assert_eq!(g.player1_won_cards.len() + g.player2_won_cards.len(), 52);
    let total = g.player1_point + g.player2_point;
    let pisti = (g.player1_pisti_count as usize + g.player2_pisti_count as usize) * 10;
    assert_eq!(total, pisti + 13 + (if g.player1_won_cards.len() == 26 { 0 } else { 3 }));
    assert_eq!(g.play_from_hand(Player::Player1, 0), Err(GameError::OperationAfterGameOver));
    assert_eq!(g.end_turn(), Err(GameError::OperationAfterGameOver));
}

#[test]
fn play_with_bad_index_is_refused() {
    let mut g = Game::new();
    g.start_game_and_give_cards_to_players().unwrap();
    let before = g.clone();
    assert_eq!(g.play_from_hand(Player::Player1, 4), Err(GameError::InvalidCardIndex));
    assert_eq!(g.bottom_hand, before.bottom_hand);
    assert_eq!(g.board, before.board);
}

#[test]
fn end_turn_with_cards_in_hand_changes_nothing() {
    let mut g = Game::new();
    g.start_game_and_give_cards_to_players().unwrap();
    let deck_len = g.deck.len();
    assert_eq!(g.end_turn(), Ok(RoundState::InPlay));
    assert_eq!(g.deck.len(), deck_len);
}

#[test]
fn card_text() {
    assert_eq!(rank_to_str(1), "A");
    assert_eq!(rank_to_str(11), "J");
    assert_eq!(rank_to_str(12), "Q");
    assert_eq!(rank_to_str(13), "K");
    assert_eq!(rank_to_str(10), "10");
    assert_eq!(rank_to_str(7), "7");
    assert_eq!(c(10, Suit::Diamond).to_string(), "10\u{2666}");
    assert_eq!(c(1, Suit::Spade).to_string(), "A\u{2660}\u{fe0e}");
    assert_eq!(Suit::Heart.to_string(), "\u{2665}");
    assert_eq!(card_into_filename(c(10, Suit::Diamond)), "TD");
    assert_eq!(card_into_filename(c(1, Suit::Spade)), "AS");
    assert_eq!(card_into_filename(c(7, Suit::Heart)), "7H");
    assert_eq!(card_into_filename(c(12, Suit::Club)), "QC");
}
