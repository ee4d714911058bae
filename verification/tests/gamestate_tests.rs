use pokers::card::card_from_str;
use pokers::deck::{create_deck, Deck};
use pokers::gamestate::{init_blinds, init_game_state, init_pot, GameState, Pot, Street};
use pokers::player::{init_player, init_players, Player, PlayerAction};

fn get_n_dummy_players(n: u32) -> Vec<Player> {
    (0..n).map(|i| init_player(i, "Dummy", 100)).collect()
}

#[test]
fn it_inits_a_game() {
    let players = get_n_dummy_players(6);
    let blinds = init_blinds(5, 10, None);
    let game = init_game_state(players, blinds);

    assert_eq!(game.hand_count, 0);
    assert_eq!(game.players.len(), 6);
    assert_eq!(game.blinds.bb, 10);
    assert_eq!(game.pot.chips, 0);
    assert_eq!(game.pot.participants.len(), 0);
    assert_eq!(game.sidepots.len(), 0);
    assert_eq!(game.street, Street::PreFlop);
    assert_eq!(game.board.len(), 0);
}

#[test]
fn it_conserves_chips_through_the_blinds() {
    let players = get_n_dummy_players(4);
    let blinds = init_blinds(5, 10, None);
    let mut game = init_game_state(players, blinds);
    game.init_round();
    game.rotate_button();

    let stacks_before: u32 = game.players.iter().map(|p| p.chips).sum();
    game.take_blinds();
    let stacks_after: u32 = game.players.iter().map(|p| p.chips).sum();

    assert_eq!(stacks_before, stacks_after + game.pot.chips);
    assert_eq!(game.pot.chips, 15);
    assert_eq!(game.current_bet, Some(10));
}

#[test]
fn it_conserves_chips_across_a_session() {
    let players = get_n_dummy_players(3);
    let blinds = init_blinds(5, 10, None);
    let mut game = init_game_state(players, blinds);

    game.play();

    let stacks: u32 = game.players.iter().map(|p| p.chips).sum();
    assert_eq!(stacks + game.pot.chips, 300);
    assert_eq!(game.pot.chips, 0);
}

/// A game state frozen at showdown with a completed board.
fn showdown_state(pot_chips: u32) -> GameState {
    // the board is the Broadway straight, so both players' best hand
    // is the board itself and they split
    let board = vec![
        card_from_str("A", "S"),
        card_from_str("K", "D"),
        card_from_str("Q", "S"),
        card_from_str("J", "D"),
        card_from_str("T", "C"),
    ];
    let mut p0 = init_player(0, "left", 0);
    p0.in_hand = true;
    p0.hole_cards = Some(vec![card_from_str("2", "D"), card_from_str("3", "D")]);
    let mut p1 = init_player(1, "right", 0);
    p1.in_hand = true;
    p1.hole_cards = Some(vec![card_from_str("2", "H"), card_from_str("3", "H")]);
    GameState {
        players: vec![p0, p1],
        blinds: init_blinds(5, 10, None),
        pot: Pot { chips: pot_chips, participants: vec![0, 1] },
        sidepots: vec![],
        deck: create_deck(),
        button: 0,
        small_blind: 1,
        big_blind: 0,
        player_to_act: 1,
        current_bet: None,
        board,
        street: Street::Showdown,
        hand_count: 1,
    }
}

#[test]
fn it_splits_an_even_pot_evenly() {
    let mut game = showdown_state(100);
    game.award_pots();

    assert_eq!(game.players[0].chips, 50);
    assert_eq!(game.players[1].chips, 50);
    assert_eq!(game.pot.chips, 0);
}

#[test]
fn it_awards_the_odd_chip_to_the_first_winning_seat() {
    let mut game = showdown_state(101);
    game.award_pots();

    assert_eq!(game.players[0].chips, 51);
    assert_eq!(game.players[1].chips, 50);
    assert_eq!(game.pot.chips, 0);
}

#[test]
fn it_awards_the_whole_pot_when_everyone_else_folded() {
    let mut game = showdown_state(80);
    game.street = Street::River;
    game.players[0].in_hand = false;
    game.award_pots();

    assert_eq!(game.players[0].chips, 0);
    assert_eq!(game.players[1].chips, 80);
    assert_eq!(game.pot.chips, 0);
}

#[test]
fn it_keeps_betting_open_for_the_big_blind() {
    let players = get_n_dummy_players(3);
    let blinds = init_blinds(5, 10, None);
    let mut game = init_game_state(players, blinds);
    game.init_round();
    game.rotate_button();
    game.take_blinds();

    // everyone else calls the blind
    let caller = game.player_to_act;
    let action = game.players[caller].call(10);
    let id = game.players[caller].id;
    game.apply_action(action, id);
    let sb = game.small_blind;
    let action = game.players[sb].call(10);
    let id = game.players[sb].id;
    game.apply_action(action, id);

    // the big blind has matched the bet but has not spoken
    game.player_to_act = game.big_blind;
    assert!(!game.is_betting_done());

    // once every live player's recorded action is a check, betting
    // is closed
    for i in 0..game.players.len() {
        game.players[i].check();
    }
    assert!(game.is_betting_done());
}

#[test]
fn it_deals_two_cards_to_every_player() {
    let players = get_n_dummy_players(5);
    let blinds = init_blinds(5, 10, None);
    let mut game = init_game_state(players, blinds);
    game.init_round();
    game.deal_hands();

    assert_eq!(game.deck.cards.len(), 42);
    for p in game.players.iter() {
        assert_eq!(p.hole_cards.as_ref().unwrap().len(), 2);
    }
}

#[test]
fn it_rotates_the_button_and_blinds() {
    let players = get_n_dummy_players(3);
    let blinds = init_blinds(5, 10, None);
    let mut game = init_game_state(players, blinds);

    game.rotate_button();
    assert_eq!(game.button, 1);
    assert_eq!(game.small_blind, 2);
    assert_eq!(game.big_blind, 0);
    assert_eq!(game.player_to_act, 1);

    game.rotate_button();
    assert_eq!(game.button, 2);
    assert_eq!(game.small_blind, 0);
    assert_eq!(game.big_blind, 1);
    assert_eq!(game.player_to_act, 2);
}

#[test]
fn it_advances_past_folded_seats() {
    let players = get_n_dummy_players(4);
    let blinds = init_blinds(5, 10, None);
    let mut game = init_game_state(players, blinds);
    game.init_round();
    game.players[1].fold();
    game.players[2].fold();
    game.player_to_act = 0;
    game.advance_player_to_act();
    assert_eq!(game.player_to_act, 3);
}

#[test]
fn it_transitions_streets_and_builds_the_board() {
    let players = get_n_dummy_players(2);
    let blinds = init_blinds(5, 10, None);
    let mut game = init_game_state(players, blinds);
    game.init_round();

    game.transition_street();
    assert_eq!(game.street, Street::Flop);
    assert_eq!(game.board.len(), 3);
    assert_eq!(game.current_bet, None);

    game.transition_street();
    assert_eq!(game.street, Street::Turn);
    assert_eq!(game.board.len(), 4);

    game.transition_street();
    assert_eq!(game.street, Street::River);
    assert_eq!(game.board.len(), 5);

    game.transition_street();
    assert_eq!(game.street, Street::Showdown);
    assert_eq!(game.board.len(), 5);
}

#[test]
fn it_drops_broke_players_at_round_end() {
    let mut players = get_n_dummy_players(3);
    players[1].chips = 0;
    let blinds = init_blinds(5, 10, None);
    let mut game = init_game_state(players, blinds);
    game.end_round();

    assert_eq!(game.players.len(), 2);
    assert_eq!(game.players[0].id, 0);
    assert_eq!(game.players[1].id, 2);
}

#[test]
fn it_offers_only_legal_actions() {
    let mut p = init_player(7, "actor", 100);
    p.in_hand = true;
    let action = p.announce_action(Some(50), 10);
    match action {
        PlayerAction::Call(n) => assert_eq!(n, 50),
        PlayerAction::Raise(n) => assert_eq!(n, 100),
        PlayerAction::Fold => (),
        other => panic!("illegal action offered: {:?}", other),
    }
}

#[test]
fn it_clamps_an_oversized_bet_to_the_stack() {
    let mut p = init_player(0, "short", 30);
    let action = p.bet(100);
    assert_eq!(action, PlayerAction::Bet(30));
    assert_eq!(p.chips, 0);
    assert!(p.all_in);
    assert_eq!(p.last_action, Some(PlayerAction::Bet(30)));
}

#[test]
fn it_names_fresh_players_by_number() {
    let ps = init_players(4, false, 100);
    assert_eq!(ps.len(), 4);
    assert_eq!(ps[3].name, "Player 3");
    assert_eq!(ps[3].id, 3);
    assert_eq!(ps[3].chips, 100);
    assert!(!ps[3].in_hand);
}

#[test]
fn it_runs_a_session_to_completion() {
    pokers::game::play_game(2, false, 60, 5, 10, None);
}

#[test]
fn it_seats_a_table() {
    let t = pokers::table::init_table(6, 200);
    assert_eq!(t.seat_count, 6);
    assert_eq!(t.seats.len(), 6);
    assert_eq!(t.seat_players.len(), 6);
    assert_eq!(t.button, 0);
    assert_eq!(t.action, 0);
    let p = t.seat_players[4].as_ref().unwrap();
    assert_eq!(p.id, 4);
    assert_eq!(p.chips, 200);
}

#[test]
fn it_records_pot_participants_once() {
    let mut pot_game = {
        let players = get_n_dummy_players(2);
        let blinds = init_blinds(5, 10, None);
        init_game_state(players, blinds)
    };
    pot_game.pot = init_pot();
    pot_game.apply_action(PlayerAction::Bet(10), 1);
    pot_game.apply_action(PlayerAction::Raise(20), 0);
    pot_game.apply_action(PlayerAction::Call(20), 1);

    assert_eq!(pot_game.pot.chips, 50);
    assert_eq!(pot_game.pot.participants, vec![1, 0]);
    assert_eq!(pot_game.current_bet, Some(20));
}

#[test]
fn it_gives_chips_back_on_payout() {
    let mut p = init_player(0, "winner", 10);
    p.receive_chips(25);
    assert_eq!(p.chips, 35);
}

#[test]
fn it_checks_and_folds_without_moving_chips() {
    let mut p = init_player(0, "quiet", 40);
    p.in_hand = true;
    let c = p.check();
    assert_eq!(c, PlayerAction::Check);
    assert_eq!(p.chips, 40);
    assert!(p.in_hand);
    let f = p.fold();
    assert_eq!(f, PlayerAction::Fold);
    assert_eq!(p.chips, 40);
    assert!(!p.in_hand);
}
