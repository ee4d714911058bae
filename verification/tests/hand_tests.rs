use pokers::card::{card_from_str, CardVec};
use pokers::hand::{find_best_hand, init_hand};
use pokers::hand_rankings::HandRank;
use pokers::test_utils::{
    flush_hand,
    high_card_hand,
    high_card_hand_2,
    high_card_hand_3,
    high_card_hand_4,
    high_card_kickers,
    pair_hand,
    pair_hand_2,
    pair_hand_3,
    straight_hand,
    three_of_a_kind_hand,
    three_of_a_kind_hand_2,
    three_of_a_kind_hand_3,
    two_pair_hand,
    two_pair_hand_2,
    two_pair_hand_3,
};

fn straight_hand_2() -> CardVec {
    vec![
        card_from_str("4", "D"),
        card_from_str("3", "S"),
        card_from_str("6", "S"),
        card_from_str("5", "H"),
        card_from_str("7", "D"),
    ]
}

fn straight_hand_3() -> CardVec {
    vec![
        card_from_str("4", "H"),
        card_from_str("3", "D"),
        card_from_str("6", "C"),
        card_from_str("5", "S"),
        card_from_str("7", "H"),
    ]
}

fn flush_hand_2() -> CardVec {
    vec![
        card_from_str("2", "S"),
        card_from_str("3", "S"),
        card_from_str("4", "S"),
        card_from_str("5", "S"),
        card_from_str("8", "S"),
    ]
}

fn flush_hand_3() -> CardVec {
    vec![
        card_from_str("2", "S"),
        card_from_str("3", "S"),
        card_from_str("4", "S"),
        card_from_str("6", "S"),
        card_from_str("8", "S"),
    ]
}

#[test]
fn it_inits_a_hand() {
    let cards = high_card_hand();
    let hand = init_hand(cards.clone());

    assert_eq!(hand.cards, cards);
    assert_eq!(hand.hand_rank, HandRank::HighCard);
    assert_eq!(hand.kickers, high_card_kickers());
}

#[test]
fn it_finds_identical_hand_equal() {
    let h1 = init_hand(high_card_hand().clone());
    let h2 = init_hand(high_card_hand().clone());

    assert_eq!(h1, h2);
}

#[test]
fn it_ignores_suit_difference_in_equal_hands() {
    let h1 = init_hand(high_card_hand_3().clone());
    let h2 = init_hand(high_card_hand_4().clone());

    assert_eq!(h1, h2);
}

#[test]
fn it_finds_hands_of_differing_rank_unequal() {
    let h1 = init_hand(high_card_hand().clone());
    let h2 = init_hand(pair_hand().clone());

    assert_ne!(h1, h2);
}

#[test]
fn it_compares_high_card_hands() {
    let seven_high = init_hand(high_card_hand().clone());
    let eight_high = init_hand(high_card_hand_2().clone());

    assert_ne!(seven_high, eight_high);
    assert!(eight_high > seven_high);
}

#[test]
fn it_tiebreaks_high_card_hands() {
    let eight_high_six_kicker = init_hand(high_card_hand_3().clone());
    let eight_high_five_kicker = init_hand(high_card_hand_2().clone());

    assert_ne!(eight_high_six_kicker, eight_high_five_kicker);
    assert!(eight_high_six_kicker > eight_high_five_kicker);
}

#[test]
fn it_compares_pair_hands() {
    let pair_twos = init_hand(pair_hand().clone());
    let pair_fives = init_hand(pair_hand_2().clone());

    assert_ne!(pair_fives, pair_twos);
    assert!(pair_fives > pair_twos);
}

#[test]
fn it_tiebreaks_pair_hands() {
    let pair_fives_seven_kicker = init_hand(pair_hand_2().clone());
    let pair_fives_four_kicker = init_hand(pair_hand_3().clone());

    assert_ne!(pair_fives_seven_kicker, pair_fives_four_kicker);
    assert!(pair_fives_seven_kicker > pair_fives_four_kicker);
}

#[test]
fn it_compares_two_pair_hands() {
    let threes_and_twos = init_hand(two_pair_hand().clone());
    let aces_and_threes = init_hand(two_pair_hand_2().clone());

    assert_ne!(aces_and_threes, threes_and_twos);
    assert!(aces_and_threes > threes_and_twos);
}

#[test]
fn it_tiebreaks_two_pair_hands() {
    let aces_and_threes_four = init_hand(two_pair_hand_2().clone());
    let aces_and_threes_king = init_hand(two_pair_hand_3().clone());

    assert_ne!(aces_and_threes_king, aces_and_threes_four);
    assert!(aces_and_threes_king > aces_and_threes_four);
}

#[test]
fn it_compares_three_of_a_kind_hands() {
    let set_twos = init_hand(three_of_a_kind_hand().clone());
    let set_fours = init_hand(three_of_a_kind_hand_2().clone());

    assert_ne!(set_fours, set_twos);
    assert!(set_fours > set_twos);
}

#[test]
fn it_tiebreaks_three_of_a_kind_hands() {
    let set_fours_three_kicker = init_hand(three_of_a_kind_hand_2().clone());
    let set_fours_ace_kicker = init_hand(three_of_a_kind_hand_3().clone());
    assert_ne!(set_fours_ace_kicker, set_fours_three_kicker);
    assert!(set_fours_ace_kicker > set_fours_three_kicker);
}

#[test]
fn it_compares_straight_hands() {
    let six_high_straight = init_hand(straight_hand());
    let seven_high_straight = init_hand(straight_hand_2());

    assert_ne!(seven_high_straight, six_high_straight);
    assert!(seven_high_straight > six_high_straight);
}

#[test]
fn it_tiebreaks_straight_hands() {
    let seven_high_straight = init_hand(straight_hand_2());
    let seven_high_straight_2 = init_hand(straight_hand_3());

    assert_eq!(seven_high_straight, seven_high_straight_2);
}

#[test]
fn it_compares_flush_hands() {
    let seven_high_flush = init_hand(flush_hand());
    let eight_high_flush = init_hand(flush_hand_2());

    assert_ne!(eight_high_flush, seven_high_flush);
    assert!(eight_high_flush > seven_high_flush);
}

#[test]
fn it_tiebreaks_flush_hands() {
    let eight_high_flush = init_hand(flush_hand_2());
    let eight_high_flush_2 = init_hand(flush_hand_3());

    assert_ne!(eight_high_flush_2, eight_high_flush);
    assert!(eight_high_flush_2 > eight_high_flush);
}

#[test]
fn it_find_the_best_hand() {
    let board = vec![
        card_from_str("A", "S"),
        card_from_str("A", "C"),
        card_from_str("A", "D"),
        card_from_str("J", "D"),
        card_from_str("Q", "S"),
        card_from_str("K", "D"),
        card_from_str("T", "C"),
    ];

    let best_hand = find_best_hand(board).unwrap();
    assert_eq!(best_hand.hand_rank, HandRank::Straight);
}

#[test]
fn it_finds_no_hand_in_too_few_cards() {
    let cards = vec![
        card_from_str("A", "S"),
        card_from_str("A", "C"),
        card_from_str("A", "D"),
        card_from_str("J", "D"),
    ];
    assert!(find_best_hand(cards).is_none());
}

#[test]
fn it_finds_the_broadway_kicker() {
    let board = vec![
        card_from_str("A", "S"),
        card_from_str("A", "C"),
        card_from_str("A", "D"),
        card_from_str("J", "D"),
        card_from_str("Q", "S"),
        card_from_str("K", "D"),
        card_from_str("T", "C"),
    ];

    let best_hand = find_best_hand(board).unwrap();
    assert_eq!(best_hand.kickers, vec![pokers::card::Rank::Ace]);
}
