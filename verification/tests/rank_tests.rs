use pokers::card::{card_from_str, Card, CardVec};
use pokers::hand_rankings::{hand_ranks, rank_hand, HandRank};

fn high_card_hand() -> CardVec {
    vec![
        card_from_str("2", "D"),
        card_from_str("3", "S"),
        card_from_str("4", "S"),
        card_from_str("5", "S"),
        card_from_str("7", "S"),
    ]
}

fn pair_hand() -> CardVec {
    vec![
        card_from_str("2", "D"),
        card_from_str("2", "S"),
        card_from_str("3", "S"),
        card_from_str("4", "S"),
        card_from_str("5", "S"),
    ]
}

fn two_pair_hand() -> CardVec {
    vec![
        card_from_str("2", "D"),
        card_from_str("2", "S"),
        card_from_str("3", "S"),
        card_from_str("3", "D"),
        card_from_str("4", "S"),
    ]
}

fn three_of_a_kind_hand() -> CardVec {
    vec![
        card_from_str("2", "D"),
        card_from_str("2", "S"),
        card_from_str("2", "H"),
        card_from_str("3", "D"),
        card_from_str("4", "S"),
    ]
}

fn straight_hand() -> CardVec {
    vec![
        card_from_str("3", "D"),
        card_from_str("2", "S"),
        card_from_str("5", "S"),
        card_from_str("4", "H"),
        card_from_str("6", "D"),
    ]
}

fn wheel_straight_hand() -> CardVec {
    vec![
        card_from_str("3", "D"),
        card_from_str("2", "S"),
        card_from_str("4", "H"),
        card_from_str("A", "D"),
        card_from_str("5", "S"),
    ]
}

fn flush_hand() -> CardVec {
    vec![
        card_from_str("2", "S"),
        card_from_str("3", "S"),
        card_from_str("4", "S"),
        card_from_str("5", "S"),
        card_from_str("7", "S"),
    ]
}

fn four_of_a_kind_hand() -> CardVec {
    vec![
        card_from_str("2", "D"),
        card_from_str("2", "S"),
        card_from_str("2", "H"),
        card_from_str("2", "C"),
        card_from_str("3", "D"),
    ]
}

fn straight_flush_hand() -> CardVec {
    vec![
        card_from_str("2", "S"),
        card_from_str("3", "S"),
        card_from_str("5", "S"),
        card_from_str("6", "S"),
        card_from_str("4", "S"),
    ]
}

fn wheel_straight_flush_hand() -> CardVec {
    vec![
        card_from_str("2", "S"),
        card_from_str("3", "S"),
        card_from_str("5", "S"),
        card_from_str("A", "S"),
        card_from_str("4", "S"),
    ]
}

#[test]
fn it_knows_hand_rank_order() {
    let r = hand_ranks();

    assert_eq!(r.iter().next().unwrap(), &HandRank::HighCard);
    assert_eq!(r.iter().last().unwrap(), &HandRank::StraightFlush);
}

#[test]
fn it_ranks_every_category_strictly() {
    let r = hand_ranks();
    for i in 1..r.len() {
        assert!(r[i - 1].val() < r[i].val());
    }
}

#[test]
fn lib_it_detects_a_high_card() {
    let h = high_card_hand();

    assert_eq!(rank_hand(&h), HandRank::HighCard);
}

#[test]
fn it_detects_a_pair() {
    let h = pair_hand();

    assert_eq!(rank_hand(&h), HandRank::Pair);
}

#[test]
fn lib_it_detects_a_two_pair() {
    let h = two_pair_hand();

    assert_eq!(rank_hand(&h), HandRank::TwoPair);
}

#[test]
fn lib_it_detects_a_three_of_a_kind() {
    let h = three_of_a_kind_hand();

    assert_eq!(rank_hand(&h), HandRank::ThreeOfAKind);
}

#[test]
fn lib_it_detects_a_straight() {
    let h = straight_hand();

    assert_eq!(rank_hand(&h), HandRank::Straight);
}

#[test]
fn lib_it_detects_a_wheel() {
    let h = wheel_straight_hand();

    assert_eq!(rank_hand(&h), HandRank::Straight);
}

#[test]
fn lib_it_detects_a_flush() {
    let h = flush_hand();

    assert_eq!(rank_hand(&h), HandRank::Flush);
}

#[test]
fn lib_it_detects_a_four_of_a_kind() {
    let h = four_of_a_kind_hand();

    assert_eq!(rank_hand(&h), HandRank::FourOfAKind);
}

#[test]
fn lib_it_detects_a_straight_flush() {
    let h = straight_flush_hand();

    assert_eq!(rank_hand(&h), HandRank::StraightFlush);
}

#[test]
fn lib_it_detects_a_wheel_straight_flush() {
    let h = wheel_straight_flush_hand();

    assert_eq!(rank_hand(&h), HandRank::StraightFlush);
}

#[test]
fn it_detects_a_full_house_from_any_order() {
    let h: Vec<Card> = vec![
        card_from_str("3", "S"),
        card_from_str("2", "D"),
        card_from_str("3", "D"),
        card_from_str("2", "S"),
        card_from_str("2", "H"),
    ];
    assert_eq!(rank_hand(&h), HandRank::FullHouse);
}
