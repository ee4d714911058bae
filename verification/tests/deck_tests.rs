use pokers::card::card_from_str;
use pokers::deck::{create_deck, create_shuffled_deck};

#[test]
fn lib_it_creates_deck() {
    let d = create_deck();
    let first_card = card_from_str("2", "S");
    let last_card = card_from_str("A", "C");

    assert_eq!(d.cards.len(), 52);
    assert_eq!(&first_card, d.cards.iter().next().unwrap());
    assert_eq!(&last_card, d.cards.iter().last().unwrap());
}

#[test]
fn lib_it_creates_shuffled_deck() {
    let d = create_shuffled_deck();
    assert_eq!(d.cards.len(), 52);
}

#[test]
fn lib_it_deals_cards() {
    let mut d = create_shuffled_deck();
    let h = d.deal_cards(5);

    assert_eq!(d.cards.len(), 47);
    assert_eq!(h.len(), 5);
}

#[test]
fn deck_it_creates_deck() {
    let d = create_deck();
    let first_card = card_from_str("2", "S");
    let last_card = card_from_str("A", "C");

    assert_eq!(d.cards.len(), 52);
    assert_eq!(&first_card, d.cards.iter().next().unwrap());
    assert_eq!(&last_card, d.cards.iter().last().unwrap());
}

#[test]
fn deck_it_creates_shuffled_deck() {
    let d = create_shuffled_deck();
    assert_eq!(d.cards.len(), 52);
}

#[test]
fn deck_it_deals_cards() {
    let mut d = create_shuffled_deck();
    let h = d.deal_cards(5);

    assert_eq!(d.cards.len(), 47);
    assert_eq!(h.len(), 5);
}

#[test]
fn it_shuffles_without_losing_cards() {
    let fresh = create_deck();
    let shuffled = create_shuffled_deck();
    assert_eq!(shuffled.cards.len(), 52);
    for c in fresh.cards.iter() {
        assert!(shuffled.cards.contains(c));
    }
}

#[test]
fn it_deals_off_the_back_of_the_deck() {
    let mut d = create_deck();
    let dealt = d.deal_cards(2);
    assert_eq!(dealt[0], card_from_str("A", "C"));
    assert_eq!(dealt[1], card_from_str("K", "C"));
    assert_eq!(d.cards.len(), 50);
}
