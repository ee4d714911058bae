use pokers::card::{card_from_str, rank_from_str, suit_from_str, Rank, Suit};

#[test]
fn lib_it_cards_from_str() {
    let c = card_from_str("K", "H");

    assert_eq!(Rank::King, c.rank);
    assert_eq!(Suit::Hearts, c.suit);
}

#[test]
fn lib_it_formats_cards() {
    let ace_of_spades = card_from_str("A", "S");

    assert_eq!("A of ♠", ace_of_spades.to_string());
}

#[test]
fn card_it_cards_from_str() {
    let c = card_from_str("K", "H");

    assert_eq!(Rank::King, c.rank);
    assert_eq!(Suit::Hearts, c.suit);
}

#[test]
fn card_it_formats_cards() {
    let ace_of_spades = card_from_str("A", "S");

    assert_eq!("A of ♠", ace_of_spades.to_string());
}

#[test]
fn it_parses_exact_rank_symbols_only() {
    assert_eq!(rank_from_str("T"), Some(Rank::Ten));
    assert_eq!(rank_from_str("10"), Some(Rank::Ten));
    assert_eq!(rank_from_str("Q"), Some(Rank::Queen));
    assert_eq!(rank_from_str("t"), None);
    assert_eq!(rank_from_str("q"), None);
    assert_eq!(rank_from_str("ten"), None);
    assert_eq!(rank_from_str("1"), None);
    assert_eq!(rank_from_str(""), None);
}

#[test]
fn it_parses_exact_suit_letters_only() {
    assert_eq!(suit_from_str("S"), Some(Suit::Spades));
    assert_eq!(suit_from_str("H"), Some(Suit::Hearts));
    assert_eq!(suit_from_str("D"), Some(Suit::Diamonds));
    assert_eq!(suit_from_str("C"), Some(Suit::Clubs));
    assert_eq!(suit_from_str("s"), None);
    assert_eq!(suit_from_str("♠"), None);
    assert_eq!(suit_from_str("x"), None);
}

#[test]
fn it_parses_rank_names_in_any_case() {
    assert_eq!("T".parse::<Rank>().ok(), Some(Rank::Ten));
    assert_eq!("10".parse::<Rank>().ok(), Some(Rank::Ten));
    assert_eq!("ten".parse::<Rank>().ok(), Some(Rank::Ten));
    assert_eq!("QUEEN".parse::<Rank>().ok(), Some(Rank::Queen));
    assert_eq!("q".parse::<Rank>().ok(), Some(Rank::Queen));
    assert!("1".parse::<Rank>().is_err());
}

#[test]
fn it_parses_suit_names_and_symbols_in_any_case() {
    assert_eq!("s".parse::<Suit>().ok(), Some(Suit::Spades));
    assert_eq!("Hearts".parse::<Suit>().ok(), Some(Suit::Hearts));
    assert_eq!("♦".parse::<Suit>().ok(), Some(Suit::Diamonds));
    assert_eq!("♣".parse::<Suit>().ok(), Some(Suit::Clubs));
    assert!("x".parse::<Suit>().is_err());
}

#[test]
fn it_reports_the_offending_rank_text() {
    let e = "royal".parse::<Rank>();
    match e {
        Ok(_) => panic!("parse should fail"),
        Err(err) => assert_eq!(err.0, "royal"),
    }
}

#[test]
fn it_reports_the_offending_suit_text() {
    let e = "stars".parse::<Suit>();
    match e {
        Ok(_) => panic!("parse should fail"),
        Err(err) => assert_eq!(err.0, "stars"),
    }
}

#[test]
fn it_orders_rank_values() {
    let ranks = pokers::card::ranks();
    assert_eq!(ranks.len(), 13);
    for (i, r) in ranks.iter().enumerate() {
        assert_eq!(r.val() as usize, i);
    }
    assert_eq!(Rank::Two.val(), 0);
    assert_eq!(Rank::Ace.val(), 12);
}

#[test]
fn it_names_all_suits() {
    let suits = pokers::card::suits();
    assert_eq!(suits.len(), 4);
    assert_eq!(suits[0].to_ascii_string(), "S");
    assert_eq!(suits[1].to_ascii_string(), "H");
    assert_eq!(suits[2].to_ascii_string(), "D");
    assert_eq!(suits[3].to_ascii_string(), "C");
    assert_eq!(suits[0].to_unicode_string(), "♠");
}
