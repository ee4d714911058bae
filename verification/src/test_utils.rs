//! Fixed example hands and their expected kickers, for exercising
//! the evaluator.

use vstd::prelude::*;

use crate::card::{Card, CardVec, Rank, RankVec, Suit};

verus! {

/// Fixture: a seven-high unsuited hand.
pub fn high_card_hand() -> (r: CardVec)
    ensures
        r@ == seq![(Card { rank: Rank::Two, suit: Suit::Diamonds }),
        (Card { rank: Rank::Three, suit: Suit::Spades }),
        (Card { rank: Rank::Four, suit: Suit::Spades }),
        (Card { rank: Rank::Five, suit: Suit::Spades }),
        (Card { rank: Rank::Seven, suit: Suit::Spades })],
{
    let r: CardVec = vec![Card { rank: Rank::Two, suit: Suit::Diamonds },
        Card { rank: Rank::Three, suit: Suit::Spades },
        Card { rank: Rank::Four, suit: Suit::Spades },
        Card { rank: Rank::Five, suit: Suit::Spades },
        Card { rank: Rank::Seven, suit: Suit::Spades }];
    proof {
        assert(r@ =~= seq![(Card { rank: Rank::Two, suit: Suit::Diamonds }),
        (Card { rank: Rank::Three, suit: Suit::Spades }),
        (Card { rank: Rank::Four, suit: Suit::Spades }),
        (Card { rank: Rank::Five, suit: Suit::Spades }),
        (Card { rank: Rank::Seven, suit: Suit::Spades })]);
    }
    r
}

/// Fixture: the kickers of `high_card_hand`.
pub fn high_card_kickers() -> (r: RankVec)
    ensures
        r@ == seq![Rank::Seven,
        Rank::Five,
        Rank::Four,
        Rank::Three,
        Rank::Two],
{
    let r: RankVec = vec![Rank::Seven,
        Rank::Five,
        Rank::Four,
        Rank::Three,
        Rank::Two];
    proof {
        assert(r@ =~= seq![Rank::Seven,
        Rank::Five,
        Rank::Four,
        Rank::Three,
        Rank::Two]);
    }
    r
}

/// Fixture: an eight-high hand with a five kicker.
pub fn high_card_hand_2() -> (r: CardVec)
    ensures
        r@ == seq![(Card { rank: Rank::Two, suit: Suit::Diamonds }),
        (Card { rank: Rank::Three, suit: Suit::Spades }),
        (Card { rank: Rank::Four, suit: Suit::Spades }),
        (Card { rank: Rank::Five, suit: Suit::Spades }),
        (Card { rank: Rank::Eight, suit: Suit::Spades })],
{
    let r: CardVec = vec![Card { rank: Rank::Two, suit: Suit::Diamonds },
        Card { rank: Rank::Three, suit: Suit::Spades },
        Card { rank: Rank::Four, suit: Suit::Spades },
        Card { rank: Rank::Five, suit: Suit::Spades },
        Card { rank: Rank::Eight, suit: Suit::Spades }];
    proof {
        assert(r@ =~= seq![(Card { rank: Rank::Two, suit: Suit::Diamonds }),
        (Card { rank: Rank::Three, suit: Suit::Spades }),
        (Card { rank: Rank::Four, suit: Suit::Spades }),
        (Card { rank: Rank::Five, suit: Suit::Spades }),
        (Card { rank: Rank::Eight, suit: Suit::Spades })]);
    }
    r
}

/// Fixture: an eight-high hand with a six kicker.
pub fn high_card_hand_3() -> (r: CardVec)
    ensures
        r@ == seq![(Card { rank: Rank::Two, suit: Suit::Diamonds }),
        (Card { rank: Rank::Three, suit: Suit::Spades }),
        (Card { rank: Rank::Four, suit: Suit::Spades }),
        (Card { rank: Rank::Six, suit: Suit::Spades }),
        (Card { rank: Rank::Eight, suit: Suit::Spades })],
{
    let r: CardVec = vec![Card { rank: Rank::Two, suit: Suit::Diamonds },
        Card { rank: Rank::Three, suit: Suit::Spades },
        Card { rank: Rank::Four, suit: Suit::Spades },
        Card { rank: Rank::Six, suit: Suit::Spades },
        Card { rank: Rank::Eight, suit: Suit::Spades }];
    proof {
        assert(r@ =~= seq![(Card { rank: Rank::Two, suit: Suit::Diamonds }),
        (Card { rank: Rank::Three, suit: Suit::Spades }),
        (Card { rank: Rank::Four, suit: Suit::Spades }),
        (Card { rank: Rank::Six, suit: Suit::Spades }),
        (Card { rank: Rank::Eight, suit: Suit::Spades })]);
    }
    r
}

/// Fixture: `high_card_hand_3` under different suits.
pub fn high_card_hand_4() -> (r: CardVec)
    ensures
        r@ == seq![(Card { rank: Rank::Two, suit: Suit::Diamonds }),
        (Card { rank: Rank::Three, suit: Suit::Hearts }),
        (Card { rank: Rank::Four, suit: Suit::Spades }),
        (Card { rank: Rank::Six, suit: Suit::Spades }),
        (Card { rank: Rank::Eight, suit: Suit::Spades })],
{
    let r: CardVec = vec![Card { rank: Rank::Two, suit: Suit::Diamonds },
        Card { rank: Rank::Three, suit: Suit::Hearts },
        Card { rank: Rank::Four, suit: Suit::Spades },
        Card { rank: Rank::Six, suit: Suit::Spades },
        Card { rank: Rank::Eight, suit: Suit::Spades }];
    proof {
        assert(r@ =~= seq![(Card { rank: Rank::Two, suit: Suit::Diamonds }),
        (Card { rank: Rank::Three, suit: Suit::Hearts }),
        (Card { rank: Rank::Four, suit: Suit::Spades }),
        (Card { rank: Rank::Six, suit: Suit::Spades }),
        (Card { rank: Rank::Eight, suit: Suit::Spades })]);
    }
    r
}

/// Fixture: a pair below its kickers.
pub fn pair_hand() -> (r: CardVec)
    ensures
        r@ == seq![(Card { rank: Rank::Two, suit: Suit::Diamonds }),
        (Card { rank: Rank::Four, suit: Suit::Spades }),
        (Card { rank: Rank::Two, suit: Suit::Spades }),
        (Card { rank: Rank::Three, suit: Suit::Spades }),
        (Card { rank: Rank::Five, suit: Suit::Spades })],
{
    let r: CardVec = vec![Card { rank: Rank::Two, suit: Suit::Diamonds },
        Card { rank: Rank::Four, suit: Suit::Spades },
        Card { rank: Rank::Two, suit: Suit::Spades },
        Card { rank: Rank::Three, suit: Suit::Spades },
        Card { rank: Rank::Five, suit: Suit::Spades }];
    proof {
        assert(r@ =~= seq![(Card { rank: Rank::Two, suit: Suit::Diamonds }),
        (Card { rank: Rank::Four, suit: Suit::Spades }),
        (Card { rank: Rank::Two, suit: Suit::Spades }),
        (Card { rank: Rank::Three, suit: Suit::Spades }),
        (Card { rank: Rank::Five, suit: Suit::Spades })]);
    }
    r
}

/// Fixture: the kickers of `pair_hand`.
pub fn pair_kickers() -> (r: RankVec)
    ensures
        r@ == seq![Rank::Two,
        Rank::Five,
        Rank::Four,
        Rank::Three],
{
    let r: RankVec = vec![Rank::Two,
        Rank::Five,
        Rank::Four,
        Rank::Three];
    proof {
        assert(r@ =~= seq![Rank::Two,
        Rank::Five,
        Rank::Four,
        Rank::Three]);
    }
    r
}

/// Fixture: a pair between its kickers.
pub fn pair_hand_2() -> (r: CardVec)
    ensures
        r@ == seq![(Card { rank: Rank::Five, suit: Suit::Diamonds }),
        (Card { rank: Rank::Six, suit: Suit::Spades }),
        (Card { rank: Rank::Two, suit: Suit::Spades }),
        (Card { rank: Rank::Three, suit: Suit::Spades }),
        (Card { rank: Rank::Five, suit: Suit::Spades })],
{
    let r: CardVec = vec![Card { rank: Rank::Five, suit: Suit::Diamonds },
        Card { rank: Rank::Six, suit: Suit::Spades },
        Card { rank: Rank::Two, suit: Suit::Spades },
        Card { rank: Rank::Three, suit: Suit::Spades },
        Card { rank: Rank::Five, suit: Suit::Spades }];
    proof {
        assert(r@ =~= seq![(Card { rank: Rank::Five, suit: Suit::Diamonds }),
        (Card { rank: Rank::Six, suit: Suit::Spades }),
        (Card { rank: Rank::Two, suit: Suit::Spades }),
        (Card { rank: Rank::Three, suit: Suit::Spades }),
        (Card { rank: Rank::Five, suit: Suit::Spades })]);
    }
    r
}

/// Fixture: the kickers of `pair_hand_2`.
pub fn pair_2_kickers() -> (r: RankVec)
    ensures
        r@ == seq![Rank::Five,
        Rank::Six,
        Rank::Three,
        Rank::Two],
{
    let r: RankVec = vec![Rank::Five,
        Rank::Six,
        Rank::Three,
        Rank::Two];
    proof {
        assert(r@ =~= seq![Rank::Five,
        Rank::Six,
        Rank::Three,
        Rank::Two]);
    }
    r
}

/// Fixture: a pair above its kickers.
pub fn pair_hand_3() -> (r: CardVec)
    ensures
        r@ == seq![(Card { rank: Rank::Five, suit: Suit::Diamonds }),
        (Card { rank: Rank::Four, suit: Suit::Spades }),
        (Card { rank: Rank::Two, suit: Suit::Spades }),
        (Card { rank: Rank::Three, suit: Suit::Spades }),
        (Card { rank: Rank::Five, suit: Suit::Spades })],
{
    let r: CardVec = vec![Card { rank: Rank::Five, suit: Suit::Diamonds },
        Card { rank: Rank::Four, suit: Suit::Spades },
        Card { rank: Rank::Two, suit: Suit::Spades },
        Card { rank: Rank::Three, suit: Suit::Spades },
        Card { rank: Rank::Five, suit: Suit::Spades }];
    proof {
        assert(r@ =~= seq![(Card { rank: Rank::Five, suit: Suit::Diamonds }),
        (Card { rank: Rank::Four, suit: Suit::Spades }),
        (Card { rank: Rank::Two, suit: Suit::Spades }),
        (Card { rank: Rank::Three, suit: Suit::Spades }),
        (Card { rank: Rank::Five, suit: Suit::Spades })]);
    }
    r
}

/// Fixture: the kickers of `pair_hand_3`.
pub fn pair_3_kickers() -> (r: RankVec)
    ensures
        r@ == seq![Rank::Five,
        Rank::Four,
        Rank::Three,
        Rank::Two],
{
    let r: RankVec = vec![Rank::Five,
        Rank::Four,
        Rank::Three,
        Rank::Two];
    proof {
        assert(r@ =~= seq![Rank::Five,
        Rank::Four,
        Rank::Three,
        Rank::Two]);
    }
    r
}

/// Fixture: the lowest two-pair hand.
pub fn two_pair_hand() -> (r: CardVec)
    ensures
        r@ == seq![(Card { rank: Rank::Two, suit: Suit::Diamonds }),
        (Card { rank: Rank::Three, suit: Suit::Spades }),
        (Card { rank: Rank::Three, suit: Suit::Diamonds }),
        (Card { rank: Rank::Two, suit: Suit::Spades }),
        (Card { rank: Rank::Four, suit: Suit::Spades })],
{
    let r: CardVec = vec![Card { rank: Rank::Two, suit: Suit::Diamonds },
        Card { rank: Rank::Three, suit: Suit::Spades },
        Card { rank: Rank::Three, suit: Suit::Diamonds },
        Card { rank: Rank::Two, suit: Suit::Spades },
        Card { rank: Rank::Four, suit: Suit::Spades }];
    proof {
        assert(r@ =~= seq![(Card { rank: Rank::Two, suit: Suit::Diamonds }),
        (Card { rank: Rank::Three, suit: Suit::Spades }),
        (Card { rank: Rank::Three, suit: Suit::Diamonds }),
        (Card { rank: Rank::Two, suit: Suit::Spades }),
        (Card { rank: Rank::Four, suit: Suit::Spades })]);
    }
    r
}

/// Fixture: the kickers of `two_pair_hand`.
pub fn two_pair_kickers() -> (r: RankVec)
    ensures
        r@ == seq![Rank::Three,
        Rank::Two,
        Rank::Four],
{
    let r: RankVec = vec![Rank::Three,
        Rank::Two,
        Rank::Four];
    proof {
        assert(r@ =~= seq![Rank::Three,
        Rank::Two,
        Rank::Four]);
    }
    r
}

/// Fixture: aces and threes with a four kicker.
pub fn two_pair_hand_2() -> (r: CardVec)
    ensures
        r@ == seq![(Card { rank: Rank::Three, suit: Suit::Spades }),
        (Card { rank: Rank::Three, suit: Suit::Diamonds }),
        (Card { rank: Rank::Ace, suit: Suit::Diamonds }),
        (Card { rank: Rank::Ace, suit: Suit::Clubs }),
        (Card { rank: Rank::Four, suit: Suit::Spades })],
{
    let r: CardVec = vec![Card { rank: Rank::Three, suit: Suit::Spades },
        Card { rank: Rank::Three, suit: Suit::Diamonds },
        Card { rank: Rank::Ace, suit: Suit::Diamonds },
        Card { rank: Rank::Ace, suit: Suit::Clubs },
        Card { rank: Rank::Four, suit: Suit::Spades }];
    proof {
        assert(r@ =~= seq![(Card { rank: Rank::Three, suit: Suit::Spades }),
        (Card { rank: Rank::Three, suit: Suit::Diamonds }),
        (Card { rank: Rank::Ace, suit: Suit::Diamonds }),
        (Card { rank: Rank::Ace, suit: Suit::Clubs }),
        (Card { rank: Rank::Four, suit: Suit::Spades })]);
    }
    r
}

/// Fixture: aces and threes with a king kicker.
pub fn two_pair_hand_3() -> (r: CardVec)
    ensures
        r@ == seq![(Card { rank: Rank::Three, suit: Suit::Spades }),
        (Card { rank: Rank::Three, suit: Suit::Diamonds }),
        (Card { rank: Rank::Ace, suit: Suit::Diamonds }),
        (Card { rank: Rank::Ace, suit: Suit::Clubs }),
        (Card { rank: Rank::King, suit: Suit::Spades })],
{
    let r: CardVec = vec![Card { rank: Rank::Three, suit: Suit::Spades },
        Card { rank: Rank::Three, suit: Suit::Diamonds },
        Card { rank: Rank::Ace, suit: Suit::Diamonds },
        Card { rank: Rank::Ace, suit: Suit::Clubs },
        Card { rank: Rank::King, suit: Suit::Spades }];
    proof {
        assert(r@ =~= seq![(Card { rank: Rank::Three, suit: Suit::Spades }),
        (Card { rank: Rank::Three, suit: Suit::Diamonds }),
        (Card { rank: Rank::Ace, suit: Suit::Diamonds }),
        (Card { rank: Rank::Ace, suit: Suit::Clubs }),
        (Card { rank: Rank::King, suit: Suit::Spades })]);
    }
    r
}

/// Fixture: three twos.
pub fn three_of_a_kind_hand() -> (r: CardVec)
    ensures
        r@ == seq![(Card { rank: Rank::Two, suit: Suit::Diamonds }),
        (Card { rank: Rank::Two, suit: Suit::Spades }),
        (Card { rank: Rank::Two, suit: Suit::Hearts }),
        (Card { rank: Rank::Three, suit: Suit::Diamonds }),
        (Card { rank: Rank::Four, suit: Suit::Spades })],
{
    let r: CardVec = vec![Card { rank: Rank::Two, suit: Suit::Diamonds },
        Card { rank: Rank::Two, suit: Suit::Spades },
        Card { rank: Rank::Two, suit: Suit::Hearts },
        Card { rank: Rank::Three, suit: Suit::Diamonds },
        Card { rank: Rank::Four, suit: Suit::Spades }];
    proof {
        assert(r@ =~= seq![(Card { rank: Rank::Two, suit: Suit::Diamonds }),
        (Card { rank: Rank::Two, suit: Suit::Spades }),
        (Card { rank: Rank::Two, suit: Suit::Hearts }),
        (Card { rank: Rank::Three, suit: Suit::Diamonds }),
        (Card { rank: Rank::Four, suit: Suit::Spades })]);
    }
    r
}

/// Fixture: the kickers of `three_of_a_kind_hand`.
pub fn three_of_a_kind_kickers() -> (r: RankVec)
    ensures
        r@ == seq![Rank::Two,
        Rank::Four,
        Rank::Three],
{
    let r: RankVec = vec![Rank::Two,
        Rank::Four,
        Rank::Three];
    proof {
        assert(r@ =~= seq![Rank::Two,
        Rank::Four,
        Rank::Three]);
    }
    r
}

/// Fixture: three fours with a three kicker.
pub fn three_of_a_kind_hand_2() -> (r: CardVec)
    ensures
        r@ == seq![(Card { rank: Rank::Two, suit: Suit::Diamonds }),
        (Card { rank: Rank::Three, suit: Suit::Spades }),
        (Card { rank: Rank::Four, suit: Suit::Hearts }),
        (Card { rank: Rank::Four, suit: Suit::Diamonds }),
        (Card { rank: Rank::Four, suit: Suit::Spades })],
{
    let r: CardVec = vec![Card { rank: Rank::Two, suit: Suit::Diamonds },
        Card { rank: Rank::Three, suit: Suit::Spades },
        Card { rank: Rank::Four, suit: Suit::Hearts },
        Card { rank: Rank::Four, suit: Suit::Diamonds },
        Card { rank: Rank::Four, suit: Suit::Spades }];
    proof {
        assert(r@ =~= seq![(Card { rank: Rank::Two, suit: Suit::Diamonds }),
        (Card { rank: Rank::Three, suit: Suit::Spades }),
        (Card { rank: Rank::Four, suit: Suit::Hearts }),
        (Card { rank: Rank::Four, suit: Suit::Diamonds }),
        (Card { rank: Rank::Four, suit: Suit::Spades })]);
    }
    r
}

/// Fixture: three fours with an ace kicker.
pub fn three_of_a_kind_hand_3() -> (r: CardVec)
    ensures
        r@ == seq![(Card { rank: Rank::Two, suit: Suit::Diamonds }),
        (Card { rank: Rank::Ace, suit: Suit::Spades }),
        (Card { rank: Rank::Four, suit: Suit::Hearts }),
        (Card { rank: Rank::Four, suit: Suit::Diamonds }),
        (Card { rank: Rank::Four, suit: Suit::Spades })],
{
    let r: CardVec = vec![Card { rank: Rank::Two, suit: Suit::Diamonds },
        Card { rank: Rank::Ace, suit: Suit::Spades },
        Card { rank: Rank::Four, suit: Suit::Hearts },
        Card { rank: Rank::Four, suit: Suit::Diamonds },
        Card { rank: Rank::Four, suit: Suit::Spades }];
    proof {
        assert(r@ =~= seq![(Card { rank: Rank::Two, suit: Suit::Diamonds }),
        (Card { rank: Rank::Ace, suit: Suit::Spades }),
        (Card { rank: Rank::Four, suit: Suit::Hearts }),
        (Card { rank: Rank::Four, suit: Suit::Diamonds }),
        (Card { rank: Rank::Four, suit: Suit::Spades })]);
    }
    r
}

/// Fixture: a six-high straight.
pub fn straight_hand() -> (r: CardVec)
    ensures
        r@ == seq![(Card { rank: Rank::Three, suit: Suit::Diamonds }),
        (Card { rank: Rank::Two, suit: Suit::Spades }),
        (Card { rank: Rank::Five, suit: Suit::Spades }),
        (Card { rank: Rank::Four, suit: Suit::Hearts }),
        (Card { rank: Rank::Six, suit: Suit::Diamonds })],
{
    let r: CardVec = vec![Card { rank: Rank::Three, suit: Suit::Diamonds },
        Card { rank: Rank::Two, suit: Suit::Spades },
        Card { rank: Rank::Five, suit: Suit::Spades },
        Card { rank: Rank::Four, suit: Suit::Hearts },
        Card { rank: Rank::Six, suit: Suit::Diamonds }];
    proof {
        assert(r@ =~= seq![(Card { rank: Rank::Three, suit: Suit::Diamonds }),
        (Card { rank: Rank::Two, suit: Suit::Spades }),
        (Card { rank: Rank::Five, suit: Suit::Spades }),
        (Card { rank: Rank::Four, suit: Suit::Hearts }),
        (Card { rank: Rank::Six, suit: Suit::Diamonds })]);
    }
    r
}

/// Fixture: the kickers of `straight_hand`.
pub fn straight_kickers() -> (r: RankVec)
    ensures
        r@ == seq![Rank::Six],
{
    let r: RankVec = vec![Rank::Six];
    proof {
        assert(r@ =~= seq![Rank::Six]);
    }
    r
}

/// Fixture: the wheel: an ace-low straight.
pub fn wheel_straight_hand() -> (r: CardVec)
    ensures
        r@ == seq![(Card { rank: Rank::Three, suit: Suit::Diamonds }),
        (Card { rank: Rank::Two, suit: Suit::Spades }),
        (Card { rank: Rank::Four, suit: Suit::Hearts }),
        (Card { rank: Rank::Ace, suit: Suit::Diamonds }),
        (Card { rank: Rank::Five, suit: Suit::Spades })],
{
    let r: CardVec = vec![Card { rank: Rank::Three, suit: Suit::Diamonds },
        Card { rank: Rank::Two, suit: Suit::Spades },
        Card { rank: Rank::Four, suit: Suit::Hearts },
        Card { rank: Rank::Ace, suit: Suit::Diamonds },
        Card { rank: Rank::Five, suit: Suit::Spades }];
    proof {
        assert(r@ =~= seq![(Card { rank: Rank::Three, suit: Suit::Diamonds }),
        (Card { rank: Rank::Two, suit: Suit::Spades }),
        (Card { rank: Rank::Four, suit: Suit::Hearts }),
        (Card { rank: Rank::Ace, suit: Suit::Diamonds }),
        (Card { rank: Rank::Five, suit: Suit::Spades })]);
    }
    r
}

/// Fixture: the kickers of `wheel_straight_hand`.
pub fn wheel_straight_kickers() -> (r: RankVec)
    ensures
        r@ == seq![Rank::Five],
{
    let r: RankVec = vec![Rank::Five];
    proof {
        assert(r@ =~= seq![Rank::Five]);
    }
    r
}

/// Fixture: a seven-high flush.
pub fn flush_hand() -> (r: CardVec)
    ensures
        r@ == seq![(Card { rank: Rank::Two, suit: Suit::Spades }),
        (Card { rank: Rank::Three, suit: Suit::Spades }),
        (Card { rank: Rank::Four, suit: Suit::Spades }),
        (Card { rank: Rank::Five, suit: Suit::Spades }),
        (Card { rank: Rank::Seven, suit: Suit::Spades })],
{
    let r: CardVec = vec![Card { rank: Rank::Two, suit: Suit::Spades },
        Card { rank: Rank::Three, suit: Suit::Spades },
        Card { rank: Rank::Four, suit: Suit::Spades },
        Card { rank: Rank::Five, suit: Suit::Spades },
        Card { rank: Rank::Seven, suit: Suit::Spades }];
    proof {
        assert(r@ =~= seq![(Card { rank: Rank::Two, suit: Suit::Spades }),
        (Card { rank: Rank::Three, suit: Suit::Spades }),
        (Card { rank: Rank::Four, suit: Suit::Spades }),
        (Card { rank: Rank::Five, suit: Suit::Spades }),
        (Card { rank: Rank::Seven, suit: Suit::Spades })]);
    }
    r
}

/// Fixture: the kickers of `flush_hand`.
pub fn flush_kickers() -> (r: RankVec)
    ensures
        r@ == seq![Rank::Seven,
        Rank::Five,
        Rank::Four,
        Rank::Three,
        Rank::Two],
{
    let r: RankVec = vec![Rank::Seven,
        Rank::Five,
        Rank::Four,
        Rank::Three,
        Rank::Two];
    proof {
        assert(r@ =~= seq![Rank::Seven,
        Rank::Five,
        Rank::Four,
        Rank::Three,
        Rank::Two]);
    }
    r
}

/// Fixture: twos full of threes.
pub fn full_house_hand() -> (r: CardVec)
    ensures
        r@ == seq![(Card { rank: Rank::Two, suit: Suit::Diamonds }),
        (Card { rank: Rank::Two, suit: Suit::Spades }),
        (Card { rank: Rank::Three, suit: Suit::Diamonds }),
        (Card { rank: Rank::Three, suit: Suit::Spades }),
        (Card { rank: Rank::Two, suit: Suit::Hearts })],
{
    let r: CardVec = vec![Card { rank: Rank::Two, suit: Suit::Diamonds },
        Card { rank: Rank::Two, suit: Suit::Spades },
        Card { rank: Rank::Three, suit: Suit::Diamonds },
        Card { rank: Rank::Three, suit: Suit::Spades },
        Card { rank: Rank::Two, suit: Suit::Hearts }];
    proof {
        assert(r@ =~= seq![(Card { rank: Rank::Two, suit: Suit::Diamonds }),
        (Card { rank: Rank::Two, suit: Suit::Spades }),
        (Card { rank: Rank::Three, suit: Suit::Diamonds }),
        (Card { rank: Rank::Three, suit: Suit::Spades }),
        (Card { rank: Rank::Two, suit: Suit::Hearts })]);
    }
    r
}

/// Fixture: the kickers of `full_house_hand`.
pub fn full_house_kickers() -> (r: RankVec)
    ensures
        r@ == seq![Rank::Two,
        Rank::Three],
{
    let r: RankVec = vec![Rank::Two,
        Rank::Three];
    proof {
        assert(r@ =~= seq![Rank::Two,
        Rank::Three]);
    }
    r
}

/// Fixture: four twos.
pub fn four_of_a_kind_hand() -> (r: CardVec)
    ensures
        r@ == seq![(Card { rank: Rank::Two, suit: Suit::Diamonds }),
        (Card { rank: Rank::Two, suit: Suit::Hearts }),
        (Card { rank: Rank::Two, suit: Suit::Clubs }),
        (Card { rank: Rank::Three, suit: Suit::Diamonds }),
        (Card { rank: Rank::Two, suit: Suit::Spades })],
{
    let r: CardVec = vec![Card { rank: Rank::Two, suit: Suit::Diamonds },
        Card { rank: Rank::Two, suit: Suit::Hearts },
        Card { rank: Rank::Two, suit: Suit::Clubs },
        Card { rank: Rank::Three, suit: Suit::Diamonds },
        Card { rank: Rank::Two, suit: Suit::Spades }];
    proof {
        assert(r@ =~= seq![(Card { rank: Rank::Two, suit: Suit::Diamonds }),
        (Card { rank: Rank::Two, suit: Suit::Hearts }),
        (Card { rank: Rank::Two, suit: Suit::Clubs }),
        (Card { rank: Rank::Three, suit: Suit::Diamonds }),
        (Card { rank: Rank::Two, suit: Suit::Spades })]);
    }
    r
}

/// Fixture: the kickers of `four_of_a_kind_hand`.
pub fn four_of_a_kind_kickers() -> (r: RankVec)
    ensures
        r@ == seq![Rank::Two,
        Rank::Three],
{
    let r: RankVec = vec![Rank::Two,
        Rank::Three];
    proof {
        assert(r@ =~= seq![Rank::Two,
        Rank::Three]);
    }
    r
}

/// Fixture: a six-high straight flush.
pub fn straight_flush_hand() -> (r: CardVec)
    ensures
        r@ == seq![(Card { rank: Rank::Two, suit: Suit::Spades }),
        (Card { rank: Rank::Three, suit: Suit::Spades }),
        (Card { rank: Rank::Five, suit: Suit::Spades }),
        (Card { rank: Rank::Six, suit: Suit::Spades }),
        (Card { rank: Rank::Four, suit: Suit::Spades })],
{
    let r: CardVec = vec![Card { rank: Rank::Two, suit: Suit::Spades },
        Card { rank: Rank::Three, suit: Suit::Spades },
        Card { rank: Rank::Five, suit: Suit::Spades },
        Card { rank: Rank::Six, suit: Suit::Spades },
        Card { rank: Rank::Four, suit: Suit::Spades }];
    proof {
        assert(r@ =~= seq![(Card { rank: Rank::Two, suit: Suit::Spades }),
        (Card { rank: Rank::Three, suit: Suit::Spades }),
        (Card { rank: Rank::Five, suit: Suit::Spades }),
        (Card { rank: Rank::Six, suit: Suit::Spades }),
        (Card { rank: Rank::Four, suit: Suit::Spades })]);
    }
    r
}

/// Fixture: the kickers of `straight_flush_hand`.
pub fn straight_flush_kickers() -> (r: RankVec)
    ensures
        r@ == seq![Rank::Six],
{
    let r: RankVec = vec![Rank::Six];
    proof {
        assert(r@ =~= seq![Rank::Six]);
    }
    r
}

/// Fixture: an ace-low straight flush.
pub fn wheel_straight_flush_hand() -> (r: CardVec)
    ensures
        r@ == seq![(Card { rank: Rank::Two, suit: Suit::Spades }),
        (Card { rank: Rank::Three, suit: Suit::Spades }),
        (Card { rank: Rank::Five, suit: Suit::Spades }),
        (Card { rank: Rank::Ace, suit: Suit::Spades }),
        (Card { rank: Rank::Four, suit: Suit::Spades })],
{
    let r: CardVec = vec![Card { rank: Rank::Two, suit: Suit::Spades },
        Card { rank: Rank::Three, suit: Suit::Spades },
        Card { rank: Rank::Five, suit: Suit::Spades },
        Card { rank: Rank::Ace, suit: Suit::Spades },
        Card { rank: Rank::Four, suit: Suit::Spades }];
    proof {
        assert(r@ =~= seq![(Card { rank: Rank::Two, suit: Suit::Spades }),
        (Card { rank: Rank::Three, suit: Suit::Spades }),
        (Card { rank: Rank::Five, suit: Suit::Spades }),
        (Card { rank: Rank::Ace, suit: Suit::Spades }),
        (Card { rank: Rank::Four, suit: Suit::Spades })]);
    }
    r
}

/// Fixture: the kickers of `wheel_straight_flush_hand`.
pub fn wheel_straight_flush_kickers() -> (r: RankVec)
    ensures
        r@ == seq![Rank::Five],
{
    let r: RankVec = vec![Rank::Five];
    proof {
        assert(r@ =~= seq![Rank::Five]);
    }
    r
}

} // verus!
