//! The five-card hand evaluator: classification into the nine
//! categories and derivation of the tie-break kickers.

use vstd::prelude::*;
use vstd::relations::{sorted_by, total_ordering};
use vstd::seq_lib::lemma_sorted_unique;

use crate::card::{Card, CardVec, Rank, RankVec};

verus! {

/// The nine hand categories, weakest first.
#[derive(Copy, Clone, Eq, PartialEq, Structural, Debug, Hash)]
pub enum HandRank {
    HighCard,
    Pair,
    TwoPair,
    ThreeOfAKind,
    Straight,
    Flush,
    FullHouse,
    FourOfAKind,
    StraightFlush,
}

impl HandRank {
    /// The strength of a category: HighCard is 0, StraightFlush is 8.
    pub open spec fn spec_val(self) -> int {
        match self {
            HandRank::HighCard => 0,
            HandRank::Pair => 1,
            HandRank::TwoPair => 2,
            HandRank::ThreeOfAKind => 3,
            HandRank::Straight => 4,
            HandRank::Flush => 5,
            HandRank::FullHouse => 6,
            HandRank::FourOfAKind => 7,
            HandRank::StraightFlush => 8,
        }
    }

    /// The strength of a category: HighCard is 0, StraightFlush is 8.
    pub fn val(self) -> (v: u32)
        ensures
            v == self.spec_val(),
    {
        match self {
            HandRank::HighCard => 0,
            HandRank::Pair => 1,
            HandRank::TwoPair => 2,
            HandRank::ThreeOfAKind => 3,
            HandRank::Straight => 4,
            HandRank::Flush => 5,
            HandRank::FullHouse => 6,
            HandRank::FourOfAKind => 7,
            HandRank::StraightFlush => 8,
        }
    }
}

/// All nine categories, weakest first.
pub open spec fn spec_hand_ranks() -> Seq<HandRank> {
    seq![
        HandRank::HighCard,
        HandRank::Pair,
        HandRank::TwoPair,
        HandRank::ThreeOfAKind,
        HandRank::Straight,
        HandRank::Flush,
        HandRank::FullHouse,
        HandRank::FourOfAKind,
        HandRank::StraightFlush,
    ]
}

/// All nine categories, weakest first.
pub fn hand_ranks() -> (r: [HandRank; 9])
    ensures
        r@ == spec_hand_ranks(),
{
    let r = [
        HandRank::HighCard,
        HandRank::Pair,
        HandRank::TwoPair,
        HandRank::ThreeOfAKind,
        HandRank::Straight,
        HandRank::Flush,
        HandRank::FullHouse,
        HandRank::FourOfAKind,
        HandRank::StraightFlush,
    ];
    proof {
        assert(r@ =~= spec_hand_ranks());
    }
    r
}

/// The categories rank strictly in the listed order: HighCard below
/// Pair below TwoPair below ThreeOfAKind below Straight below Flush
/// below FullHouse below FourOfAKind below StraightFlush.
pub proof fn lemma_hand_rank_order()
    ensures
        HandRank::HighCard.spec_val() < HandRank::Pair.spec_val()
            < HandRank::TwoPair.spec_val() < HandRank::ThreeOfAKind.spec_val()
            < HandRank::Straight.spec_val() < HandRank::Flush.spec_val()
            < HandRank::FullHouse.spec_val() < HandRank::FourOfAKind.spec_val()
            < HandRank::StraightFlush.spec_val(),
{
}

/// The rank values of a sequence of cards, in the cards' order.
pub open spec fn val_seq(cards: Seq<Card>) -> Seq<int> {
    cards.map_values(|c: Card| c.rank.spec_val())
}

/// The rank values of a sequence of cards, in ascending order.
pub open spec fn sorted_vals(cards: Seq<Card>) -> Seq<int> {
    val_seq(cards).sort()
}

/// The rank whose ordinal value is `v`.
pub open spec fn rank_of_val(v: int) -> Rank {
    if v == 0 {
        Rank::Two
    } else if v == 1 {
        Rank::Three
    } else if v == 2 {
        Rank::Four
    } else if v == 3 {
        Rank::Five
    } else if v == 4 {
        Rank::Six
    } else if v == 5 {
        Rank::Seven
    } else if v == 6 {
        Rank::Eight
    } else if v == 7 {
        Rank::Nine
    } else if v == 8 {
        Rank::Ten
    } else if v == 9 {
        Rank::Jack
    } else if v == 10 {
        Rank::Queen
    } else if v == 11 {
        Rank::King
    } else {
        Rank::Ace
    }
}

/// The ranks of a sequence of cards, in ascending order of value.
pub open spec fn sorted_ranks(cards: Seq<Card>) -> Seq<Rank> {
    sorted_vals(cards).map_values(|v: int| rank_of_val(v))
}

proof fn lemma_rank_of_val_roundtrip(r: Rank)
    ensures
        rank_of_val(r.spec_val()) == r,
{
}

/// Two ranks with one value are one rank.
pub proof fn lemma_rank_val_injective(a: Rank, b: Rank)
    requires
        a.spec_val() == b.spec_val(),
    ensures
        a == b,
{
}

/// Two categories with one strength are one category.
pub proof fn lemma_hand_rank_val_injective(a: HandRank, b: HandRank)
    requires
        a.spec_val() == b.spec_val(),
    ensures
        a == b,
{
}

/// Suits never influence the category or the kickers except through
/// the flush test: two five-card hands whose rank values agree card
/// for card, neither of which is of one suit, fall into one category
/// and carry one kicker sequence.
pub proof fn lemma_suits_never_matter(a: Seq<Card>, b: Seq<Card>)
    requires
        a.len() == 5,
        b.len() == 5,
        val_seq(a) == val_seq(b),
        !spec_is_flush(a),
        !spec_is_flush(b),
    ensures
        spec_rank_hand(a) == spec_rank_hand(b),
        spec_get_kickers(a, spec_rank_hand(a)) == spec_get_kickers(b, spec_rank_hand(b)),
        crate::hand::spec_cmp_hands(
            spec_rank_hand(a),
            spec_get_kickers(a, spec_rank_hand(a)),
            spec_rank_hand(b),
            spec_get_kickers(b, spec_rank_hand(b)),
        ) == core::cmp::Ordering::Equal,
{
    assert(sorted_vals(a) == sorted_vals(b));
    assert(sorted_ranks(a) == sorted_ranks(b));
    crate::hand::lemma_cmp_rank_seqs_refl(spec_get_kickers(a, spec_rank_hand(a)));
}

/// All five cards share one suit.
pub open spec fn spec_is_flush(cards: Seq<Card>) -> bool {
    forall|i: int| 0 <= i < cards.len() ==> #[trigger] cards[i].suit == cards[0].suit
}

/// Five ascending rank values form an unbroken run.
pub open spec fn consecutive_vals(sv: Seq<int>) -> bool {
    forall|k: int| 0 < k < 5 ==> #[trigger] sv[k] == sv[k - 1] + 1
}

/// The wheel: ranks Two, Three, Four, Five and Ace, the one straight
/// in which the Ace plays low.
pub open spec fn wheel_vals(sv: Seq<int>) -> bool {
    sv[0] == 0 && sv[1] == 1 && sv[2] == 2 && sv[3] == 3 && sv[4] == 12
}

/// Five ascending rank values form a straight.
pub open spec fn spec_is_straight_vals(sv: Seq<int>) -> bool {
    consecutive_vals(sv) || wheel_vals(sv)
}

/// No two of the five ascending rank values are equal.
pub open spec fn all_singles(sv: Seq<int>) -> bool {
    sv[0] != sv[1] && sv[1] != sv[2] && sv[2] != sv[3] && sv[3] != sv[4]
}

/// Four of the five ascending rank values are equal.
pub open spec fn has_quad(sv: Seq<int>) -> bool {
    (sv[0] == sv[1] && sv[1] == sv[2] && sv[2] == sv[3]) || (sv[1] == sv[2] && sv[2] == sv[3]
        && sv[3] == sv[4])
}

/// A run of three and a run of two in the five ascending rank values.
pub open spec fn has_full_house(sv: Seq<int>) -> bool {
    (sv[0] == sv[1] && sv[1] == sv[2] && sv[3] == sv[4] && sv[2] != sv[3]) || (sv[0] == sv[1]
        && sv[2] == sv[3] && sv[3] == sv[4] && sv[1] != sv[2])
}

/// Exactly three equal values, the other two single, in the five
/// ascending rank values.
pub open spec fn has_trips(sv: Seq<int>) -> bool {
    (sv[0] == sv[1] && sv[1] == sv[2] && sv[2] != sv[3] && sv[3] != sv[4]) || (sv[0] != sv[1]
        && sv[1] == sv[2] && sv[2] == sv[3] && sv[3] != sv[4]) || (sv[0] != sv[1] && sv[1] != sv[2]
        && sv[2] == sv[3] && sv[3] == sv[4])
}

/// Two runs of two and one single value in the five ascending rank
/// values.
pub open spec fn has_two_pair(sv: Seq<int>) -> bool {
    (sv[0] == sv[1] && sv[1] != sv[2] && sv[2] == sv[3] && sv[3] != sv[4]) || (sv[0] == sv[1]
        && sv[1] != sv[2] && sv[2] != sv[3] && sv[3] == sv[4]) || (sv[0] != sv[1] && sv[1] == sv[2]
        && sv[2] != sv[3] && sv[3] == sv[4])
}

/// Exactly one run of two, the other three values single, in the five
/// ascending rank values.
pub open spec fn has_pair(sv: Seq<int>) -> bool {
    (sv[0] == sv[1] && sv[1] != sv[2] && sv[2] != sv[3] && sv[3] != sv[4]) || (sv[0] != sv[1]
        && sv[1] == sv[2] && sv[2] != sv[3] && sv[3] != sv[4]) || (sv[0] != sv[1] && sv[1] != sv[2]
        && sv[2] == sv[3] && sv[3] != sv[4]) || (sv[0] != sv[1] && sv[1] != sv[2] && sv[2] != sv[3]
        && sv[3] == sv[4])
}

/// The category of a five-card hand, by the precedence StraightFlush,
/// FourOfAKind, FullHouse, Flush, Straight, ThreeOfAKind, TwoPair,
/// Pair, HighCard: the first whose pattern matches wins.
pub open spec fn spec_rank_hand(cards: Seq<Card>) -> HandRank {
    let sv = sorted_vals(cards);
    if all_singles(sv) && spec_is_flush(cards) && spec_is_straight_vals(sv) {
        HandRank::StraightFlush
    } else if has_quad(sv) {
        HandRank::FourOfAKind
    } else if has_full_house(sv) {
        HandRank::FullHouse
    } else if all_singles(sv) && spec_is_flush(cards) {
        HandRank::Flush
    } else if all_singles(sv) && spec_is_straight_vals(sv) {
        HandRank::Straight
    } else if has_trips(sv) {
        HandRank::ThreeOfAKind
    } else if has_two_pair(sv) {
        HandRank::TwoPair
    } else if has_pair(sv) {
        HandRank::Pair
    } else {
        HandRank::HighCard
    }
}

/// The tie-break kickers of a five-card hand of the given category,
/// most significant first. For a straight the single kicker is the
/// straight's high card, with the wheel reporting Five, not Ace; for
/// paired categories the grouped ranks come before the single ranks.
pub open spec fn spec_get_kickers(cards: Seq<Card>, hand_rank: HandRank) -> Seq<Rank> {
    let sv = sorted_vals(cards);
    let k = sorted_ranks(cards);
    match hand_rank {
        HandRank::HighCard | HandRank::Flush => seq![k[4], k[3], k[2], k[1], k[0]],
        HandRank::Straight | HandRank::StraightFlush => if sv[4] == 12 && sv[3] == 3 {
            seq![k[3]]
        } else {
            seq![k[4]]
        },
        HandRank::Pair => if sv[0] == sv[1] {
            seq![k[0], k[4], k[3], k[2]]
        } else if sv[1] == sv[2] {
            seq![k[1], k[4], k[3], k[0]]
        } else if sv[2] == sv[3] {
            seq![k[2], k[4], k[1], k[0]]
        } else {
            seq![k[3], k[2], k[1], k[0]]
        },
        HandRank::TwoPair => if sv[0] == sv[1] && sv[2] == sv[3] {
            seq![k[2], k[0], k[4]]
        } else if sv[0] == sv[1] {
            seq![k[3], k[0], k[2]]
        } else {
            seq![k[3], k[1], k[0]]
        },
        HandRank::ThreeOfAKind => if sv[0] == sv[2] {
            seq![k[0], k[4], k[3]]
        } else if sv[1] == sv[3] {
            seq![k[1], k[4], k[0]]
        } else {
            seq![k[2], k[1], k[0]]
        },
        HandRank::FullHouse => if sv[0] == sv[2] {
            seq![k[0], k[3]]
        } else {
            seq![k[2], k[0]]
        },
        HandRank::FourOfAKind => if sv[0] == sv[3] {
            seq![k[0], k[4]]
        } else {
            seq![k[1], k[0]]
        },
    }
}

proof fn lemma_to_multiset_insert<A>(s: Seq<A>, i: int, a: A)
    requires
        0 <= i <= s.len(),
    ensures
        s.insert(i, a).to_multiset() == s.to_multiset().insert(a),
{
    broadcast use vstd::seq_lib::group_to_multiset_ensures;
    broadcast use vstd::multiset::group_multiset_axioms;

    let t = s.insert(i, a);
    assert(t.remove(i) =~= s);
    assert(t[i] == a);
    assert(t.contains(a));
    assert(t.to_multiset().count(a) > 0);
    assert(t.remove(i).to_multiset() =~= t.to_multiset().remove(a));
    assert(t.to_multiset() =~= s.to_multiset().insert(a));
}

/// Copy the hand into ascending order of rank value by insertion
/// sort; suits ride along with their cards.
fn sorted_by_rank(cards: &Vec<Card>) -> (s: Vec<Card>)
    ensures
        s@.len() == cards@.len(),
        val_seq(s@) == sorted_vals(cards@),
        s@.to_multiset() == cards@.to_multiset(),
{
    let ghost leq = |x: int, y: int| x <= y;
    let mut out: Vec<Card> = Vec::new();
    let n = cards.len();
    let mut i: usize = 0;
    proof {
        assert(out@ =~= cards@.take(0));
        assert(val_seq(out@) =~= val_seq(cards@.take(0)));
    }
    while i < n
        invariant
            i <= n,
            n == cards@.len(),
            out@.len() == i,
            sorted_by(val_seq(out@), |x: int, y: int| x <= y),
            val_seq(out@).to_multiset() == val_seq(cards@.take(i as int)).to_multiset(),
            out@.to_multiset() == cards@.take(i as int).to_multiset(),
        decreases n - i,
    {
        let c = cards[i];
        let cv = c.rank.val();
        let mut p: usize = 0;
        while p < out.len() && out[p].rank.val() <= cv
            invariant
                p <= out@.len(),
                forall|j: int| 0 <= j < p ==> val_seq(out@)[j] <= cv as int,
            decreases out@.len() - p,
        {
            assert(val_seq(out@)[p as int] == out@[p as int].rank.spec_val());
            p += 1;
        }
        let ghost old_out = out@;
        out.insert(p, c);
        proof {
            broadcast use vstd::seq_lib::group_to_multiset_ensures;

            assert(val_seq(out@) =~= val_seq(old_out).insert(p as int, c.rank.spec_val()));
            assert(sorted_by(val_seq(out@), |x: int, y: int| x <= y)) by {
                let sv_old = val_seq(old_out);
                let sv_new = val_seq(out@);
                if p < old_out.len() {
                    assert(sv_old[p as int] == old_out[p as int].rank.spec_val());
                    assert(sv_old[p as int] > cv as int);
                }
                assert forall|a: int, b: int| 0 <= a < b < sv_new.len() implies (|x: int, y: int|
                    x <= y)(sv_new[a], sv_new[b]) by {
                    if a < p && b < p {
                        assert((|x: int, y: int| x <= y)(sv_old[a], sv_old[b]));
                    } else if a < p && b == p {
                        assert(sv_new[a] == sv_old[a]);
                    } else if a < p && b > p {
                        assert((|x: int, y: int| x <= y)(sv_old[a], sv_old[b - 1]));
                    } else if a == p && b > p {
                        if p < old_out.len() {
                            assert((|x: int, y: int| x <= y)(sv_old[p as int], sv_old[b - 1]));
                        }
                    } else {
                        assert((|x: int, y: int| x <= y)(sv_old[a - 1], sv_old[b - 1]));
                    }
                }
            }
            lemma_to_multiset_insert(val_seq(old_out), p as int, c.rank.spec_val());
            lemma_to_multiset_insert(old_out, p as int, c);
            assert(val_seq(cards@.take(i + 1)) =~= val_seq(cards@.take(i as int)).push(
                c.rank.spec_val(),
            ));
            assert(cards@.take(i + 1) =~= cards@.take(i as int).push(c));
        }
        i += 1;
    }
    proof {
        assert(cards@.take(n as int) =~= cards@);
        val_seq(cards@).lemma_sort_ensures();
        assert(total_ordering(|x: int, y: int| x <= y));
        lemma_sorted_unique(val_seq(out@), sorted_vals(cards@), |x: int, y: int| x <= y);
        assert(val_seq(out@) == sorted_vals(cards@));
    }
    out
}

/// Classify five cards into their hand category.
pub fn rank_hand(hand: &CardVec) -> (r: HandRank)
    requires
        hand@.len() == 5,
    ensures
        r == spec_rank_hand(hand@),
{
    let s = sorted_by_rank(hand);
    let v0 = s[0].rank.val();
    let v1 = s[1].rank.val();
    let v2 = s[2].rank.val();
    let v3 = s[3].rank.val();
    let v4 = s[4].rank.val();
    proof {
        let sv = sorted_vals(hand@);
        assert(val_seq(s@)[0] == s@[0].rank.spec_val());
        assert(val_seq(s@)[1] == s@[1].rank.spec_val());
        assert(val_seq(s@)[2] == s@[2].rank.spec_val());
        assert(val_seq(s@)[3] == s@[3].rank.spec_val());
        assert(val_seq(s@)[4] == s@[4].rank.spec_val());
    }
    let flush = is_flush(hand);
    let straight = (v1 == v0 + 1 && v2 == v1 + 1 && v3 == v2 + 1 && v4 == v3 + 1) || (v0 == 0 && v1
        == 1 && v2 == 2 && v3 == 3 && v4 == 12);
    proof {
        let sv = sorted_vals(hand@);
        assert(consecutive_vals(sv) <==> (sv[1] == sv[0] + 1 && sv[2] == sv[1] + 1 && sv[3] == sv[2]
            + 1 && sv[4] == sv[3] + 1));
    }
    let singles = v0 != v1 && v1 != v2 && v2 != v3 && v3 != v4;
    if singles && flush && straight {
        HandRank::StraightFlush
    } else if (v0 == v1 && v1 == v2 && v2 == v3) || (v1 == v2 && v2 == v3 && v3 == v4) {
        HandRank::FourOfAKind
    } else if (v0 == v1 && v1 == v2 && v3 == v4 && v2 != v3) || (v0 == v1 && v2 == v3 && v3 == v4
        && v1 != v2) {
        HandRank::FullHouse
    } else if singles && flush {
        HandRank::Flush
    } else if singles && straight {
        HandRank::Straight
    } else if (v0 == v1 && v1 == v2 && v2 != v3 && v3 != v4) || (v0 != v1 && v1 == v2 && v2 == v3
        && v3 != v4) || (v0 != v1 && v1 != v2 && v2 == v3 && v3 == v4) {
        HandRank::ThreeOfAKind
    } else if (v0 == v1 && v1 != v2 && v2 == v3 && v3 != v4) || (v0 == v1 && v1 != v2 && v2 != v3
        && v3 == v4) || (v0 != v1 && v1 == v2 && v2 != v3 && v3 == v4) {
        HandRank::TwoPair
    } else if (v0 == v1 && v1 != v2 && v2 != v3 && v3 != v4) || (v0 != v1 && v1 == v2 && v2 != v3
        && v3 != v4) || (v0 != v1 && v1 != v2 && v2 == v3 && v3 != v4) || (v0 != v1 && v1 != v2
        && v2 != v3 && v3 == v4) {
        HandRank::Pair
    } else {
        HandRank::HighCard
    }
}

/// All five cards share one suit.
fn is_flush(hand: &CardVec) -> (r: bool)
    requires
        hand@.len() == 5,
    ensures
        r == spec_is_flush(hand@),
{
    let s0 = hand[0].suit;
    let r = hand[1].suit == s0 && hand[2].suit == s0 && hand[3].suit == s0 && hand[4].suit == s0;
    proof {
        if r {
            assert forall|i: int| 0 <= i < hand@.len() implies #[trigger] hand@[i].suit
                == hand@[0].suit by {
                assert(i == 0 || i == 1 || i == 2 || i == 3 || i == 4);
            }
        }
    }
    r
}

/// The tie-break kickers of a five-card hand whose category is
/// `hand_rank`, most significant first.
pub fn get_kickers(hand: &CardVec, hand_rank: HandRank) -> (ks: RankVec)
    requires
        hand@.len() == 5,
        hand_rank == spec_rank_hand(hand@),
    ensures
        ks@ == spec_get_kickers(hand@, hand_rank),
{
    let s = sorted_by_rank(hand);
    let v0 = s[0].rank.val();
    let v1 = s[1].rank.val();
    let v2 = s[2].rank.val();
    let v3 = s[3].rank.val();
    let v4 = s[4].rank.val();
    let r0 = s[0].rank;
    let r1 = s[1].rank;
    let r2 = s[2].rank;
    let r3 = s[3].rank;
    let r4 = s[4].rank;
    proof {
        let sv = sorted_vals(hand@);
        let k = sorted_ranks(hand@);
        assert(val_seq(s@)[0] == s@[0].rank.spec_val());
        assert(val_seq(s@)[1] == s@[1].rank.spec_val());
        assert(val_seq(s@)[2] == s@[2].rank.spec_val());
        assert(val_seq(s@)[3] == s@[3].rank.spec_val());
        assert(val_seq(s@)[4] == s@[4].rank.spec_val());
        lemma_rank_of_val_roundtrip(r0);
        lemma_rank_of_val_roundtrip(r1);
        lemma_rank_of_val_roundtrip(r2);
        lemma_rank_of_val_roundtrip(r3);
        lemma_rank_of_val_roundtrip(r4);
        assert(k[0] == rank_of_val(sv[0]));
        assert(k[1] == rank_of_val(sv[1]));
        assert(k[2] == rank_of_val(sv[2]));
        assert(k[3] == rank_of_val(sv[3]));
        assert(k[4] == rank_of_val(sv[4]));
    }
    let ks: RankVec = match hand_rank {
        HandRank::HighCard | HandRank::Flush => vec![r4, r3, r2, r1, r0],
        HandRank::Straight | HandRank::StraightFlush => {
            if v4 == 12 && v3 == 3 {
                vec![r3]
            } else {
                vec![r4]
            }
        },
        HandRank::Pair => {
            if v0 == v1 {
                vec![r0, r4, r3, r2]
            } else if v1 == v2 {
                vec![r1, r4, r3, r0]
            } else if v2 == v3 {
                vec![r2, r4, r1, r0]
            } else {
                vec![r3, r2, r1, r0]
            }
        },
        HandRank::TwoPair => {
            if v0 == v1 && v2 == v3 {
                vec![r2, r0, r4]
            } else if v0 == v1 {
                vec![r3, r0, r2]
            } else {
                vec![r3, r1, r0]
            }
        },
        HandRank::ThreeOfAKind => {
            if v0 == v2 {
                vec![r0, r4, r3]
            } else if v1 == v3 {
                vec![r1, r4, r0]
            } else {
                vec![r2, r1, r0]
            }
        },
        HandRank::FullHouse => {
            if v0 == v2 {
                vec![r0, r3]
            } else {
                vec![r2, r0]
            }
        },
        HandRank::FourOfAKind => {
            if v0 == v3 {
                vec![r0, r4]
            } else {
                vec![r1, r0]
            }
        },
    };
    proof {
        assert(ks@ =~= spec_get_kickers(hand@, hand_rank));
    }
    ks
}

} // verus!
