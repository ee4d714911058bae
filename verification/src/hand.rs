//! A ranked five-card hand and the search for the best five cards
//! out of a larger set.

use vstd::prelude::*;
use core::cmp::Ordering;
use itertools::Itertools;

use crate::card::{Card, CardVec, Rank, RankVec};
use crate::hand_rankings::{
    get_kickers, rank_hand, spec_get_kickers, spec_rank_hand, HandRank,
};

verus! {

/// A five-card hand together with its category and tie-break
/// kickers. Two hands compare by category first, then by kickers,
/// most significant kicker first; the cards themselves (and so the
/// suits) never enter the comparison.
#[derive(Clone, Debug)]
pub struct Hand {
    pub cards: CardVec,
    pub hand_rank: HandRank,
    pub kickers: RankVec,
}

/// Lexicographic comparison of two kicker sequences, by rank value,
/// first entry most significant; a strict prefix is the smaller side.
pub open spec fn spec_cmp_rank_seqs(a: Seq<Rank>, b: Seq<Rank>) -> Ordering
    decreases a.len() + b.len(),
{
    if a.len() == 0 && b.len() == 0 {
        Ordering::Equal
    } else if a.len() == 0 {
        Ordering::Less
    } else if b.len() == 0 {
        Ordering::Greater
    } else if a[0].spec_val() < b[0].spec_val() {
        Ordering::Less
    } else if a[0].spec_val() > b[0].spec_val() {
        Ordering::Greater
    } else {
        spec_cmp_rank_seqs(a.drop_first(), b.drop_first())
    }
}

/// Comparison of two evaluated hands: category first, kickers after.
pub open spec fn spec_cmp_hands(
    rank1: HandRank,
    kickers1: Seq<Rank>,
    rank2: HandRank,
    kickers2: Seq<Rank>,
) -> Ordering {
    if rank1.spec_val() < rank2.spec_val() {
        Ordering::Less
    } else if rank1.spec_val() > rank2.spec_val() {
        Ordering::Greater
    } else {
        spec_cmp_rank_seqs(kickers1, kickers2)
    }
}

/// One evaluated hand is no stronger than another.
pub open spec fn hand_le(
    rank1: HandRank,
    kickers1: Seq<Rank>,
    rank2: HandRank,
    kickers2: Seq<Rank>,
) -> bool {
    spec_cmp_hands(rank1, kickers1, rank2, kickers2) != Ordering::Greater
}

/// A kicker sequence compares equal to itself.
pub proof fn lemma_cmp_rank_seqs_refl(a: Seq<Rank>)
    ensures
        spec_cmp_rank_seqs(a, a) == Ordering::Equal,
    decreases a.len(),
{
    if a.len() > 0 {
        lemma_cmp_rank_seqs_refl(a.drop_first());
    }
}

proof fn lemma_cmp_rank_seqs_trans(a: Seq<Rank>, b: Seq<Rank>, c: Seq<Rank>)
    requires
        spec_cmp_rank_seqs(a, b) != Ordering::Greater,
        spec_cmp_rank_seqs(b, c) != Ordering::Greater,
    ensures
        spec_cmp_rank_seqs(a, c) != Ordering::Greater,
    decreases a.len() + b.len() + c.len(),
{
    if a.len() == 0 {
    } else {
        if a[0].spec_val() == b[0].spec_val() && b[0].spec_val() == c[0].spec_val() {
            lemma_cmp_rank_seqs_trans(a.drop_first(), b.drop_first(), c.drop_first());
        }
    }
}

proof fn lemma_cmp_rank_seqs_antisym(a: Seq<Rank>, b: Seq<Rank>)
    ensures
        (spec_cmp_rank_seqs(a, b) == Ordering::Less) == (spec_cmp_rank_seqs(b, a)
            == Ordering::Greater),
        (spec_cmp_rank_seqs(a, b) == Ordering::Equal) == (spec_cmp_rank_seqs(b, a)
            == Ordering::Equal),
    decreases a.len() + b.len(),
{
    if a.len() > 0 && b.len() > 0 && a[0].spec_val() == b[0].spec_val() {
        lemma_cmp_rank_seqs_antisym(a.drop_first(), b.drop_first());
    }
}

/// Of two evaluated hands, at least one is no stronger than the
/// other, and one that is not the stronger is no stronger.
pub proof fn lemma_hand_le_total(
    rank1: HandRank,
    kickers1: Seq<Rank>,
    rank2: HandRank,
    kickers2: Seq<Rank>,
)
    ensures
        hand_le(rank1, kickers1, rank2, kickers2) || hand_le(rank2, kickers2, rank1, kickers1),
        spec_cmp_hands(rank1, kickers1, rank2, kickers2) != Ordering::Less ==> hand_le(
            rank2,
            kickers2,
            rank1,
            kickers1,
        ),
{
    lemma_cmp_rank_seqs_antisym(kickers1, kickers2);
}

/// The hand order is transitive.
pub proof fn lemma_hand_le_trans(
    rank1: HandRank,
    kickers1: Seq<Rank>,
    rank2: HandRank,
    kickers2: Seq<Rank>,
    rank3: HandRank,
    kickers3: Seq<Rank>,
)
    requires
        hand_le(rank1, kickers1, rank2, kickers2),
        hand_le(rank2, kickers2, rank3, kickers3),
    ensures
        hand_le(rank1, kickers1, rank3, kickers3),
{
    if rank1.spec_val() == rank2.spec_val() && rank2.spec_val() == rank3.spec_val() {
        lemma_cmp_rank_seqs_trans(kickers1, kickers2, kickers3);
    }
}

/// Element-wise equality of two rank vectors.
fn rank_vecs_equal(a: &RankVec, b: &RankVec) -> (r: bool)
    ensures
        r == (a@ == b@),
{
    if a.len() != b.len() {
        return false;
    }
    let n = a.len();
    let mut i: usize = 0;
    while i < n
        invariant
            i <= n,
            n == a@.len(),
            n == b@.len(),
            forall|j: int| 0 <= j < i ==> a@[j] == b@[j],
        decreases n - i,
    {
        if a[i] != b[i] {
            return false;
        }
        i += 1;
    }
    proof {
        assert(a@ =~= b@);
    }
    true
}

/// Lexicographic comparison of two rank vectors.
fn cmp_rank_vecs(a: &RankVec, b: &RankVec) -> (o: Ordering)
    ensures
        o == spec_cmp_rank_seqs(a@, b@),
{
    let alen = a.len();
    let blen = b.len();
    let mut i: usize = 0;
    proof {
        assert(a@.subrange(0, alen as int) =~= a@);
        assert(b@.subrange(0, blen as int) =~= b@);
    }
    while i < alen && i < blen
        invariant
            i <= alen,
            i <= blen,
            alen == a@.len(),
            blen == b@.len(),
            spec_cmp_rank_seqs(a@, b@) == spec_cmp_rank_seqs(
                a@.subrange(i as int, alen as int),
                b@.subrange(i as int, blen as int),
            ),
        decreases alen - i,
    {
        let av = a[i].val();
        let bv = b[i].val();
        proof {
            assert(a@.subrange(i as int, alen as int)[0] == a@[i as int]);
            assert(b@.subrange(i as int, blen as int)[0] == b@[i as int]);
        }
        if av < bv {
            return Ordering::Less;
        }
        if av > bv {
            return Ordering::Greater;
        }
        proof {
            assert(a@.subrange(i + 1, alen as int) =~= a@.subrange(
                i as int,
                alen as int,
            ).drop_first());
            assert(b@.subrange(i + 1, blen as int) =~= b@.subrange(
                i as int,
                blen as int,
            ).drop_first());
        }
        i += 1;
    }
    proof {
        if i == alen {
            assert(a@.subrange(i as int, alen as int) =~= Seq::<Rank>::empty());
        }
        if i == blen {
            assert(b@.subrange(i as int, blen as int) =~= Seq::<Rank>::empty());
        }
    }
    if alen == blen {
        Ordering::Equal
    } else if alen < blen {
        Ordering::Less
    } else {
        Ordering::Greater
    }
}

impl vstd::std_specs::cmp::PartialEqSpecImpl for Hand {
    open spec fn obeys_eq_spec() -> bool {
        true
    }

    open spec fn eq_spec(&self, other: &Hand) -> bool {
        self.hand_rank == other.hand_rank && self.kickers@ == other.kickers@
    }
}

impl PartialEq for Hand {
    fn eq(&self, other: &Hand) -> (r: bool) {
        self.hand_rank == other.hand_rank && rank_vecs_equal(&self.kickers, &other.kickers)
    }
}

impl vstd::std_specs::cmp::PartialOrdSpecImpl for Hand {
    open spec fn obeys_partial_cmp_spec() -> bool {
        true
    }

    open spec fn partial_cmp_spec(&self, other: &Hand) -> Option<Ordering> {
        Some(spec_cmp_hands(self.hand_rank, self.kickers@, other.hand_rank, other.kickers@))
    }
}

impl PartialOrd for Hand {
    fn partial_cmp(&self, other: &Hand) -> (r: Option<Ordering>) {
        let v1 = self.hand_rank.val();
        let v2 = other.hand_rank.val();
        if v1 < v2 {
            Some(Ordering::Less)
        } else if v1 > v2 {
            Some(Ordering::Greater)
        } else {
            Some(cmp_rank_vecs(&self.kickers, &other.kickers))
        }
    }
}

/// Evaluate five cards into a `Hand`: the cards as given, their
/// category, and the category's kickers.
pub fn init_hand(cards: CardVec) -> (h: Hand)
    requires
        cards@.len() == 5,
    ensures
        h.cards@ == cards@,
        h.hand_rank == spec_rank_hand(cards@),
        h.kickers@ == spec_get_kickers(cards@, h.hand_rank),
{
    let hand_rank = rank_hand(&cards);
    let kickers = get_kickers(&cards, hand_rank);
    Hand { cards, hand_rank, kickers }
}

/// The five cards of `s` at the ascending positions `i0` .. `i4`.
pub open spec fn pick5(s: Seq<Card>, i0: int, i1: int, i2: int, i3: int, i4: int) -> Seq<Card> {
    seq![s[i0], s[i1], s[i2], s[i3], s[i4]]
}

/// `sub` is a five-card combination of `all`: its cards stand at five
/// ascending positions of `all`.
pub open spec fn is_pick5_of(sub: Seq<Card>, all: Seq<Card>) -> bool {
    exists|i0: int, i1: int, i2: int, i3: int, i4: int|
        #![trigger pick5(all, i0, i1, i2, i3, i4)]
        0 <= i0 < i1 < i2 < i3 < i4 < all.len() && sub == pick5(all, i0, i1, i2, i3, i4)
}

/// Relies on itertools' `combinations`: it yields the 5-element
/// combinations of the input, each keeping the input's order, and
/// yields every such combination.
#[verifier::external_body]
fn combinations5(cards: &Vec<Card>) -> (r: Vec<Vec<Card>>)
    ensures
        forall|j: int| 0 <= j < r@.len() ==> is_pick5_of(#[trigger] r@[j]@, cards@),
        forall|i0: int, i1: int, i2: int, i3: int, i4: int|
            #![trigger pick5(cards@, i0, i1, i2, i3, i4)]
            0 <= i0 < i1 < i2 < i3 < i4 < cards@.len() ==> exists|j: int|
                0 <= j < r@.len() && r@[j]@ == pick5(cards@, i0, i1, i2, i3, i4),
{
    cards.iter().cloned().combinations(5).collect()
}

fn copy_cards(v: &Vec<Card>) -> (r: Vec<Card>)
    ensures
        r@ == v@,
{
    let mut r: Vec<Card> = Vec::new();
    let n = v.len();
    let mut i: usize = 0;
    while i < n
        invariant
            i <= n,
            n == v@.len(),
            r@ == v@.take(i as int),
        decreases n - i,
    {
        r.push(v[i]);
        proof {
            assert(r@ =~= v@.take(i + 1));
        }
        i += 1;
    }
    proof {
        assert(v@.take(n as int) =~= v@);
    }
    r
}

/// Search the best five-card hand among all five-card combinations
/// of the given cards: `None` when fewer than five cards are given,
/// otherwise a combination whose evaluation no other combination
/// beats. The winning category and kickers are unique; where several
/// combinations tie for them, which combination supplies the cards is
/// left open.
pub fn find_best_hand(cards: CardVec) -> (r: Option<Hand>)
    ensures
        r is Some <==> cards@.len() >= 5,
        r matches Some(h) ==> {
            &&& is_pick5_of(h.cards@, cards@)
            &&& h.hand_rank == spec_rank_hand(h.cards@)
            &&& h.kickers@ == spec_get_kickers(h.cards@, h.hand_rank)
            &&& forall|i0: int, i1: int, i2: int, i3: int, i4: int|
                #![trigger pick5(cards@, i0, i1, i2, i3, i4)]
                0 <= i0 < i1 < i2 < i3 < i4 < cards@.len() ==> hand_le(
                    spec_rank_hand(pick5(cards@, i0, i1, i2, i3, i4)),
                    spec_get_kickers(
                        pick5(cards@, i0, i1, i2, i3, i4),
                        spec_rank_hand(pick5(cards@, i0, i1, i2, i3, i4)),
                    ),
                    h.hand_rank,
                    h.kickers@,
                )
        },
{
    if cards.len() < 5 {
        return None;
    }
    let combos = combinations5(&cards);
    proof {
        let p = pick5(cards@, 0, 1, 2, 3, 4);
        assert(exists|j: int| 0 <= j < combos@.len() && combos@[j]@ == pick5(
            cards@,
            0,
            1,
            2,
            3,
            4,
        ));
    }
    proof {
        lemma_pick5_len(combos@, cards@, 0);
    }
    let first = copy_cards(&combos[0]);
    let mut best = init_hand(first);
    let mut j: usize = 1;
    proof {
        lemma_cmp_rank_seqs_refl(best.kickers@);
    }
    while j < combos.len()
        invariant
            1 <= j <= combos@.len(),
            cards@.len() >= 5,
            forall|j2: int| 0 <= j2 < combos@.len() ==> is_pick5_of(#[trigger] combos@[j2]@, cards@),
            is_pick5_of(best.cards@, cards@),
            best.cards@.len() == 5,
            best.hand_rank == spec_rank_hand(best.cards@),
            best.kickers@ == spec_get_kickers(best.cards@, best.hand_rank),
            forall|j2: int| 0 <= j2 < j ==> hand_le(
                spec_rank_hand(#[trigger] combos@[j2]@),
                spec_get_kickers(combos@[j2]@, spec_rank_hand(combos@[j2]@)),
                best.hand_rank,
                best.kickers@,
            ),
        decreases combos@.len() - j,
    {
        proof {
            lemma_pick5_len(combos@, cards@, j as int);
        }
        let cv = copy_cards(&combos[j]);
        let cand = init_hand(cv);
        let ghost old_best = best;
        let replace = match cand.partial_cmp(&best) {
            Some(Ordering::Less) => false,
            _ => true,
        };
        if replace {
            best = cand;
        }
        proof {
            if replace {
                assert forall|j2: int| 0 <= j2 < j + 1 implies hand_le(
                    spec_rank_hand(#[trigger] combos@[j2]@),
                    spec_get_kickers(combos@[j2]@, spec_rank_hand(combos@[j2]@)),
                    best.hand_rank,
                    best.kickers@,
                ) by {
                    lemma_hand_le_total(
                        best.hand_rank,
                        best.kickers@,
                        old_best.hand_rank,
                        old_best.kickers@,
                    );
                    if j2 < j {
                        lemma_hand_le_trans(
                            spec_rank_hand(combos@[j2]@),
                            spec_get_kickers(combos@[j2]@, spec_rank_hand(combos@[j2]@)),
                            old_best.hand_rank,
                            old_best.kickers@,
                            best.hand_rank,
                            best.kickers@,
                        );
                    } else {
                        lemma_cmp_rank_seqs_refl(best.kickers@);
                    }
                }
            }
        }
        j += 1;
    }
    proof {
        assert forall|i0: int, i1: int, i2: int, i3: int, i4: int|
            0 <= i0 < i1 < i2 < i3 < i4 < cards@.len() implies hand_le(
            spec_rank_hand(#[trigger] pick5(cards@, i0, i1, i2, i3, i4)),
            spec_get_kickers(
                pick5(cards@, i0, i1, i2, i3, i4),
                spec_rank_hand(pick5(cards@, i0, i1, i2, i3, i4)),
            ),
            best.hand_rank,
            best.kickers@,
        ) by {
            let jj = choose|jj: int| 0 <= jj < combos@.len() && combos@[jj]@ == pick5(
                cards@,
                i0,
                i1,
                i2,
                i3,
                i4,
            );
        }
    }
    Some(best)
}

/// Two kicker sequences that compare equal are equal.
pub proof fn lemma_cmp_rank_seqs_equal(a: Seq<Rank>, b: Seq<Rank>)
    requires
        spec_cmp_rank_seqs(a, b) == Ordering::Equal,
    ensures
        a == b,
    decreases a.len() + b.len(),
{
    if a.len() == 0 || b.len() == 0 {
        assert(a =~= b);
    } else {
        crate::hand_rankings::lemma_rank_val_injective(a[0], b[0]);
        lemma_cmp_rank_seqs_equal(a.drop_first(), b.drop_first());
        assert(a.len() == b.len());
        assert forall|i: int| 0 <= i < a.len() implies a[i] == b[i] by {
            if i > 0 {
                assert(a[i] == a.drop_first()[i - 1]);
                assert(b[i] == b.drop_first()[i - 1]);
            }
        }
        assert(a =~= b);
    }
}

/// `(hr, ks)` is the evaluation of the best five-card hand inside
/// `cards`: some five-card combination evaluates to it, and no
/// five-card combination beats it.
pub open spec fn is_best_eval(cards: Seq<Card>, hr: HandRank, ks: Seq<Rank>) -> bool {
    &&& exists|sub: Seq<Card>|
        #![trigger is_pick5_of(sub, cards)]
        is_pick5_of(sub, cards) && hr == spec_rank_hand(sub) && ks == spec_get_kickers(sub, hr)
    &&& forall|i0: int, i1: int, i2: int, i3: int, i4: int|
        #![trigger pick5(cards, i0, i1, i2, i3, i4)]
        0 <= i0 < i1 < i2 < i3 < i4 < cards.len() ==> hand_le(
            spec_rank_hand(pick5(cards, i0, i1, i2, i3, i4)),
            spec_get_kickers(
                pick5(cards, i0, i1, i2, i3, i4),
                spec_rank_hand(pick5(cards, i0, i1, i2, i3, i4)),
            ),
            hr,
            ks,
        )
}

/// The best evaluation of a set of cards is unique.
pub proof fn lemma_best_eval_unique(
    cards: Seq<Card>,
    hr1: HandRank,
    ks1: Seq<Rank>,
    hr2: HandRank,
    ks2: Seq<Rank>,
)
    requires
        is_best_eval(cards, hr1, ks1),
        is_best_eval(cards, hr2, ks2),
    ensures
        hr1 == hr2,
        ks1 == ks2,
{
    let sub1 = choose|sub: Seq<Card>|
        #![trigger is_pick5_of(sub, cards)]
        is_pick5_of(sub, cards) && hr1 == spec_rank_hand(sub) && ks1 == spec_get_kickers(sub, hr1);
    let (i0, i1, i2, i3, i4) = choose|i0: int, i1: int, i2: int, i3: int, i4: int|
        #![trigger pick5(cards, i0, i1, i2, i3, i4)]
        0 <= i0 < i1 < i2 < i3 < i4 < cards.len() && sub1 == pick5(cards, i0, i1, i2, i3, i4);
    assert(sub1 == pick5(cards, i0, i1, i2, i3, i4));
    assert(hand_le(hr1, ks1, hr2, ks2));
    let sub2 = choose|sub: Seq<Card>|
        #![trigger is_pick5_of(sub, cards)]
        is_pick5_of(sub, cards) && hr2 == spec_rank_hand(sub) && ks2 == spec_get_kickers(sub, hr2);
    let (j0, j1, j2, j3, j4) = choose|j0: int, j1: int, j2: int, j3: int, j4: int|
        #![trigger pick5(cards, j0, j1, j2, j3, j4)]
        0 <= j0 < j1 < j2 < j3 < j4 < cards.len() && sub2 == pick5(cards, j0, j1, j2, j3, j4);
    assert(sub2 == pick5(cards, j0, j1, j2, j3, j4));
    assert(hand_le(hr2, ks2, hr1, ks1));
    lemma_cmp_rank_seqs_antisym(ks1, ks2);
    crate::hand_rankings::lemma_hand_rank_val_injective(hr1, hr2);
    lemma_cmp_rank_seqs_equal(ks1, ks2);
}

proof fn lemma_pick5_len(combos: Seq<Vec<Card>>, cards: Seq<Card>, j: int)
    requires
        0 <= j < combos.len(),
        is_pick5_of(combos[j]@, cards),
    ensures
        combos[j]@.len() == 5,
{
    let (i0, i1, i2, i3, i4) = choose|i0: int, i1: int, i2: int, i3: int, i4: int|
        #![trigger pick5(cards, i0, i1, i2, i3, i4)]
        0 <= i0 < i1 < i2 < i3 < i4 < cards.len() && combos[j]@ == pick5(
            cards,
            i0,
            i1,
            i2,
            i3,
            i4,
        );
    assert(combos[j]@ == pick5(cards, i0, i1, i2, i3, i4));
}

} // verus!
