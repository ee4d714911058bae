//! The 52-card deck: construction, shuffling, sequential dealing.

use vstd::prelude::*;
use rand::seq::SliceRandom;

use crate::card::{spec_ranks, spec_suits, ranks, suits, Card, CardVec};

verus! {

/// A stack of cards; dealing takes from the back.
#[derive(Debug)]
pub struct Deck {
    pub cards: CardVec,
}

/// The 52 cards of a fresh deck, grouped by suit, each suit running
/// Two to Ace.
pub open spec fn spec_fresh_deck() -> Seq<Card> {
    Seq::new(52, |i: int| (Card { suit: spec_suits()[i / 13], rank: spec_ranks()[i % 13] }))
}

impl Deck {
    /// Deal `count` cards off the back of the deck, most recently
    /// stacked card first.
    pub fn deal_cards(&mut self, count: u32) -> (dealt: CardVec)
        requires
            count <= old(self).cards@.len(),
        ensures
            final(self).cards@ == old(self).cards@.take(old(self).cards@.len() - count),
            dealt@.len() == count,
            forall|i: int| 0 <= i < count ==> dealt@[i] == old(self).cards@[old(
                self,
            ).cards@.len() - 1 - i],
    {
        let mut dealt: CardVec = Vec::new();
        let mut k: u32 = 0;
        while k < count
            invariant
                k <= count,
                count <= old(self).cards@.len(),
                self.cards@ == old(self).cards@.take(old(self).cards@.len() - k),
                dealt@.len() == k,
                forall|i: int| 0 <= i < k ==> dealt@[i] == old(self).cards@[old(
                    self,
                ).cards@.len() - 1 - i],
            decreases count - k,
        {
            let c = match self.cards.pop() {
                Some(c) => c,
                None => vstd::pervasive::unreached(),
            };
            dealt.push(c);
            proof {
                let glen = old(self).cards@.len();
                assert(self.cards@ =~= old(self).cards@.take(glen - (k + 1)));
            }
            k += 1;
        }
        dealt
    }

    /// Relies on rand's `SliceRandom::shuffle`: it permutes the slice
    /// in place. Which permutation comes out is left open.
    #[verifier::external_body]
    pub fn shuffle(&mut self)
        ensures
            final(self).cards@.len() == old(self).cards@.len(),
            final(self).cards@.to_multiset() == old(self).cards@.to_multiset(),
    {
        let mut rng = rand::rng();
        self.cards.shuffle(&mut rng);
    }
}

/// A fresh, unshuffled 52-card deck.
pub fn create_deck() -> (d: Deck)
    ensures
        d.cards@ == spec_fresh_deck(),
{
    let all_suits = suits();
    let all_ranks = ranks();
    let mut cards: CardVec = Vec::new();
    let mut si: usize = 0;
    while si < 4
        invariant
            si <= 4,
            all_suits@ == spec_suits(),
            all_ranks@ == spec_ranks(),
            cards@.len() == si * 13,
            forall|i: int| 0 <= i < cards@.len() ==> cards@[i] == spec_fresh_deck()[i],
        decreases 4 - si,
    {
        let mut ri: usize = 0;
        while ri < 13
            invariant
                si < 4,
                ri <= 13,
                all_suits@ == spec_suits(),
                all_ranks@ == spec_ranks(),
                cards@.len() == si * 13 + ri,
                forall|i: int| 0 <= i < cards@.len() ==> cards@[i] == spec_fresh_deck()[i],
            decreases 13 - ri,
        {
            cards.push(Card { suit: all_suits[si], rank: all_ranks[ri] });
            proof {
                let idx = (si * 13 + ri) as int;
                assert(idx / 13 == si && idx % 13 == ri) by (nonlinear_arith)
                    requires
                        0 <= si < 4,
                        0 <= ri < 13,
                        idx == si * 13 + ri,
                ;
                assert(cards@[idx] == spec_fresh_deck()[idx]);
            }
            ri += 1;
        }
        si += 1;
    }
    proof {
        assert(cards@ =~= spec_fresh_deck());
    }
    Deck { cards }
}

/// A fresh 52-card deck in a uniformly random order.
pub fn create_shuffled_deck() -> (d: Deck)
    ensures
        d.cards@.len() == 52,
        d.cards@.to_multiset() == spec_fresh_deck().to_multiset(),
{
    let mut d = create_deck();
    d.shuffle();
    d
}

} // verus!
