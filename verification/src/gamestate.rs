//! The per-hand betting state machine: seats, blinds, streets, the
//! pot, and settlement.

use vstd::prelude::*;

use crate::card::{Card, CardVec};
use crate::deck::{create_deck, create_shuffled_deck, spec_fresh_deck, Deck};
use crate::hand::{
    hand_le, is_best_eval, is_pick5_of, find_best_hand, lemma_best_eval_unique,
    lemma_cmp_rank_seqs_equal, lemma_hand_le_total, lemma_hand_le_trans, Hand,
};
use crate::hand_rankings::HandRank;
use crate::card::Rank;
use crate::player::{
    spec_amount_of, spec_clamped, spec_last_bet, Player, PlayerAction, PlayerId, PlayerVec,
};

verus! {

/// The forced bets, fixed for the session.
#[derive(Debug)]
pub struct Blinds {
    pub sb: u32,
    pub bb: u32,
    pub ante: Option<u32>,
}

/// Chips wagered this hand, with the ids of the players who put them
/// in.
#[derive(Clone, Debug)]
pub struct Pot {
    pub chips: u32,
    pub participants: Vec<PlayerId>,
}

/// The betting phases of a hand, in playing order, with the showdown
/// closing the hand.
#[derive(Copy, Clone, Debug, Eq, PartialEq, Structural)]
pub enum Street {
    PreFlop,
    Flop,
    Turn,
    River,
    Showdown,
}

/// The table: players in seat order, the pot, the board, and the
/// seat indices that drive the rotation.
#[derive(Debug)]
pub struct GameState {
    pub players: PlayerVec,
    pub blinds: Blinds,
    pub pot: Pot,
    pub sidepots: Vec<Pot>,
    pub deck: Deck,
    pub button: usize,
    pub small_blind: usize,
    pub big_blind: usize,
    pub player_to_act: usize,
    pub current_bet: Option<u32>,
    pub board: CardVec,
    pub street: Street,
    pub hand_count: u32,
}

/// The chips held in the players' stacks together.
pub open spec fn sum_chips(players: Seq<Player>) -> int
    decreases players.len(),
{
    if players.len() == 0 {
        0
    } else {
        sum_chips(players.drop_last()) + players.last().chips
    }
}

/// The chips held in a list of pots together.
pub open spec fn sum_pot_chips(pots: Seq<Pot>) -> int
    decreases pots.len(),
{
    if pots.len() == 0 {
        0
    } else {
        sum_pot_chips(pots.drop_last()) + pots.last().chips
    }
}

/// How many players still hold chips.
pub open spec fn count_with_chips(players: Seq<Player>) -> int
    decreases players.len(),
{
    if players.len() == 0 {
        0
    } else {
        count_with_chips(players.drop_last()) + if players.last().chips > 0 {
            1int
        } else {
            0int
        }
    }
}

/// How many players are still in the hand.
pub open spec fn count_in_hand(players: Seq<Player>) -> int
    decreases players.len(),
{
    if players.len() == 0 {
        0
    } else {
        count_in_hand(players.drop_last()) + if players.last().in_hand {
            1int
        } else {
            0int
        }
    }
}

/// No id occurs twice.
pub open spec fn unique_ids(ids: Seq<PlayerId>) -> bool {
    forall|i: int, j: int| 0 <= i < j < ids.len() ==> ids[i] != ids[j]
}

/// No two players share an id.
pub open spec fn unique_player_ids(players: Seq<Player>) -> bool {
    forall|i: int, j: int|
        0 <= i < j < players.len() ==> (#[trigger] players[i].id) != (#[trigger] players[j].id)
}

/// The seven cards a player can build a hand from at showdown: the
/// board and their two hole cards.
pub open spec fn spec_seven(board: Seq<Card>, p: Player) -> Seq<Card> {
    board + p.hole_cards->Some_0@
}

/// Seat `i` holds a player who is still in the hand and contributed
/// to the pot.
pub open spec fn is_live_participant(
    players: Seq<Player>,
    participants: Seq<PlayerId>,
    i: int,
) -> bool {
    0 <= i < players.len() && players[i].in_hand && participants.contains(players[i].id)
}

/// `winners` with the shared evaluation `(hr, ks)` settles a pot
/// correctly: the winners are ids of live participants whose best
/// five-card evaluation is `(hr, ks)`, that evaluation dominates
/// every live participant's best evaluation, every live participant
/// achieving it is among the winners, and the first winner listed is
/// the one at the lowest seat.
pub open spec fn spec_winners(
    players: Seq<Player>,
    participants: Seq<PlayerId>,
    board: Seq<Card>,
    winners: Seq<PlayerId>,
    hr: HandRank,
    ks: Seq<Rank>,
) -> bool {
    &&& winners.len() >= 1
    &&& unique_ids(winners)
    &&& forall|k: int| 0 <= k < winners.len() ==> exists|i: int|
        is_live_participant(players, participants, i) && players[i].id == #[trigger] winners[k]
            && is_best_eval(spec_seven(board, players[i]), hr, ks)
    &&& forall|i: int, hr2: HandRank, ks2: Seq<Rank>|
        is_live_participant(players, participants, i) && #[trigger] is_best_eval(
            spec_seven(board, players[i]),
            hr2,
            ks2,
        ) ==> hand_le(hr2, ks2, hr, ks)
    &&& forall|i: int|
        is_live_participant(players, participants, i) && #[trigger] is_best_eval(
            spec_seven(board, players[i]),
            hr,
            ks,
        ) ==> winners.contains(players[i].id)
    &&& exists|i0: int|
        is_live_participant(players, participants, i0) && players[i0].id == winners[0]
            && #[trigger] is_best_eval(spec_seven(board, players[i0]), hr, ks) && (forall|i: int|
            0 <= i < i0 && is_live_participant(players, participants, i) ==> !is_best_eval(
                spec_seven(board, players[i]),
                hr,
                ks,
            ))
}

/// The seat after `i`, wrapping past the last seat to seat 0.
pub open spec fn spec_next_seat(i: int, len: int) -> int {
    if i + 1 >= len {
        0
    } else {
        i + 1
    }
}

/// The seat `k` steps after seat `i`, for `k` at most one full turn.
pub open spec fn spec_seat_add(i: int, k: int, len: int) -> int {
    if i + k < len {
        i + k
    } else {
        i + k - len
    }
}

/// How many steps lead from seat `from` forward to seat `to`; a full
/// turn when the two are the same seat.
pub open spec fn spec_cyc_dist(from: int, to: int, len: int) -> int {
    if to > from {
        to - from
    } else {
        to - from + len
    }
}

impl GameState {
    /// All chips on the table: the stacks, the pot, and any side
    /// pots.
    pub open spec fn total_chips(self) -> int {
        sum_chips(self.players@) + self.pot.chips + sum_pot_chips(self.sidepots@)
    }

    /// Well-formedness: seats within range, blinds positive, no
    /// duplicate pot participants, no side pots (never populated
    /// here), and all chips together within half the `u32` range, so
    /// that no bet, raise or payout can overflow.
    pub open spec fn wf(self) -> bool {
        &&& 1 <= self.players@.len() <= 10
        &&& self.button < self.players@.len()
        &&& self.small_blind < self.players@.len()
        &&& self.big_blind < self.players@.len()
        &&& self.player_to_act < self.players@.len()
        &&& self.blinds.sb >= 1
        &&& self.blinds.bb >= 1
        &&& unique_player_ids(self.players@)
        &&& unique_ids(self.pot.participants@)
        &&& self.sidepots@.len() == 0
        &&& self.total_chips() <= 0x7fff_ffff
    }
}

proof fn lemma_sum_chips_nonneg(s: Seq<Player>)
    ensures
        sum_chips(s) >= 0,
    decreases s.len(),
{
    if s.len() > 0 {
        lemma_sum_chips_nonneg(s.drop_last());
    }
}

proof fn lemma_sum_chips_elem(s: Seq<Player>, i: int)
    requires
        0 <= i < s.len(),
    ensures
        s[i].chips <= sum_chips(s),
    decreases s.len(),
{
    if i == s.len() - 1 {
        lemma_sum_chips_nonneg(s.drop_last());
    } else {
        lemma_sum_chips_elem(s.drop_last(), i);
    }
}

proof fn lemma_sum_chips_update(s: Seq<Player>, i: int, p: Player)
    requires
        0 <= i < s.len(),
    ensures
        sum_chips(s.update(i, p)) == sum_chips(s) - s[i].chips + p.chips,
    decreases s.len(),
{
    let t = s.update(i, p);
    if i == s.len() - 1 {
        assert(t.drop_last() =~= s.drop_last());
    } else {
        assert(t.drop_last() =~= s.drop_last().update(i, p));
        assert(t.last() == s.last());
        lemma_sum_chips_update(s.drop_last(), i, p);
    }
}

proof fn lemma_count_in_hand_update(s: Seq<Player>, i: int, p: Player)
    requires
        0 <= i < s.len(),
    ensures
        count_in_hand(s.update(i, p)) == count_in_hand(s) - (if s[i].in_hand {
            1int
        } else {
            0int
        }) + (if p.in_hand {
            1int
        } else {
            0int
        }),
    decreases s.len(),
{
    let t = s.update(i, p);
    if i == s.len() - 1 {
        assert(t.drop_last() =~= s.drop_last());
    } else {
        assert(t.drop_last() =~= s.drop_last().update(i, p));
        assert(t.last() == s.last());
        lemma_count_in_hand_update(s.drop_last(), i, p);
    }
}

proof fn lemma_count_in_hand_exists(s: Seq<Player>)
    requires
        count_in_hand(s) > 0,
    ensures
        exists|i: int| 0 <= i < s.len() && s[i].in_hand,
    decreases s.len(),
{
    if s.len() > 0 {
        if s.last().in_hand {
            assert(s[s.len() - 1].in_hand);
        } else {
            lemma_count_in_hand_exists(s.drop_last());
            let i = choose|i: int| 0 <= i < s.drop_last().len() && s.drop_last()[i].in_hand;
            assert(s[i].in_hand);
        }
    }
}

proof fn lemma_sum_chips_pointwise(s: Seq<Player>, t: Seq<Player>)
    requires
        s.len() == t.len(),
        forall|i: int| 0 <= i < s.len() ==> s[i].chips == t[i].chips,
    ensures
        sum_chips(s) == sum_chips(t),
    decreases s.len(),
{
    if s.len() > 0 {
        assert(forall|i: int|
            0 <= i < s.drop_last().len() ==> s.drop_last()[i].chips == t.drop_last()[i].chips);
        lemma_sum_chips_pointwise(s.drop_last(), t.drop_last());
    }
}

proof fn lemma_count_in_hand_pointwise(s: Seq<Player>, t: Seq<Player>)
    requires
        s.len() == t.len(),
        forall|i: int| 0 <= i < s.len() ==> s[i].in_hand == t[i].in_hand,
    ensures
        count_in_hand(s) == count_in_hand(t),
    decreases s.len(),
{
    if s.len() > 0 {
        assert(forall|i: int|
            0 <= i < s.drop_last().len() ==> s.drop_last()[i].in_hand == t.drop_last()[i].in_hand);
        lemma_count_in_hand_pointwise(s.drop_last(), t.drop_last());
    }
}

proof fn lemma_sum_chips_filter(s: Seq<Player>)
    ensures
        sum_chips(s.filter(|p: Player| p.chips > 0)) == sum_chips(s),
    decreases s.len(),
{
    reveal(Seq::filter);
    if s.len() > 0 {
        lemma_sum_chips_filter(s.drop_last());
        let f = s.filter(|p: Player| p.chips > 0);
        let fd = s.drop_last().filter(|p: Player| p.chips > 0);
        if s.last().chips > 0 {
            assert(f == fd.push(s.last()));
            assert(f.drop_last() =~= fd);
            assert(f.last() == s.last());
        }
    }
}

/// An empty pot with no participants.
pub fn init_pot() -> (p: Pot)
    ensures
        p.chips == 0,
        p.participants@.len() == 0,
{
    Pot { chips: 0, participants: Vec::new() }
}

/// The session's blinds; the spec fixes both as positive.
pub fn init_blinds(sb: u32, bb: u32, ante: Option<u32>) -> (b: Blinds)
    requires
        sb >= 1,
        bb >= 1,
    ensures
        b.sb == sb,
        b.bb == bb,
        b.ante == ante,
{
    Blinds { sb, bb, ante }
}

/// A fresh table around the given roster: empty pot, unshuffled
/// deck, button at seat 0, hand count 0, pre-flop. The roster must
/// hold two to ten players.
pub fn init_game_state(players: Vec<Player>, blinds: Blinds) -> (gs: GameState)
    requires
        2 <= players@.len() <= 10,
        sum_chips(players@) <= 0x7fff_ffff,
        unique_player_ids(players@),
        blinds.sb >= 1,
        blinds.bb >= 1,
    ensures
        gs.players@ == players@,
        gs.blinds.sb == blinds.sb,
        gs.blinds.bb == blinds.bb,
        gs.blinds.ante == blinds.ante,
        gs.pot.chips == 0,
        gs.pot.participants@.len() == 0,
        gs.sidepots@.len() == 0,
        gs.deck.cards@ == spec_fresh_deck(),
        gs.button == 0,
        gs.small_blind == 1,
        gs.big_blind == if players@.len() > 2 {
            2int
        } else {
            0int
        },
        gs.player_to_act == if players@.len() > 3 {
            3int
        } else if players@.len() == 3 {
            0int
        } else {
            1int
        },
        gs.current_bet is None,
        gs.board@.len() == 0,
        gs.street == Street::PreFlop,
        gs.hand_count == 0,
        gs.wf(),
{
    let len = players.len();
    let small_blind: usize = 1;
    let big_blind: usize = if len > 2 {
        2
    } else {
        0
    };
    let player_to_act: usize = if len > 3 {
        3
    } else if len == 3 {
        0
    } else {
        1
    };
    let gs = GameState {
        players,
        blinds,
        pot: init_pot(),
        sidepots: Vec::new(),
        deck: create_deck(),
        button: 0,
        small_blind,
        big_blind,
        player_to_act,
        current_bet: None,
        board: Vec::new(),
        street: Street::PreFlop,
        hand_count: 0,
    };
    gs
}

impl GameState {
    /// How many players still hold chips.
    pub fn num_players_with_chips(&self) -> (n: u32)
        requires
            self.players@.len() <= 10,
        ensures
            n == count_with_chips(self.players@),
    {
        let len = self.players.len();
        let mut n: u32 = 0;
        let mut i: usize = 0;
        while i < len
            invariant
                i <= len,
                len == self.players@.len() <= 10,
                n == count_with_chips(self.players@.take(i as int)),
                n <= i,
            decreases len - i,
        {
            proof {
                assert(self.players@.take(i + 1).drop_last() =~= self.players@.take(i as int));
                assert(self.players@.take(i + 1).last() == self.players@[i as int]);
            }
            if self.players[i].chips > 0 {
                n += 1;
            }
            i += 1;
        }
        proof {
            assert(self.players@.take(len as int) =~= self.players@);
        }
        n
    }

    /// How many players are still in the hand.
    pub fn num_hand_participants(&self) -> (n: u32)
        requires
            self.players@.len() <= 10,
        ensures
            n == count_in_hand(self.players@),
    {
        let len = self.players.len();
        let mut n: u32 = 0;
        let mut i: usize = 0;
        while i < len
            invariant
                i <= len,
                len == self.players@.len() <= 10,
                n == count_in_hand(self.players@.take(i as int)),
                n <= i,
            decreases len - i,
        {
            proof {
                assert(self.players@.take(i + 1).drop_last() =~= self.players@.take(i as int));
                assert(self.players@.take(i + 1).last() == self.players@[i as int]);
            }
            if self.players[i].in_hand {
                n += 1;
            }
            i += 1;
        }
        proof {
            assert(self.players@.take(len as int) =~= self.players@);
        }
        n
    }

    /// The session goes on while more than one player is seated and
    /// somebody still holds chips.
    pub fn game_continuing(&self) -> (r: bool)
        requires
            self.players@.len() <= 10,
        ensures
            r == (self.players@.len() > 1 && count_with_chips(self.players@) > 0),
    {
        self.players.len() > 1 && self.num_players_with_chips() > 0
    }

    /// The hand goes on while more than one player is in it and the
    /// showdown has not been reached.
    pub fn round_continuing(&self) -> (r: bool)
        requires
            self.players@.len() <= 10,
        ensures
            r == (count_in_hand(self.players@) > 1 && self.street != Street::Showdown),
    {
        self.num_hand_participants() > 1 && !matches!(self.street, Street::Showdown)
    }

    /// Start a hand: fresh pot, fresh shuffled deck, the hand counter
    /// stepped (saturating at its maximum), street back to pre-flop,
    /// the board cleared, and every player's per-hand flags reset.
    /// Stacks and seat indices stay.
    pub fn init_round(&mut self)
        ensures
            final(self).players@.len() == old(self).players@.len(),
            forall|i: int| 0 <= i < old(self).players@.len() ==> final(self).players@[i] == (Player {
                hole_cards: None,
                last_action: None,
                in_hand: true,
                all_in: false,
                ..old(self).players@[i]
            }),
            final(self).pot.chips == 0,
            final(self).pot.participants@.len() == 0,
            final(self).sidepots@.len() == 0,
            final(self).deck.cards@.len() == 52,
            final(self).deck.cards@.to_multiset() == spec_fresh_deck().to_multiset(),
            final(self).hand_count == if old(self).hand_count < u32::MAX {
                old(self).hand_count + 1
            } else {
                old(self).hand_count as int
            },
            final(self).street == Street::PreFlop,
            final(self).board@.len() == 0,
            final(self).blinds == old(self).blinds,
            final(self).button == old(self).button,
            final(self).small_blind == old(self).small_blind,
            final(self).big_blind == old(self).big_blind,
            final(self).player_to_act == old(self).player_to_act,
            final(self).current_bet == old(self).current_bet,
            sum_chips(final(self).players@) == sum_chips(old(self).players@),
    {
        self.pot = init_pot();
        self.deck = create_shuffled_deck();
        if self.hand_count < u32::MAX {
            self.hand_count = self.hand_count + 1;
        }
        self.street = Street::PreFlop;
        self.sidepots = Vec::new();
        self.board = Vec::new();

        let ghost pre = *self;
        let len = self.players.len();
        let mut i: usize = 0;
        while i < len
            invariant
                i <= len,
                len == self.players@.len(),
                len == old(self).players@.len(),
                self.pot == pre.pot,
                self.deck == pre.deck,
                self.hand_count == pre.hand_count,
                self.street == pre.street,
                self.sidepots == pre.sidepots,
                self.board == pre.board,
                self.blinds == pre.blinds,
                self.button == pre.button,
                self.small_blind == pre.small_blind,
                self.big_blind == pre.big_blind,
                self.player_to_act == pre.player_to_act,
                self.current_bet == pre.current_bet,
                forall|j: int| 0 <= j < i ==> self.players@[j] == (Player {
                    hole_cards: None,
                    last_action: None,
                    in_hand: true,
                    all_in: false,
                    ..old(self).players@[j]
                }),
                forall|j: int| i <= j < len ==> self.players@[j] == old(self).players@[j],
            decreases len - i,
        {
            self.players[i].init_for_round();
            i += 1;
        }
        proof {
            lemma_sum_chips_pointwise(self.players@, old(self).players@);
        }
    }

    /// Close a hand: players whose stacks reached zero leave the
    /// table; the order of the rest is kept, and no chips move.
    pub fn end_round(&mut self)
        ensures
            final(self).players@ == old(self).players@.filter(|p: Player| p.chips > 0),
            sum_chips(final(self).players@) == sum_chips(old(self).players@),
            final(self).players@.len() <= old(self).players@.len(),
            final(self).blinds == old(self).blinds,
            final(self).pot == old(self).pot,
            final(self).sidepots == old(self).sidepots,
            final(self).board == old(self).board,
            final(self).street == old(self).street,
            final(self).hand_count == old(self).hand_count,
            final(self).button == old(self).button,
            final(self).small_blind == old(self).small_blind,
            final(self).big_blind == old(self).big_blind,
            final(self).player_to_act == old(self).player_to_act,
            final(self).deck == old(self).deck,
            final(self).current_bet == old(self).current_bet,
    {
        let len = self.players.len();
        let mut kept: PlayerVec = Vec::new();
        let mut i: usize = 0;
        proof {
            reveal(Seq::filter);
            assert(old(self).players@.take(0) =~= Seq::<Player>::empty());
        }
        while i < len
            invariant
                i <= len,
                len == old(self).players@.len(),
                self.players@ =~= old(self).players@.skip(i as int),
                self.pot == old(self).pot,
                self.sidepots == old(self).sidepots,
                self.board == old(self).board,
                self.blinds == old(self).blinds,
                self.street == old(self).street,
                self.hand_count == old(self).hand_count,
                self.button == old(self).button,
                self.current_bet == old(self).current_bet,
                self.small_blind == old(self).small_blind,
                self.big_blind == old(self).big_blind,
                self.player_to_act == old(self).player_to_act,
                self.deck == old(self).deck,
                kept@ == old(self).players@.take(i as int).filter(|p: Player| p.chips > 0),
            decreases len - i,
        {
            proof {
                reveal(Seq::filter);
                assert(old(self).players@.take(i + 1).drop_last() =~= old(self).players@.take(
                    i as int,
                ));
                assert(old(self).players@.take(i + 1).last() == old(self).players@[i as int]);
            }
            let p = self.players.remove(0);
            proof {
                assert(p == old(self).players@[i as int]);
                assert(self.players@ =~= old(self).players@.skip(i + 1));
            }
            if p.chips > 0 {
                kept.push(p);
            }
            i += 1;
        }
        proof {
            assert(old(self).players@.take(len as int) =~= old(self).players@);
            lemma_sum_chips_filter(old(self).players@);
            old(self).players@.lemma_filter_len(|p: Player| p.chips > 0);
        }
        self.players = kept;
    }
}

/// The seat `k` steps after seat `i`, wrapping once.
fn seat_add(i: usize, k: usize, len: usize) -> (r: usize)
    requires
        1 <= len <= 0x1000,
        i < len,
        k <= len,
    ensures
        r == spec_seat_add(i as int, k as int, len as int),
        r < len,
{
    if i + k < len {
        i + k
    } else {
        i + k - len
    }
}

proof fn lemma_contains_push(s: Seq<PlayerId>, x: PlayerId, y: PlayerId)
    ensures
        s.push(x).contains(y) <==> (s.contains(y) || y == x),
{
    if s.contains(y) {
        let i = choose|i: int| 0 <= i < s.len() && s[i] == y;
        assert(s.push(x)[i] == y);
    }
    if y == x {
        assert(s.push(x)[s.len() as int] == y);
    }
    if s.push(x).contains(y) {
        let i = choose|i: int| 0 <= i < s.push(x).len() && s.push(x)[i] == y;
        if i < s.len() {
            assert(s[i] == y);
        }
    }
}

/// Whether an id already stands in a list of ids.
fn contains_id(ids: &Vec<PlayerId>, id: PlayerId) -> (r: bool)
    ensures
        r == ids@.contains(id),
{
    let len = ids.len();
    let mut i: usize = 0;
    while i < len
        invariant
            i <= len,
            len == ids@.len(),
            forall|j: int| 0 <= j < i ==> ids@[j] != id,
        decreases len - i,
    {
        if ids[i] == id {
            return true;
        }
        i += 1;
    }
    false
}

impl GameState {
    /// Advance the button one seat, wrapping, and derive the small
    /// blind, big blind and first player to act as the next three
    /// seats after it, in that order.
    pub fn rotate_button(&mut self)
        requires
            1 <= old(self).players@.len() <= 10,
            old(self).button <= 10,
        ensures
            *final(self) == (GameState {
                button: final(self).button,
                small_blind: final(self).small_blind,
                big_blind: final(self).big_blind,
                player_to_act: final(self).player_to_act,
                ..*old(self)
            }),
            final(self).button == spec_next_seat(
                old(self).button as int,
                old(self).players@.len() as int,
            ),
            final(self).small_blind == spec_next_seat(
                final(self).button as int,
                old(self).players@.len() as int,
            ),
            final(self).big_blind == spec_next_seat(
                final(self).small_blind as int,
                old(self).players@.len() as int,
            ),
            final(self).player_to_act == spec_next_seat(
                final(self).big_blind as int,
                old(self).players@.len() as int,
            ),
            final(self).button < old(self).players@.len(),
            final(self).small_blind < old(self).players@.len(),
            final(self).big_blind < old(self).players@.len(),
            final(self).player_to_act < old(self).players@.len(),
    {
        let len = self.players.len();
        self.button = if self.button + 1 >= len {
            0
        } else {
            self.button + 1
        };
        self.small_blind = if self.button + 1 >= len {
            0
        } else {
            self.button + 1
        };
        self.big_blind = if self.small_blind + 1 >= len {
            0
        } else {
            self.small_blind + 1
        };
        self.player_to_act = if self.big_blind + 1 >= len {
            0
        } else {
            self.big_blind + 1
        };
    }

    /// Deal two hole cards to every player, in seat order, off the
    /// back of the deck.
    pub fn deal_hands(&mut self)
        requires
            old(self).players@.len() * 2 <= old(self).deck.cards@.len(),
        ensures
            final(self).players@.len() == old(self).players@.len(),
            forall|i: int| 0 <= i < old(self).players@.len() ==> {
                let p = #[trigger] final(self).players@[i];
                let dlen = old(self).deck.cards@.len();
                &&& p.id == old(self).players@[i].id
                &&& p.name == old(self).players@[i].name
                &&& p.chips == old(self).players@[i].chips
                &&& p.last_action == old(self).players@[i].last_action
                &&& p.in_hand == old(self).players@[i].in_hand
                &&& p.all_in == old(self).players@[i].all_in
                &&& p.hole_cards matches Some(h) && h@ == seq![
                    old(self).deck.cards@[dlen - 1 - 2 * i],
                    old(self).deck.cards@[dlen - 2 - 2 * i],
                ]
            },
            final(self).deck.cards@ == old(self).deck.cards@.take(
                old(self).deck.cards@.len() - 2 * old(self).players@.len(),
            ),
            *final(self) == (GameState {
                players: final(self).players,
                deck: final(self).deck,
                ..*old(self)
            }),
            sum_chips(final(self).players@) == sum_chips(old(self).players@),
            count_in_hand(final(self).players@) == count_in_hand(old(self).players@),
    {
        let ghost pre = *self;
        let len = self.players.len();
        let mut i: usize = 0;
        while i < len
            invariant
                i <= len,
                len == self.players@.len(),
                len == old(self).players@.len(),
                len * 2 <= old(self).deck.cards@.len(),
                self.deck.cards@ == old(self).deck.cards@.take(
                    old(self).deck.cards@.len() - 2 * i,
                ),
                forall|j: int| i <= j < len ==> self.players@[j] == old(self).players@[j],
                forall|j: int| 0 <= j < i ==> {
                    let p = #[trigger] self.players@[j];
                    let dlen = old(self).deck.cards@.len();
                    &&& p.id == old(self).players@[j].id
                    &&& p.name == old(self).players@[j].name
                    &&& p.chips == old(self).players@[j].chips
                    &&& p.last_action == old(self).players@[j].last_action
                    &&& p.in_hand == old(self).players@[j].in_hand
                    &&& p.all_in == old(self).players@[j].all_in
                    &&& p.hole_cards matches Some(h) && h@ == seq![
                        old(self).deck.cards@[dlen - 1 - 2 * j],
                        old(self).deck.cards@[dlen - 2 - 2 * j],
                    ]
                },
                self.pot == pre.pot,
                self.sidepots == pre.sidepots,
                self.board == pre.board,
                self.blinds == pre.blinds,
                self.street == pre.street,
                self.hand_count == pre.hand_count,
                self.button == pre.button,
                self.small_blind == pre.small_blind,
                self.big_blind == pre.big_blind,
                self.player_to_act == pre.player_to_act,
                self.current_bet == pre.current_bet,
            decreases len - i,
        {
            let cards = self.deck.deal_cards(2);
            proof {
                let dlen = old(self).deck.cards@.len();
                assert(old(self).deck.cards@.take(dlen - 2 * i).take(dlen - 2 * i - 2)
                    =~= old(self).deck.cards@.take(dlen - 2 * (i + 1)));
                assert(cards@ =~= seq![
                    old(self).deck.cards@[dlen - 1 - 2 * i],
                    old(self).deck.cards@[dlen - 2 - 2 * i],
                ]);
            }
            self.players[i].hole_cards = Some(cards);
            i += 1;
        }
        proof {
            lemma_sum_chips_pointwise(self.players@, old(self).players@);
            lemma_count_in_hand_pointwise(self.players@, old(self).players@);
        }
    }

    /// Record an action on the table: chip-moving actions grow the
    /// pot, enrol the actor in the pot's participants, and set the
    /// outstanding bet; a check or fold changes nothing here.
    pub fn apply_action(&mut self, action: PlayerAction, id: u32)
        requires
            old(self).pot.chips + spec_amount_of(action) <= u32::MAX,
        ensures
            final(self).pot.chips == old(self).pot.chips + spec_amount_of(action),
            (action is Check || action is Fold) ==> *final(self) == *old(self),
            (action is Bet || action is Call || action is Raise) ==> {
                &&& final(self).current_bet == Some(spec_amount_of(action) as u32)
                &&& final(self).pot.participants@ == if old(self).pot.participants@.contains(id) {
                    old(self).pot.participants@
                } else {
                    old(self).pot.participants@.push(id)
                }
                &&& *final(self) == (GameState {
                    pot: final(self).pot,
                    current_bet: final(self).current_bet,
                    ..*old(self)
                })
            },
            final(self).pot.participants@.contains(id) || (action is Check || action is Fold),
            unique_ids(old(self).pot.participants@) ==> unique_ids(final(self).pot.participants@),
    {
        let amount = match action {
            PlayerAction::Bet(n) => n,
            PlayerAction::Raise(n) => n,
            PlayerAction::Call(n) => n,
            PlayerAction::Check => {
                return ;
            },
            PlayerAction::Fold => {
                return ;
            },
        };
        self.pot.chips = self.pot.chips + amount;
        if !contains_id(&self.pot.participants, id) {
            self.pot.participants.push(id);
            proof {
                lemma_contains_push(old(self).pot.participants@, id, id);
                assert forall|i: int, j: int|
                    0 <= i < j < self.pot.participants@.len() && unique_ids(
                        old(self).pot.participants@,
                    ) implies self.pot.participants@[i] != self.pot.participants@[j] by {
                    if j == self.pot.participants@.len() - 1 {
                        assert(old(self).pot.participants@[i] == self.pot.participants@[i]);
                        assert(!old(self).pot.participants@.contains(id));
                    }
                }
            }
        }
        self.current_bet = Some(amount);
    }

    /// Post the forced bets: the small blind seat and then the big
    /// blind seat each bet their blind (clamped to their stack), the
    /// pot takes the chips, and the big blind's posted amount stands
    /// as the bet to match.
    pub fn take_blinds(&mut self)
        requires
            old(self).wf(),
            old(self).small_blind != old(self).big_blind,
        ensures
            ({
                let sbi = old(self).small_blind as int;
                let bbi = old(self).big_blind as int;
                let sp = spec_clamped(old(self).players@[sbi], old(self).blinds.sb);
                let bp = spec_clamped(old(self).players@[bbi], old(self).blinds.bb);
                &&& final(self).players@ == old(self).players@.update(sbi, (Player {
                    chips: (old(self).players@[sbi].chips - sp) as u32,
                    all_in: old(self).players@[sbi].all_in || old(self).blinds.sb >= old(
                        self,
                    ).players@[sbi].chips,
                    last_action: Some(PlayerAction::Bet(sp)),
                    ..old(self).players@[sbi]
                })).update(bbi, (Player {
                    chips: (old(self).players@[bbi].chips - bp) as u32,
                    all_in: old(self).players@[bbi].all_in || old(self).blinds.bb >= old(
                        self,
                    ).players@[bbi].chips,
                    last_action: Some(PlayerAction::Bet(bp)),
                    ..old(self).players@[bbi]
                }))
                &&& final(self).pot.chips == old(self).pot.chips + sp + bp
                &&& final(self).current_bet == Some(bp)
                &&& final(self).pot.participants@.contains(old(self).players@[sbi].id)
                &&& final(self).pot.participants@.contains(old(self).players@[bbi].id)
                &&& forall|x: PlayerId| final(self).pot.participants@.contains(x) ==> (old(
                    self,
                ).pot.participants@.contains(x) || x == old(self).players@[sbi].id || x == old(
                    self,
                ).players@[bbi].id)
            }),
            *final(self) == (GameState {
                players: final(self).players,
                pot: final(self).pot,
                current_bet: final(self).current_bet,
                ..*old(self)
            }),
            final(self).total_chips() == old(self).total_chips(),
            final(self).wf(),
    {
        proof {
            lemma_sum_chips_elem(self.players@, self.small_blind as int);
            lemma_sum_chips_nonneg(self.players@);
        }
        let sb_amount = self.blinds.sb;
        let action = self.players[self.small_blind].give_blinds(sb_amount);
        let id = self.players[self.small_blind].id;
        proof {
            lemma_sum_chips_update(
                old(self).players@,
                old(self).small_blind as int,
                self.players@[old(self).small_blind as int],
            );
        }
        self.apply_action(action, id);
        proof {
            lemma_sum_chips_elem(self.players@, self.big_blind as int);
        }
        let bb_amount = self.blinds.bb;
        let action = self.players[self.big_blind].give_blinds(bb_amount);
        let id = self.players[self.big_blind].id;
        proof {
            lemma_sum_chips_update(
                old(self).players@.update(
                    old(self).small_blind as int,
                    self.players@[old(self).small_blind as int],
                ),
                old(self).big_blind as int,
                self.players@[old(self).big_blind as int],
            );
        }
        let ghost mid_participants = self.pot.participants@;
        let ghost sb_id = old(self).players@[old(self).small_blind as int].id;
        self.apply_action(action, id);
        proof {
            if !mid_participants.contains(id) {
                lemma_contains_push(mid_participants, id, sb_id);
                assert forall|x: PlayerId| self.pot.participants@.contains(x) implies (old(
                    self,
                ).pot.participants@.contains(x) || x == sb_id || x == id) by {
                    lemma_contains_push(mid_participants, id, x);
                    if !old(self).pot.participants@.contains(x) && x != id {
                        lemma_contains_push(old(self).pot.participants@, sb_id, x);
                    }
                }
            } else {
                assert forall|x: PlayerId| self.pot.participants@.contains(x) implies (old(
                    self,
                ).pot.participants@.contains(x) || x == sb_id || x == id) by {
                    if !old(self).pot.participants@.contains(x) && x != id {
                        lemma_contains_push(old(self).pot.participants@, sb_id, x);
                    }
                }
            }
        }
    }

    /// Move the turn to the next seat, wrapping, that is still in the
    /// hand; seats that folded are skipped. A seat whose player is
    /// all-in stays in the hand and can still receive the turn; the
    /// caller never asks such a seat to act.
    pub fn advance_player_to_act(&mut self)
        requires
            1 <= old(self).players@.len() <= 10,
            old(self).player_to_act < old(self).players@.len(),
            count_in_hand(old(self).players@) > 0,
        ensures
            *final(self) == (GameState { player_to_act: final(self).player_to_act, ..*old(self) }),
            final(self).player_to_act < old(self).players@.len(),
            old(self).players@[final(self).player_to_act as int].in_hand,
            forall|j: int|
                1 <= j < spec_cyc_dist(
                    old(self).player_to_act as int,
                    final(self).player_to_act as int,
                    old(self).players@.len() as int,
                ) ==> !old(self).players@[spec_seat_add(
                    old(self).player_to_act as int,
                    j,
                    old(self).players@.len() as int,
                )].in_hand,
    {
        let len = self.players.len();
        let start = self.player_to_act;
        let mut k: usize = 1;
        while k < len
            invariant
                1 <= k <= len,
                len == self.players@.len() <= 10,
                start < len,
                start == old(self).player_to_act,
                *self == *old(self),
                forall|j: int|
                    1 <= j < k ==> !self.players@[spec_seat_add(
                        start as int,
                        j,
                        len as int,
                    )].in_hand,
            decreases len - k,
        {
            let seat = seat_add(start, k, len);
            if self.players[seat].in_hand {
                self.player_to_act = seat;
                proof {
                    assert(spec_cyc_dist(start as int, seat as int, len as int) == k);
                }
                return ;
            }
            k += 1;
        }
        proof {
            lemma_count_in_hand_exists(self.players@);
            let w = choose|w: int| 0 <= w < self.players@.len() && self.players@[w].in_hand;
            if w != start {
                let d = spec_cyc_dist(start as int, w, len as int);
                assert(spec_seat_add(start as int, d, len as int) == w);
                assert(!self.players@[w].in_hand);
            }
            assert(self.players@[start as int].in_hand);
            assert(spec_cyc_dist(start as int, start as int, len as int) == len);
        }
        self.player_to_act = start;
    }

    /// Put the turn on the first seat after the button, wrapping,
    /// that is still in the hand.
    pub fn reset_player_to_act(&mut self)
        requires
            1 <= old(self).players@.len() <= 10,
            old(self).button < old(self).players@.len(),
            count_in_hand(old(self).players@) > 0,
        ensures
            *final(self) == (GameState { player_to_act: final(self).player_to_act, ..*old(self) }),
            final(self).player_to_act < old(self).players@.len(),
            old(self).players@[final(self).player_to_act as int].in_hand,
            ({
                let len = old(self).players@.len() as int;
                let start = spec_next_seat(old(self).button as int, len);
                let stop = final(self).player_to_act as int;
                let d = if stop >= start {
                    stop - start
                } else {
                    stop - start + len
                };
                forall|j: int|
                    0 <= j < d ==> !old(self).players@[spec_seat_add(start, j, len)].in_hand
            }),
    {
        let len = self.players.len();
        let start = if self.button + 1 >= len {
            0
        } else {
            self.button + 1
        };
        let mut k: usize = 0;
        while k < len
            invariant
                k <= len,
                len == self.players@.len() <= 10,
                start < len,
                start == spec_next_seat(old(self).button as int, len as int),
                *self == *old(self),
                count_in_hand(self.players@) > 0,
                forall|j: int|
                    0 <= j < k ==> !self.players@[spec_seat_add(
                        start as int,
                        j,
                        len as int,
                    )].in_hand,
            decreases len - k,
        {
            let seat = seat_add(start, k, len);
            if self.players[seat].in_hand {
                self.player_to_act = seat;
                proof {
                    let stop = seat as int;
                    let d = if stop >= start as int {
                        stop - start as int
                    } else {
                        stop - start as int + len as int
                    };
                    assert(d == k);
                }
                return ;
            }
            k += 1;
        }
        proof {
            lemma_count_in_hand_exists(self.players@);
            let w = choose|w: int| 0 <= w < self.players@.len() && self.players@[w].in_hand;
            let d = if w >= start as int {
                w - start as int
            } else {
                w - start as int + len as int
            };
            assert(spec_seat_add(start as int, d, len as int) == w);
            assert(false);
        }
        vstd::pervasive::unreached()
    }
}

impl GameState {
    /// Betting on the current street is closed when every player
    /// still in the hand has checked or is all-in, or, failing that,
    /// when there is an outstanding bet and every player still in the
    /// hand has a recorded bet, call or raise that matches it — except
    /// that pre-flop, a big blind whose recorded action is still the
    /// forced blind post has not yet spoken, so betting stays open
    /// while the turn is theirs.
    pub open spec fn spec_betting_done(self) -> bool {
        if self.street == Street::PreFlop && self.big_blind == self.player_to_act
            && self.players@[self.big_blind as int].last_action == Some(
            PlayerAction::Bet(self.blinds.bb),
        ) {
            false
        } else if forall|i: int|
            0 <= i < self.players@.len() ==> (#[trigger] self.players@[i].in_hand ==> (
            self.players@[i].last_action == Some(PlayerAction::Check) || self.players@[i].all_in)) {
            true
        } else if self.current_bet is None {
            false
        } else {
            forall|i: int|
                0 <= i < self.players@.len() ==> (#[trigger] self.players@[i].in_hand ==> (
                match self.players@[i].last_action {
                    Some(PlayerAction::Bet(b)) => b == self.current_bet->0,
                    Some(PlayerAction::Call(b)) => b == self.current_bet->0,
                    Some(PlayerAction::Raise(b)) => b == self.current_bet->0,
                    _ => false,
                }))
        }
    }

    /// Whether betting on the current street is closed.
    pub fn is_betting_done(&self) -> (r: bool)
        requires
            self.big_blind < self.players@.len(),
            (self.street == Street::PreFlop && self.big_blind == self.player_to_act)
                ==> self.players@[self.big_blind as int].last_action is Some,
        ensures
            r == self.spec_betting_done(),
    {
        if self.street == Street::PreFlop && self.big_blind == self.player_to_act {
            let bb_acted = match self.players[self.big_blind].last_action {
                Some(PlayerAction::Bet(n)) => n == self.blinds.bb,
                _ => false,
            };
            if bb_acted {
                return false;
            }
        }

        let len = self.players.len();
        let mut all_checked_or_all_in = true;
        let mut i: usize = 0;
        while i < len
            invariant
                i <= len,
                len == self.players@.len(),
                all_checked_or_all_in == forall|j: int|
                    0 <= j < i ==> (#[trigger] self.players@[j].in_hand ==> (
                    self.players@[j].last_action == Some(PlayerAction::Check)
                        || self.players@[j].all_in)),
            decreases len - i,
        {
            if self.players[i].in_hand {
                let checked = match self.players[i].last_action {
                    Some(PlayerAction::Check) => true,
                    _ => false,
                };
                if !(checked || self.players[i].all_in) {
                    all_checked_or_all_in = false;
                }
            }
            i += 1;
        }
        if all_checked_or_all_in {
            return true;
        }
        let current_bet = match self.current_bet {
            Some(n) => n,
            None => {
                return false;
            },
        };

        let mut all_matched = true;
        let mut i: usize = 0;
        while i < len
            invariant
                i <= len,
                len == self.players@.len(),
                self.current_bet == Some(current_bet),
                all_matched == forall|j: int|
                    0 <= j < i ==> (#[trigger] self.players@[j].in_hand ==> (
                    match self.players@[j].last_action {
                        Some(PlayerAction::Bet(b)) => b == current_bet,
                        Some(PlayerAction::Call(b)) => b == current_bet,
                        Some(PlayerAction::Raise(b)) => b == current_bet,
                        _ => false,
                    })),
            decreases len - i,
        {
            if self.players[i].in_hand {
                let matched = match self.players[i].last_action {
                    Some(PlayerAction::Bet(b)) => b == current_bet,
                    Some(PlayerAction::Call(b)) => b == current_bet,
                    Some(PlayerAction::Raise(b)) => b == current_bet,
                    _ => false,
                };
                if !matched {
                    all_matched = false;
                }
            }
            i += 1;
        }
        all_matched
    }

    /// The street after the given one.
    pub open spec fn spec_next_street(street: Street) -> Street {
        match street {
            Street::PreFlop => Street::Flop,
            Street::Flop => Street::Turn,
            Street::Turn => Street::River,
            Street::River => Street::Showdown,
            Street::Showdown => Street::Showdown,
        }
    }

    /// How many board cards the transition out of a street deals.
    pub open spec fn spec_street_deals(street: Street) -> int {
        match street {
            Street::PreFlop => 3,
            Street::Flop => 1,
            Street::Turn => 1,
            _ => 0,
        }
    }

    /// Close the street: clear every recorded action and the
    /// outstanding bet, put the turn back on the first live seat
    /// after the button, deal the street's board cards, and advance
    /// the street. The showdown has no successor.
    pub fn transition_street(&mut self)
        requires
            old(self).street != Street::Showdown,
            1 <= old(self).players@.len() <= 10,
            old(self).button < old(self).players@.len(),
            count_in_hand(old(self).players@) > 0,
            old(self).deck.cards@.len() >= Self::spec_street_deals(old(self).street),
        ensures
            final(self).players@.len() == old(self).players@.len(),
            forall|i: int| 0 <= i < old(self).players@.len() ==> final(self).players@[i]
                == (Player { last_action: None, ..old(self).players@[i] }),
            final(self).current_bet is None,
            final(self).street == Self::spec_next_street(old(self).street),
            final(self).board@ == old(self).board@ + old(self).deck.cards@.skip(
                old(self).deck.cards@.len() - Self::spec_street_deals(old(self).street),
            ).reverse(),
            final(self).board@.len() == old(self).board@.len() + Self::spec_street_deals(
                old(self).street,
            ),
            final(self).deck.cards@ == old(self).deck.cards@.take(
                old(self).deck.cards@.len() - Self::spec_street_deals(old(self).street),
            ),
            final(self).player_to_act < old(self).players@.len(),
            old(self).players@[final(self).player_to_act as int].in_hand,
            final(self).pot == old(self).pot,
            final(self).sidepots == old(self).sidepots,
            final(self).blinds == old(self).blinds,
            final(self).button == old(self).button,
            final(self).small_blind == old(self).small_blind,
            final(self).big_blind == old(self).big_blind,
            final(self).hand_count == old(self).hand_count,
            sum_chips(final(self).players@) == sum_chips(old(self).players@),
            count_in_hand(final(self).players@) == count_in_hand(old(self).players@),
    {
        let ghost pre = *self;
        let len = self.players.len();
        let mut i: usize = 0;
        while i < len
            invariant
                i <= len,
                len == self.players@.len(),
                len == old(self).players@.len(),
                forall|j: int| 0 <= j < i ==> self.players@[j] == (Player {
                    last_action: None,
                    ..old(self).players@[j]
                }),
                forall|j: int| i <= j < len ==> self.players@[j] == old(self).players@[j],
                self.pot == pre.pot,
                self.sidepots == pre.sidepots,
                self.board == pre.board,
                self.blinds == pre.blinds,
                self.street == pre.street,
                self.hand_count == pre.hand_count,
                self.button == pre.button,
                self.small_blind == pre.small_blind,
                self.big_blind == pre.big_blind,
                self.player_to_act == pre.player_to_act,
                self.current_bet == pre.current_bet,
                self.deck == pre.deck,
            decreases len - i,
        {
            self.players[i].last_action = None;
            i += 1;
        }
        proof {
            lemma_sum_chips_pointwise(self.players@, old(self).players@);
            lemma_count_in_hand_pointwise(self.players@, old(self).players@);
        }

        self.current_bet = None;
        self.reset_player_to_act();
        match self.street {
            Street::PreFlop => {
                let mut dealt = self.deck.deal_cards(3);
                self.board.append(&mut dealt);
                self.street = Street::Flop;
            },
            Street::Flop => {
                let mut dealt = self.deck.deal_cards(1);
                self.board.append(&mut dealt);
                self.street = Street::Turn;
            },
            Street::Turn => {
                let mut dealt = self.deck.deal_cards(1);
                self.board.append(&mut dealt);
                self.street = Street::River;
            },
            Street::River => {
                self.street = Street::Showdown;
            },
            Street::Showdown => {
                proof {
                    assert(false);
                }
            },
        }
        proof {
            let d = Self::spec_street_deals(old(self).street);
            let dl = old(self).deck.cards@.len();
            assert(self.board@ =~= old(self).board@ + old(self).deck.cards@.skip(
                dl - d,
            ).reverse());
        }
    }
}

/// A copy of a list of ids.
fn copy_ids(ids: &Vec<PlayerId>) -> (r: Vec<PlayerId>)
    ensures
        r@ == ids@,
{
    let mut r: Vec<PlayerId> = Vec::new();
    let n = ids.len();
    let mut i: usize = 0;
    while i < n
        invariant
            i <= n,
            n == ids@.len(),
            r@ == ids@.take(i as int),
        decreases n - i,
    {
        r.push(ids[i]);
        proof {
            assert(r@ =~= ids@.take(i + 1));
        }
        i += 1;
    }
    proof {
        assert(ids@.take(n as int) =~= ids@);
    }
    r
}

/// The board and a player's hole cards as one hand of cards.
fn board_plus_hole(board: &CardVec, hole: &CardVec) -> (r: CardVec)
    ensures
        r@ == board@ + hole@,
{
    let mut r: CardVec = Vec::new();
    let n = board.len();
    let mut i: usize = 0;
    while i < n
        invariant
            i <= n,
            n == board@.len(),
            r@ == board@.take(i as int),
        decreases n - i,
    {
        r.push(board[i]);
        proof {
            assert(r@ =~= board@.take(i + 1));
        }
        i += 1;
    }
    let m = hole.len();
    let mut j: usize = 0;
    while j < m
        invariant
            j <= m,
            m == hole@.len(),
            r@ == board@ + hole@.take(j as int),
        decreases m - j,
    {
        r.push(hole[j]);
        proof {
            assert(r@ =~= board@ + hole@.take(j + 1));
        }
        j += 1;
    }
    proof {
        assert(board@.take(board@.len() as int) =~= board@);
        assert(hole@.take(m as int) =~= hole@);
        assert(r@ =~= board@ + hole@);
    }
    r
}

/// The seat of the player with the given id, if any; the first such
/// seat where ids repeat.
fn find_seat_by_id(players: &PlayerVec, id: PlayerId) -> (r: Option<usize>)
    ensures
        match r {
            Some(i) => i < players@.len() && players@[i as int].id == id,
            None => forall|j: int| 0 <= j < players@.len() ==> players@[j].id != id,
        },
{
    let len = players.len();
    let mut i: usize = 0;
    while i < len
        invariant
            i <= len,
            len == players@.len(),
            forall|j: int| 0 <= j < i ==> players@[j].id != id,
        decreases len - i,
    {
        if players[i].id == id {
            return Some(i);
        }
        i += 1;
    }
    None
}

impl GameState {
    /// Among the pot's participants who are still in the hand, the
    /// ids of those whose best five-card hand out of board and hole
    /// cards ties for the strongest, in seat order (so the first
    /// winner listed sits at the lowest winning seat).
    pub fn determine_pot_winners(&self, participants: &Vec<PlayerId>) -> (winners: Vec<PlayerId>)
        requires
            unique_player_ids(self.players@),
            self.board@.len() == 5,
            forall|i: int|
                is_live_participant(self.players@, participants@, i) ==> ((
                #[trigger] self.players@[i].hole_cards) matches Some(h) && h@.len() == 2),
            exists|i: int| is_live_participant(self.players@, participants@, i),
        ensures
            1 <= winners@.len() <= self.players@.len(),
            exists|hr: HandRank, ks: Seq<Rank>|
                spec_winners(self.players@, participants@, self.board@, winners@, hr, ks),
    {
        let ghost pp = self.players@;
        let ghost parts = participants@;
        let ghost brd = self.board@;
        let len = self.players.len();
        let mut winners: Vec<PlayerId> = Vec::new();
        let mut best: Option<Hand> = None;
        let ghost mut best_seat: int = 0;
        let mut i: usize = 0;
        while i < len
            invariant
                i <= len,
                len == pp.len(),
                pp == self.players@,
                parts == participants@,
                brd == self.board@,
                brd.len() == 5,
                unique_player_ids(pp),
                forall|j: int|
                    is_live_participant(pp, parts, j) ==> ((#[trigger] pp[j].hole_cards) matches
                    Some(h) && h@.len() == 2),
                winners@.len() <= i,
                best is None ==> winners@.len() == 0 && (forall|j: int|
                    0 <= j < i ==> !is_live_participant(pp, parts, j)),
                best matches Some(b) ==> {
                    let bhr = b.hand_rank;
                    let bks = b.kickers@;
                    &&& winners@.len() >= 1
                    &&& unique_ids(winners@)
                    &&& 0 <= best_seat < i
                    &&& is_live_participant(pp, parts, best_seat)
                    &&& pp[best_seat].id == winners@[0]
                    &&& is_best_eval(spec_seven(brd, pp[best_seat]), bhr, bks)
                    &&& forall|j: int|
                        0 <= j < best_seat && is_live_participant(pp, parts, j) ==> !is_best_eval(
                            spec_seven(brd, pp[j]),
                            bhr,
                            bks,
                        )
                    &&& forall|k: int| 0 <= k < winners@.len() ==> exists|j: int|
                        0 <= j < i && is_live_participant(pp, parts, j) && pp[j].id
                            == #[trigger] winners@[k] && is_best_eval(
                            spec_seven(brd, pp[j]),
                            bhr,
                            bks,
                        )
                    &&& forall|j: int, hr2: HandRank, ks2: Seq<Rank>|
                        0 <= j < i && is_live_participant(pp, parts, j) && #[trigger] is_best_eval(
                            spec_seven(brd, pp[j]),
                            hr2,
                            ks2,
                        ) ==> hand_le(hr2, ks2, bhr, bks)
                    &&& forall|j: int|
                        0 <= j < i && is_live_participant(pp, parts, j) && #[trigger] is_best_eval(
                            spec_seven(brd, pp[j]),
                            bhr,
                            bks,
                        ) ==> winners@.contains(pp[j].id)
                },
            decreases len - i,
        {
            let live = self.players[i].in_hand && contains_id(participants, self.players[i].id);
            if live {
                let hole = match &self.players[i].hole_cards {
                    Some(h) => h,
                    None => vstd::pervasive::unreached(),
                };
                let cards = board_plus_hole(&self.board, hole);
                proof {
                    assert(cards@ == spec_seven(brd, pp[i as int]));
                }
                let h = match find_best_hand(cards) {
                    Some(h) => h,
                    None => vstd::pervasive::unreached(),
                };
                let ghost hhr = h.hand_rank;
                let ghost hks = h.kickers@;
                proof {
                    assert(is_best_eval(spec_seven(brd, pp[i as int]), hhr, hks)) by {
                        assert(is_pick5_of(h.cards@, spec_seven(brd, pp[i as int])));
                    }
                }
                let id = self.players[i].id;
                let take_lead = match &best {
                    None => true,
                    Some(b) => matches!(h.partial_cmp(b), Some(core::cmp::Ordering::Greater)),
                };
                let tie_lead = match &best {
                    None => false,
                    Some(b) => matches!(h.partial_cmp(b), Some(core::cmp::Ordering::Equal)),
                };
                if take_lead {
                    let ghost had_best = best is Some;
                    let ghost ob = if best is Some {
                        best->0
                    } else {
                        h
                    };
                    proof {
                        if had_best {
                            lemma_hand_le_total(hhr, hks, ob.hand_rank, ob.kickers@);
                            assert(hand_le(ob.hand_rank, ob.kickers@, hhr, hks));
                            assert forall|j: int|
                                0 <= j < i && is_live_participant(pp, parts, j) implies
                                !is_best_eval(spec_seven(brd, pp[j]), hhr, hks) by {
                                if is_best_eval(spec_seven(brd, pp[j]), hhr, hks) {
                                    assert(hand_le(hhr, hks, ob.hand_rank, ob.kickers@));
                                }
                            }
                        }
                    }
                    let mut w: Vec<PlayerId> = Vec::new();
                    w.push(id);
                    winners = w;
                    best = Some(h);
                    proof {
                        best_seat = i as int;
                        assert(winners@[0] == id);
                        crate::hand::lemma_cmp_rank_seqs_refl(hks);
                        assert forall|j: int, hr2: HandRank, ks2: Seq<Rank>|
                            0 <= j < i + 1 && is_live_participant(pp, parts, j)
                                && #[trigger] is_best_eval(spec_seven(brd, pp[j]), hr2, ks2) implies
                            hand_le(hr2, ks2, hhr, hks) by {
                            if j == i {
                                lemma_best_eval_unique(spec_seven(brd, pp[j]), hr2, ks2, hhr, hks);
                            } else {
                                assert(had_best);
                                assert(hand_le(hr2, ks2, ob.hand_rank, ob.kickers@));
                                lemma_hand_le_trans(
                                    hr2,
                                    ks2,
                                    ob.hand_rank,
                                    ob.kickers@,
                                    hhr,
                                    hks,
                                );
                            }
                        }
                    }
                } else if tie_lead {
                    let ghost b = best->0;
                    proof {
                        crate::hand_rankings::lemma_hand_rank_val_injective(hhr, b.hand_rank);
                        lemma_cmp_rank_seqs_equal(hks, b.kickers@);
                        assert forall|k: int| 0 <= k < winners@.len() implies winners@[k] != id by {
                            let j = choose|j: int|
                                0 <= j < i && is_live_participant(pp, parts, j) && pp[j].id
                                    == winners@[k] && is_best_eval(
                                    spec_seven(brd, pp[j]),
                                    b.hand_rank,
                                    b.kickers@,
                                );
                            assert(pp[j].id != pp[i as int].id);
                        }
                    }
                    let ghost old_winners = winners@;
                    winners.push(id);
                    proof {
                        assert(winners@[0] == old_winners[0]);
                        assert forall|k: int| 0 <= k < winners@.len() implies exists|j: int|
                            0 <= j < i + 1 && is_live_participant(pp, parts, j) && pp[j].id
                                == #[trigger] winners@[k] && is_best_eval(
                                spec_seven(brd, pp[j]),
                                b.hand_rank,
                                b.kickers@,
                            ) by {
                            if k < old_winners.len() {
                                assert(winners@[k] == old_winners[k]);
                            } else {
                                assert(winners@[k] == id);
                                assert(0 <= i < i + 1 && is_live_participant(pp, parts, i as int)
                                    && pp[i as int].id == id && is_best_eval(
                                    spec_seven(brd, pp[i as int]),
                                    b.hand_rank,
                                    b.kickers@,
                                ));
                            }
                        }
                        assert forall|j: int|
                            0 <= j < i + 1 && is_live_participant(pp, parts, j)
                                && #[trigger] is_best_eval(
                                spec_seven(brd, pp[j]),
                                b.hand_rank,
                                b.kickers@,
                            ) implies winners@.contains(pp[j].id) by {
                            lemma_contains_push(old_winners, id, pp[j].id);
                        }
                        assert forall|j: int, hr2: HandRank, ks2: Seq<Rank>|
                            0 <= j < i + 1 && is_live_participant(pp, parts, j)
                                && #[trigger] is_best_eval(spec_seven(brd, pp[j]), hr2, ks2) implies
                            hand_le(hr2, ks2, b.hand_rank, b.kickers@) by {
                            if j == i {
                                lemma_best_eval_unique(spec_seven(brd, pp[j]), hr2, ks2, hhr, hks);
                                crate::hand::lemma_cmp_rank_seqs_refl(b.kickers@);
                            }
                        }
                    }
                } else {
                    proof {
                        let b = best->0;
                        assert forall|j: int, hr2: HandRank, ks2: Seq<Rank>|
                            0 <= j < i + 1 && is_live_participant(pp, parts, j)
                                && #[trigger] is_best_eval(spec_seven(brd, pp[j]), hr2, ks2) implies
                            hand_le(hr2, ks2, b.hand_rank, b.kickers@) by {
                            if j == i {
                                lemma_best_eval_unique(spec_seven(brd, pp[j]), hr2, ks2, hhr, hks);
                            }
                        }
                        assert forall|j: int|
                            0 <= j < i + 1 && is_live_participant(pp, parts, j)
                                && #[trigger] is_best_eval(
                                spec_seven(brd, pp[j]),
                                b.hand_rank,
                                b.kickers@,
                            ) implies winners@.contains(pp[j].id) by {
                            if j == i {
                                lemma_best_eval_unique(
                                    spec_seven(brd, pp[j]),
                                    b.hand_rank,
                                    b.kickers@,
                                    hhr,
                                    hks,
                                );
                                crate::hand::lemma_cmp_rank_seqs_refl(b.kickers@);
                            }
                        }
                    }
                }
            }
            proof {
                if best is Some {
                    let b = best->0;
                    let bhr = b.hand_rank;
                    let bks = b.kickers@;
                    assert(winners@.len() >= 1);
                    assert(unique_ids(winners@));
                    assert(0 <= best_seat < i + 1);
                    assert(is_live_participant(pp, parts, best_seat));
                    assert(pp[best_seat].id == winners@[0]);
                    assert(is_best_eval(spec_seven(brd, pp[best_seat]), bhr, bks));
                    assert(forall|j: int|
                        0 <= j < best_seat && is_live_participant(pp, parts, j) ==> !is_best_eval(
                            spec_seven(brd, pp[j]),
                            bhr,
                            bks,
                        ));
                    assert forall|k: int| 0 <= k < winners@.len() implies exists|j: int|
                        0 <= j < i + 1 && is_live_participant(pp, parts, j) && pp[j].id
                            == #[trigger] winners@[k] && is_best_eval(
                            spec_seven(brd, pp[j]),
                            bhr,
                            bks,
                        ) by {
                        let j0 = choose|j: int|
                            0 <= j < i + 1 && is_live_participant(pp, parts, j) && pp[j].id
                                == winners@[k] && is_best_eval(spec_seven(brd, pp[j]), bhr, bks);
                    }
                    assert(forall|j: int, hr2: HandRank, ks2: Seq<Rank>|
                        0 <= j < i + 1 && is_live_participant(pp, parts, j) && #[trigger] is_best_eval(
                            spec_seven(brd, pp[j]),
                            hr2,
                            ks2,
                        ) ==> hand_le(hr2, ks2, bhr, bks));
                    assert(forall|j: int|
                        0 <= j < i + 1 && is_live_participant(pp, parts, j) && #[trigger] is_best_eval(
                            spec_seven(brd, pp[j]),
                            bhr,
                            bks,
                        ) ==> winners@.contains(pp[j].id));
                }
            }
            i += 1;
        }
        proof {
            if best is None {
                let w = choose|j: int| is_live_participant(pp, parts, j);
                assert(false);
            }
            let b = best->0;
            assert(spec_winners(pp, parts, brd, winners@, b.hand_rank, b.kickers@));
        }
        winners
    }

    /// Settle the hand's pot. At showdown the pot is split evenly
    /// among the winning participants, integer division rounding
    /// down, and the remainder goes to the winner at the lowest
    /// seat; before showdown (everyone else folded) the whole pot
    /// goes to the first seat still in the hand. The pot is emptied;
    /// no chips are created or lost.
    pub fn award_pots(&mut self)
        requires
            old(self).wf(),
            old(self).street == Street::Showdown ==> old(self).board@.len() == 5 && (forall|i: int|
                is_live_participant(old(self).players@, old(self).pot.participants@, i) ==> ((
                #[trigger] old(self).players@[i].hole_cards) matches Some(h) && h@.len() == 2))
                && (exists|i: int|
                is_live_participant(old(self).players@, old(self).pot.participants@, i)),
            old(self).street != Street::Showdown ==> count_in_hand(old(self).players@) > 0,
        ensures
            final(self).pot.chips == 0,
            final(self).pot.participants == old(self).pot.participants,
            sum_chips(final(self).players@) == sum_chips(old(self).players@) + old(self).pot.chips,
            final(self).total_chips() == old(self).total_chips(),
            final(self).players@.len() == old(self).players@.len(),
            forall|i: int| 0 <= i < old(self).players@.len() ==> final(self).players@[i]
                == (Player { chips: final(self).players@[i].chips, ..old(self).players@[i] }),
            *final(self) == (GameState {
                players: final(self).players,
                pot: final(self).pot,
                ..*old(self)
            }),
            final(self).wf(),
            old(self).street != Street::Showdown ==> exists|w: int|
                0 <= w < old(self).players@.len() && old(self).players@[w].in_hand && (forall|
                    j: int,
                |
                    0 <= j < w ==> !old(self).players@[j].in_hand) && (forall|i: int|
                    0 <= i < old(self).players@.len() ==> final(self).players@[i].chips == old(
                        self,
                    ).players@[i].chips + if i == w {
                        old(self).pot.chips as int
                    } else {
                        0int
                    }),
            old(self).street == Street::Showdown ==> exists|
                ws: Seq<PlayerId>,
                hr: HandRank,
                ks: Seq<Rank>,
            |
                spec_winners(
                    old(self).players@,
                    old(self).pot.participants@,
                    old(self).board@,
                    ws,
                    hr,
                    ks,
                ) && (forall|i: int|
                    0 <= i < old(self).players@.len() ==> final(self).players@[i].chips == old(
                        self,
                    ).players@[i].chips + (if ws.contains(old(self).players@[i].id) {
                        old(self).pot.chips as int / ws.len() as int
                    } else {
                        0int
                    }) + (if old(self).players@[i].id == ws[0] {
                        old(self).pot.chips as int % ws.len() as int
                    } else {
                        0int
                    })),
    {
        let ghost p0 = old(self).players@;
        let ghost pot0 = old(self).pot.chips;
        let is_showdown = self.street == Street::Showdown;
        if is_showdown {
            let parts = copy_ids(&self.pot.participants);
            let winners = self.determine_pot_winners(&parts);
            let ghost ws = winners@;
            let ghost (whr, wks) = choose|hr: HandRank, ks: Seq<Rank>|
                spec_winners(p0, old(self).pot.participants@, old(self).board@, ws, hr, ks);
            let chop = winners.len() as u32;
            let share = self.pot.chips / chop;
            let rem = self.pot.chips % chop;
            proof {
                vstd::arithmetic::div_mod::lemma_fundamental_div_mod(pot0 as int, chop as int);
            }
            let n_win = winners.len();
            let mut k: usize = 0;
            while k < n_win
                invariant
                    k <= n_win,
                    n_win == ws.len(),
                    1 <= ws.len() <= p0.len() <= 10,
                    chop == ws.len(),
                    share == pot0 as int / ws.len() as int,
                    rem == pot0 as int % ws.len() as int,
                    chop as int * share as int + rem == pot0 as int,
                    winners@ == ws,
                    unique_ids(ws),
                    unique_player_ids(p0),
                    spec_winners(p0, old(self).pot.participants@, old(self).board@, ws, whr, wks),
                    self.players@.len() == p0.len(),
                    self.pot == old(self).pot,
                    pot0 == old(self).pot.chips,
                    self.sidepots == old(self).sidepots,
                    self.sidepots@.len() == 0,
                    self.board == old(self).board,
                    self.blinds == old(self).blinds,
                    self.street == old(self).street,
                    self.hand_count == old(self).hand_count,
                    self.button == old(self).button,
                    self.small_blind == old(self).small_blind,
                    self.big_blind == old(self).big_blind,
                    self.player_to_act == old(self).player_to_act,
                    self.current_bet == old(self).current_bet,
                    self.deck == old(self).deck,
                    sum_chips(p0) + pot0 <= 0x7fff_ffff,
                    forall|i: int| 0 <= i < p0.len() ==> #[trigger] self.players@[i] == (Player {
                        chips: self.players@[i].chips,
                        ..p0[i]
                    }),
                    forall|i: int| 0 <= i < p0.len() ==> #[trigger] self.players@[i].chips as int
                        == p0[i].chips + (if ws.take(k as int).contains(p0[i].id) {
                        share as int
                    } else {
                        0int
                    }) + (if k > 0 && p0[i].id == ws[0] {
                        rem as int
                    } else {
                        0int
                    }),
                    sum_chips(self.players@) == sum_chips(p0) + k as int * share as int + (if k
                        > 0 {
                        rem as int
                    } else {
                        0int
                    }),
                decreases n_win - k,
            {
                let id = winners[k];
                let seat = match find_seat_by_id(&self.players, id) {
                    Some(s) => s,
                    None => {
                        proof {
                            let j = choose|j: int|
                                is_live_participant(p0, old(self).pot.participants@, j)
                                    && p0[j].id == ws[k as int] && is_best_eval(
                                    spec_seven(old(self).board@, p0[j]),
                                    whr,
                                    wks,
                                );
                            assert(self.players@[j].id == id);
                        }
                        vstd::pervasive::unreached()
                    },
                };
                proof {
                    assert(p0[seat as int].id == id);
                    assert(!ws.take(k as int).contains(id)) by {
                        if ws.take(k as int).contains(id) {
                            let k2 = choose|k2: int|
                                0 <= k2 < ws.take(k as int).len() && ws.take(k as int)[k2] == id;
                            assert(ws[k2] == ws[k as int]);
                        }
                    }
                    if k > 0 {
                        assert(ws[0] != ws[k as int]);
                    }
                    assert(self.players@[seat as int].chips == p0[seat as int].chips);
                    lemma_sum_chips_elem(self.players@, seat as int);
                    assert((k as int + 1) * share as int == k as int * share as int
                        + share as int) by (nonlinear_arith);
                    assert((k as int + 1) * share as int <= chop as int * share as int)
                        by (nonlinear_arith)
                        requires
                            k as int + 1 <= chop as int,
                            share as int >= 0,
                    ;
                    lemma_sum_chips_nonneg(p0);
                }
                let amount = if k == 0 {
                    share + rem
                } else {
                    share
                };
                let ghost before = self.players@;
                self.players[seat].receive_chips(amount);
                proof {
                    lemma_sum_chips_update(before, seat as int, self.players@[seat as int]);
                    assert forall|i: int| 0 <= i < p0.len() implies self.players@[i].chips as int
                        == p0[i].chips + (if ws.take(k + 1).contains(p0[i].id) {
                        share as int
                    } else {
                        0int
                    }) + (if k + 1 > 0 && p0[i].id == ws[0] {
                        rem as int
                    } else {
                        0int
                    }) by {
                        assert(ws.take(k + 1) =~= ws.take(k as int).push(ws[k as int]));
                        lemma_contains_push(ws.take(k as int), ws[k as int], p0[i].id);
                        if i != seat {
                            assert(p0[i].id != id);
                        }
                    }
                }
                k += 1;
            }
            proof {
                assert(ws.take(n_win as int) =~= ws);
                assert forall|i: int| 0 <= i < p0.len() implies self.players@[i].chips
                    == p0[i].chips + (if ws.contains(p0[i].id) {
                    pot0 as int / ws.len() as int
                } else {
                    0int
                }) + (if p0[i].id == ws[0] {
                    pot0 as int % ws.len() as int
                } else {
                    0int
                }) by {
                    if p0[i].id == ws[0] {
                        assert(ws.contains(p0[i].id)) by {
                            assert(ws[0] == p0[i].id);
                        }
                    }
                }
            }
            self.pot.chips = 0;
        } else {
            let len = self.players.len();
            let mut w: usize = 0;
            while w < len && !self.players[w].in_hand
                invariant
                    w <= len,
                    len == self.players@.len(),
                    *self == *old(self),
                    count_in_hand(self.players@) > 0,
                    forall|j: int| 0 <= j < w ==> !self.players@[j].in_hand,
                decreases len - w,
            {
                w += 1;
            }
            if w == len {
                proof {
                    lemma_count_in_hand_exists(self.players@);
                    assert(false);
                }
            }
            proof {
                lemma_sum_chips_elem(self.players@, w as int);
                lemma_sum_chips_nonneg(self.players@);
            }
            let amount = self.pot.chips;
            let ghost before = self.players@;
            self.players[w].receive_chips(amount);
            proof {
                lemma_sum_chips_update(before, w as int, self.players@[w as int]);
            }
            self.pot.chips = 0;
        }
    }

    /// One player acts, or the street closes. Mirrors one pass of the
    /// betting loop: the turn moves to the next live seat; if betting
    /// on the street is closed the street advances, otherwise the
    /// seat's player (unless all-in, who never acts) announces and
    /// the table applies one legal action.
    fn step_round(&mut self)
        requires
            old(self).wf(),
            old(self).street != Street::Showdown,
            count_in_hand(old(self).players@) > 1,
            old(self).round_wf(),
            sum_chips(old(self).players@) + old(self).pot.chips <= 0x7fff_ffff,
        ensures
            final(self).wf(),
            final(self).round_wf(),
            final(self).players@.len() == old(self).players@.len(),
            final(self).blinds == old(self).blinds,
            final(self).button == old(self).button,
            final(self).sidepots@.len() == 0,
            final(self).hand_count == old(self).hand_count,
            count_in_hand(final(self).players@) >= count_in_hand(old(self).players@) - 1,
            count_in_hand(final(self).players@) >= 1,
            sum_chips(final(self).players@) + final(self).pot.chips == sum_chips(
                old(self).players@,
            ) + old(self).pot.chips,
    {
        self.advance_player_to_act();
        proof {
            lemma_count_in_hand_pointwise(self.players@, old(self).players@);
            lemma_sum_chips_pointwise(self.players@, old(self).players@);
        }
        if self.is_betting_done() {
            self.transition_street();
            proof {
                assert(self.round_wf()) by {
                    assert forall|i: int|
                        0 <= i < self.players@.len() && self.players@[i].in_hand
                            && !self.pot.participants@.contains(self.players@[i].id) implies false
                        by {
                        let p = old(self).players@[i];
                        assert(p.in_hand && !old(self).pot.participants@.contains(p.id));
                        assert(old(self).street == Street::PreFlop && p.last_action is None);
                        assert(old(self).spec_betting_done());
                    }
                }
            }
        } else {
            let pta = self.player_to_act;
            if self.players[pta].all_in {
                return ;
            }
            proof {
                lemma_sum_chips_elem(self.players@, pta as int);
                lemma_sum_chips_nonneg(self.players@);
            }
            let current_bet = self.current_bet;
            let ghost mid = *self;
            let action = self.players[pta].announce_action(current_bet, self.blinds.bb);
            let id = self.players[pta].id;
            proof {
                lemma_sum_chips_update(mid.players@, pta as int, self.players@[pta as int]);
                lemma_count_in_hand_update(mid.players@, pta as int, self.players@[pta as int]);
            }
            let ghost paid = *self;
            self.apply_action(action, id);
            proof {
                let n = self.players@.len();
                assert(self.players@ == paid.players@);
                assert(sum_chips(self.players@) == sum_chips(mid.players@) - spec_amount_of(
                    action,
                ));
                assert(self.players@ == mid.players@.update(pta as int, self.players@[pta as int]));
                assert forall|x: PlayerId|
                    mid.pot.participants@.contains(x) implies #[trigger] self.pot.participants@.contains(
                    x) by {
                    if action is Bet || action is Call || action is Raise {
                        if !mid.pot.participants@.contains(id) {
                            lemma_contains_push(mid.pot.participants@, id, x);
                        }
                    }
                }
                assert forall|i: int|
                    0 <= i < n && self.players@[i].in_hand && !self.pot.participants@.contains(
                        self.players@[i].id,
                    ) implies self.street == Street::PreFlop && self.players@[i].last_action
                    is None by {
                    if i == pta {
                        if action is Check {
                            let p_old = mid.players@[pta as int];
                            if !mid.pot.participants@.contains(p_old.id) {
                                assert(mid.street == Street::PreFlop && p_old.last_action is None);
                                assert(spec_last_bet(p_old) == 0);
                                assert(mid.current_bet matches Some(cb) && cb >= 1);
                                assert(false);
                            }
                        }
                        if action is Bet || action is Call || action is Raise {
                            assert(self.pot.participants@.contains(id));
                        }
                    } else {
                        assert(self.players@[i] == mid.players@[i]);
                    }
                }
                assert forall|i: int|
                    0 <= i < n && ((#[trigger] self.players@[i].last_action) matches Some(a) && (a
                        is Bet || a is Call || a is Raise)) implies self.pot.participants@.contains(
                    self.players@[i].id) by {
                    if i == pta {
                        assert(self.players@[i].last_action == Some(action));
                        assert(self.pot.participants@.contains(id));
                    } else {
                        assert(self.players@[i] == mid.players@[i]);
                    }
                }
                assert forall|i: int|
                    0 <= i < n && #[trigger] self.players@[i].all_in implies
                    self.pot.participants@.contains(self.players@[i].id) by {
                    if i == pta {
                        if !mid.players@[pta as int].all_in {
                            assert(action is Bet || action is Call || action is Raise);
                            assert(self.pot.participants@.contains(id));
                        }
                    } else {
                        assert(self.players@[i] == mid.players@[i]);
                    }
                }
            }
        }
    }

    /// The slow-moving facts that hold from the blinds to the end of
    /// a hand: every seat has two hole cards; the board matches the
    /// street; the deck can still finish the board; chips plus pot
    /// fit the table bound; an outstanding pre-flop bet is at least
    /// one chip and the big blind has a recorded action; a player not
    /// yet enrolled in the pot can only be an untouched pre-flop
    /// seat; all-in or recorded bettors are enrolled, a player not
    /// all-in still holds a chip; and at least one player is in the
    /// hand.
    pub open spec fn round_wf(self) -> bool {
        &&& forall|i: int|
            0 <= i < self.players@.len() ==> ((#[trigger] self.players@[i].hole_cards) matches Some(
                h,
            ) && h@.len() == 2)
        &&& (self.street == Street::PreFlop ==> self.board@.len() == 0)
        &&& (self.street == Street::Flop ==> self.board@.len() == 3)
        &&& (self.street == Street::Turn ==> self.board@.len() == 4)
        &&& (self.street == Street::River ==> self.board@.len() == 5)
        &&& (self.street == Street::Showdown ==> self.board@.len() == 5)
        &&& self.deck.cards@.len() + self.board@.len() >= 5
        &&& (self.street == Street::PreFlop ==> (self.current_bet matches Some(n) && n >= 1))
        &&& (self.current_bet matches Some(n) ==> n <= 0x7fff_ffff)
        &&& (self.street == Street::PreFlop ==> self.players@[self.big_blind as int].last_action
            is Some)
        &&& (forall|i: int|
            0 <= i < self.players@.len() && (#[trigger] self.players@[i].in_hand)
                && !self.pot.participants@.contains(self.players@[i].id) ==> (self.street
                == Street::PreFlop && self.players@[i].last_action is None))
        &&& (forall|i: int|
            0 <= i < self.players@.len() && ((#[trigger] self.players@[i].last_action) matches Some(
                a,
            ) && (a is Bet || a is Call || a is Raise)) ==> self.pot.participants@.contains(
                self.players@[i].id,
            ))
        &&& (forall|i: int|
            0 <= i < self.players@.len() && (#[trigger] self.players@[i].all_in)
                ==> self.pot.participants@.contains(self.players@[i].id))
        &&& (forall|i: int|
            0 <= i < self.players@.len() && !(#[trigger] self.players@[i].all_in)
                ==> self.players@[i].chips >= 1)
        &&& count_in_hand(self.players@) >= 1
    }

    /// Run the session: hands are played until one player is left or
    /// nobody holds chips — on return the session is over, unless the
    /// hand counter's cap was reached first. Each hand posts blinds,
    /// deals, runs the betting streets, settles the pot and drops
    /// broke players; no chips enter or leave the table. Two safety
    /// bounds that no real session reaches cap the session at the
    /// hand counter's maximum and each hand at a large action budget.
    pub fn play(&mut self)
        requires
            old(self).wf(),
            old(self).pot.chips == 0,
            forall|i: int| 0 <= i < old(self).players@.len() ==> (#[trigger] old(
                self,
            ).players@[i].chips) >= 1,
        ensures
            sum_chips(final(self).players@) == sum_chips(old(self).players@),
            final(self).pot.chips == 0,
            final(self).players@.len() <= old(self).players@.len(),
            final(self).players@.len() <= 1 || count_with_chips(final(self).players@) == 0
                || final(self).hand_count >= u32::MAX - 1,
    {
        let ghost total0 = sum_chips(old(self).players@);
        loop
            invariant
                self.players@.len() <= 10,
                self.players@.len() <= old(self).players@.len(),
                self.button <= 10,
                self.blinds == old(self).blinds,
                self.blinds.sb >= 1,
                self.blinds.bb >= 1,
                unique_player_ids(self.players@),
                self.pot.chips == 0,
                self.sidepots@.len() == 0,
                sum_chips(self.players@) == total0,
                total0 <= 0x7fff_ffff,
                forall|i: int| 0 <= i < self.players@.len() ==> (#[trigger] self.players@[i].chips)
                    >= 1,
            ensures
                sum_chips(self.players@) == total0,
                self.pot.chips == 0,
                self.players@.len() <= old(self).players@.len(),
                self.players@.len() <= 1 || count_with_chips(self.players@) == 0
                    || self.hand_count >= u32::MAX - 1,
            decreases u32::MAX - self.hand_count,
        {
            if !(self.game_continuing() && self.hand_count < u32::MAX - 1) {
                proof {
                    lemma_count_with_chips_nonneg(self.players@);
                }
                break ;
            }
            let ghost hand_count0 = self.hand_count;
            self.init_round();
            proof {
                lemma_sum_chips_nonneg(self.players@);
            }
            self.rotate_button();
            proof {
                assert(self.wf()) by {
                    assert(self.total_chips() == sum_chips(self.players@) + 0 + 0);
                }
            }
            let ghost pre_blinds = *self;
            self.take_blinds();
            self.deal_hands();
            proof {
                let n = self.players@.len() as int;
                assert forall|i: int, j: int|
                    0 <= i < j < n implies (#[trigger] self.players@[i].id) != (
                #[trigger] self.players@[j].id) by {
                    assert(self.players@[i].id == pre_blinds.players@[i].id);
                    assert(self.players@[j].id == pre_blinds.players@[j].id);
                }
                assert(self.wf()) by {
                    assert(self.total_chips() == sum_chips(self.players@) + self.pot.chips);
                }
                assert forall|i: int| 0 <= i < n implies (#[trigger] self.players@[i].in_hand) by {
                    assert(self.players@[i].in_hand == pre_blinds.players@[i].in_hand);
                }
                lemma_count_all_in_hand(self.players@);
                let sbi = pre_blinds.small_blind as int;
                let bbi = pre_blinds.big_blind as int;
                let sb_id = pre_blinds.players@[sbi].id;
                let bb_id = pre_blinds.players@[bbi].id;
                assert(self.round_wf()) by {
                    assert(self.street == Street::PreFlop);
                    assert(self.board@.len() == 0);
                    assert(self.deck.cards@.len() >= 52 - 2 * 10);
                    let bp = spec_clamped(pre_blinds.players@[bbi], pre_blinds.blinds.bb);
                    assert(self.current_bet == Some(bp));
                    assert(bp >= 1);
                    assert(bp <= 0x7fff_ffff) by {
                        lemma_sum_chips_elem(pre_blinds.players@, bbi);
                        lemma_sum_chips_nonneg(pre_blinds.players@);
                    }
                    assert(self.players@[self.big_blind as int].last_action is Some);
                    assert forall|i: int|
                        0 <= i < n && (#[trigger] self.players@[i].in_hand)
                            && !self.pot.participants@.contains(self.players@[i].id) implies (
                    self.street == Street::PreFlop && self.players@[i].last_action is None) by {
                        if i != sbi && i != bbi {
                            assert(self.players@[i].last_action
                                == pre_blinds.players@[i].last_action);
                            assert(pre_blinds.players@[i].last_action is None);
                        } else {
                            assert(self.pot.participants@.contains(self.players@[i].id));
                        }
                    }
                    assert forall|i: int|
                        0 <= i < n && ((#[trigger] self.players@[i].last_action) matches Some(a)
                            && (a is Bet || a is Call || a is Raise)) implies
                        self.pot.participants@.contains(self.players@[i].id) by {
                        if i != sbi && i != bbi {
                            assert(self.players@[i].last_action
                                == pre_blinds.players@[i].last_action);
                        }
                    }
                    assert forall|i: int|
                        0 <= i < n && (#[trigger] self.players@[i].all_in) implies
                        self.pot.participants@.contains(self.players@[i].id) by {
                        if i != sbi && i != bbi {
                            assert(self.players@[i].all_in == pre_blinds.players@[i].all_in);
                        }
                    }
                    assert forall|i: int|
                        0 <= i < n && !(#[trigger] self.players@[i].all_in) implies
                        self.players@[i].chips >= 1 by {
                        if i != sbi && i != bbi {
                            assert(self.players@[i].chips == pre_blinds.players@[i].chips);
                        }
                    }
                }
            }

            let mut fuel: u32 = 1000000;
            while fuel > 0 && self.round_continuing()
                invariant
                    self.wf(),
                    self.round_wf(),
                    self.blinds == old(self).blinds,
                    self.players@.len() <= old(self).players@.len(),
                    self.hand_count == if hand_count0 < u32::MAX {
                        hand_count0 + 1
                    } else {
                        hand_count0 as int
                    },
                    sum_chips(self.players@) + self.pot.chips == total0,
                    total0 <= 0x7fff_ffff,
                decreases fuel,
            {
                self.step_round();
                fuel -= 1;
            }

            proof {
                if self.street == Street::Showdown {
                    lemma_count_in_hand_exists(self.players@);
                    let w = choose|i: int|
                        0 <= i < self.players@.len() && self.players@[i].in_hand;
                    assert(self.pot.participants@.contains(self.players@[w].id));
                    assert(is_live_participant(self.players@, self.pot.participants@, w));
                }
            }
            self.award_pots();
            let ghost pre_players = self.players@;
            self.end_round();
            proof {
                lemma_filter_unique_ids(pre_players, |p: Player| p.chips > 0);
                assert forall|i: int|
                    0 <= i < self.players@.len() implies (#[trigger] self.players@[i].chips)
                    >= 1 by {
                    pre_players.lemma_filter_pred(|p: Player| p.chips > 0, i);
                }
            }
        }
    }
}

/// The big blind must be given an explicit option pre-flop: with the
/// turn on the big blind seat and the forced blind post still the
/// seat's recorded action, betting is not closed, even though the
/// posted amount already matches the outstanding bet.
pub proof fn lemma_big_blind_gets_an_option(gs: GameState)
    requires
        gs.street == Street::PreFlop,
        gs.player_to_act == gs.big_blind,
        gs.players@[gs.big_blind as int].last_action == Some(PlayerAction::Bet(gs.blinds.bb)),
    ensures
        !gs.spec_betting_done(),
{
}

proof fn lemma_count_with_chips_nonneg(s: Seq<Player>)
    ensures
        count_with_chips(s) >= 0,
    decreases s.len(),
{
    if s.len() > 0 {
        lemma_count_with_chips_nonneg(s.drop_last());
    }
}

proof fn lemma_count_all_in_hand(s: Seq<Player>)
    requires
        forall|i: int| 0 <= i < s.len() ==> (#[trigger] s[i].in_hand),
    ensures
        count_in_hand(s) == s.len(),
    decreases s.len(),
{
    if s.len() > 0 {
        lemma_count_all_in_hand(s.drop_last());
    }
}

proof fn lemma_filter_member_of(s: Seq<Player>, pred: spec_fn(Player) -> bool, i: int)
    requires
        0 <= i < s.filter(pred).len(),
    ensures
        exists|k: int| 0 <= k < s.len() && s[k] == s.filter(pred)[i],
    decreases s.len(),
{
    reveal(Seq::filter);
    let f = s.filter(pred);
    let fd = s.drop_last().filter(pred);
    if s.len() > 0 {
        if pred(s.last()) && i == f.len() - 1 {
            assert(s[s.len() - 1] == f[i]);
        } else {
            assert(f[i] == fd[i]);
            lemma_filter_member_of(s.drop_last(), pred, i);
            let k = choose|k: int| 0 <= k < s.drop_last().len() && s.drop_last()[k] == fd[i];
            assert(s[k] == f[i]);
        }
    }
}

proof fn lemma_filter_unique_ids(s: Seq<Player>, pred: spec_fn(Player) -> bool)
    requires
        unique_player_ids(s),
    ensures
        unique_player_ids(s.filter(pred)),
    decreases s.len(),
{
    reveal(Seq::filter);
    if s.len() > 0 {
        assert(unique_player_ids(s.drop_last())) by {
            assert(forall|i: int| 0 <= i < s.drop_last().len() ==> s.drop_last()[i] == s[i]);
        }
        lemma_filter_unique_ids(s.drop_last(), pred);
        let f = s.filter(pred);
        let fd = s.drop_last().filter(pred);
        if pred(s.last()) {
            assert(f == fd.push(s.last()));
            assert forall|i: int, j: int| 0 <= i < j < f.len() implies (#[trigger] f[i].id) != (
            #[trigger] f[j].id) by {
                if j == f.len() - 1 {
                    assert(f[i] == fd[i]);
                    lemma_filter_member_of(s.drop_last(), pred, i);
                    let k = choose|k: int|
                        0 <= k < s.drop_last().len() && s.drop_last()[k] == fd[i];
                    assert(s[k] == fd[i]);
                    assert(s[k].id != s.last().id);
                } else {
                    assert(f[i] == fd[i] && f[j] == fd[j]);
                }
            }
        }
    }
}

} // verus!
