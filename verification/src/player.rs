//! A seat at the table: the player's stack, flags and betting
//! operations, and the placeholder policy that picks uniformly among
//! the legal actions.

use vstd::prelude::*;
use vstd::string::StringExecFns;
use rand::RngExt;

use crate::card::CardVec;

verus! {

pub type PlayerId = u32;

/// A betting action, tagged with the chips actually paid where chips
/// move.
#[derive(Eq, PartialEq, Structural, Clone, Copy, Debug)]
pub enum PlayerAction {
    Bet(u32),
    Call(u32),
    Raise(u32),
    Check,
    Fold,
}

/// The chips an action moved into the pot.
pub open spec fn spec_amount_of(a: PlayerAction) -> int {
    match a {
        PlayerAction::Bet(n) => n as int,
        PlayerAction::Call(n) => n as int,
        PlayerAction::Raise(n) => n as int,
        PlayerAction::Check => 0,
        PlayerAction::Fold => 0,
    }
}

/// One player's per-hand state.
#[derive(Clone, Debug)]
pub struct Player {
    pub id: PlayerId,
    pub name: String,
    pub hole_cards: Option<CardVec>,
    pub chips: u32,
    pub last_action: Option<PlayerAction>,
    pub in_hand: bool,
    pub all_in: bool,
}

pub type PlayerVec = Vec<Player>;

/// What a player asked to pay `amount` actually pays: the whole
/// remaining stack when the stack does not cover the amount.
pub open spec fn spec_clamped(p: Player, amount: u32) -> u32 {
    if amount >= p.chips {
        p.chips
    } else {
        amount
    }
}

/// The amount of the player's last chip-moving action; zero after a
/// check, a fold, or no action at all.
pub open spec fn spec_last_bet(p: Player) -> u32 {
    match p.last_action {
        Some(PlayerAction::Bet(n)) => n,
        Some(PlayerAction::Call(n)) => n,
        Some(PlayerAction::Raise(n)) => n,
        _ => 0,
    }
}

impl Player {
    /// Reset the per-hand flags at the start of a round; the stack,
    /// id and name stay.
    pub fn init_for_round(&mut self)
        ensures
            *final(self) == (Player {
                hole_cards: None,
                last_action: None,
                in_hand: true,
                all_in: false,
                ..*old(self)
            }),
    {
        self.in_hand = true;
        self.last_action = None;
        self.hole_cards = None;
        self.all_in = false;
    }

    /// Move up to `amount` chips out of the stack; a stack that
    /// cannot cover the amount is paid whole and the player is
    /// all-in. Returns what was actually paid.
    pub fn give_chips(&mut self, amount: u32) -> (paid: u32)
        ensures
            paid == spec_clamped(*old(self), amount),
            *final(self) == (Player {
                chips: (old(self).chips - paid) as u32,
                all_in: old(self).all_in || amount >= old(self).chips,
                ..*old(self)
            }),
    {
        if amount >= self.chips {
            let amount = self.chips;
            self.chips = 0;
            self.all_in = true;
            amount
        } else {
            self.chips = self.chips - amount;
            amount
        }
    }

    /// Bet: pay up to `amount` and record the paid amount as the last
    /// action.
    pub fn bet(&mut self, amount: u32) -> (action: PlayerAction)
        ensures
            action == PlayerAction::Bet(spec_clamped(*old(self), amount)),
            *final(self) == (Player {
                chips: (old(self).chips - spec_clamped(*old(self), amount)) as u32,
                all_in: old(self).all_in || amount >= old(self).chips,
                last_action: Some(action),
                ..*old(self)
            }),
    {
        let bet = self.give_chips(amount);
        self.last_action = Some(PlayerAction::Bet(bet));
        PlayerAction::Bet(bet)
    }

    /// Call: pay up to `amount` and record the paid amount as the
    /// last action.
    pub fn call(&mut self, amount: u32) -> (action: PlayerAction)
        ensures
            action == PlayerAction::Call(spec_clamped(*old(self), amount)),
            *final(self) == (Player {
                chips: (old(self).chips - spec_clamped(*old(self), amount)) as u32,
                all_in: old(self).all_in || amount >= old(self).chips,
                last_action: Some(action),
                ..*old(self)
            }),
    {
        let call = self.give_chips(amount);
        self.last_action = Some(PlayerAction::Call(call));
        PlayerAction::Call(call)
    }

    /// Raise: pay up to `amount` and record the paid amount as the
    /// last action.
    pub fn raise(&mut self, amount: u32) -> (action: PlayerAction)
        ensures
            action == PlayerAction::Raise(spec_clamped(*old(self), amount)),
            *final(self) == (Player {
                chips: (old(self).chips - spec_clamped(*old(self), amount)) as u32,
                all_in: old(self).all_in || amount >= old(self).chips,
                last_action: Some(action),
                ..*old(self)
            }),
    {
        let raise = self.give_chips(amount);
        self.last_action = Some(PlayerAction::Raise(raise));
        PlayerAction::Raise(raise)
    }

    /// Check: record the action; no chips move.
    pub fn check(&mut self) -> (action: PlayerAction)
        ensures
            action == PlayerAction::Check,
            *final(self) == (Player { last_action: Some(PlayerAction::Check), ..*old(self) }),
    {
        self.last_action = Some(PlayerAction::Check);
        PlayerAction::Check
    }

    /// Fold: record the action and leave the hand; terminal for the
    /// round.
    pub fn fold(&mut self) -> (action: PlayerAction)
        ensures
            action == PlayerAction::Fold,
            *final(self) == (Player {
                last_action: Some(PlayerAction::Fold),
                in_hand: false,
                ..*old(self)
            }),
    {
        self.last_action = Some(PlayerAction::Fold);
        self.in_hand = false;
        PlayerAction::Fold
    }

    /// Post a forced blind: a bet of up to `blind_amount`.
    pub fn give_blinds(&mut self, blind_amount: u32) -> (action: PlayerAction)
        ensures
            action == PlayerAction::Bet(spec_clamped(*old(self), blind_amount)),
            *final(self) == (Player {
                chips: (old(self).chips - spec_clamped(*old(self), blind_amount)) as u32,
                all_in: old(self).all_in || blind_amount >= old(self).chips,
                last_action: Some(action),
                ..*old(self)
            }),
    {
        self.bet(blind_amount)
    }

    /// Credit chips to the stack; used for pot payout.
    pub fn receive_chips(&mut self, amount: u32)
        requires
            old(self).chips + amount <= u32::MAX,
        ensures
            *final(self) == (Player { chips: (old(self).chips + amount) as u32, ..*old(self) }),
    {
        self.chips = self.chips + amount;
    }

    /// The amount of the player's last chip-moving action.
    pub fn get_last_bet_amount(&self) -> (n: u32)
        ensures
            n == spec_last_bet(*self),
    {
        match self.last_action {
            Some(PlayerAction::Bet(n)) => n,
            Some(PlayerAction::Call(n)) => n,
            Some(PlayerAction::Raise(n)) => n,
            _ => 0,
        }
    }

    /// Ask the placeholder policy for an action: the state machine's
    /// legality rules fix the set of actions open to the player, the
    /// policy picks one of them uniformly at random, and the pick is
    /// applied to the player. The returned action carries the chips
    /// actually paid; whichever action comes back, it is one of the
    /// legal set for the given table bet.
    pub fn announce_action(&mut self, current_bet: Option<u32>, minbet: u32) -> (action:
        PlayerAction)
        requires
            current_bet matches Some(n) ==> n <= 0x7fff_ffff,
        ensures
            final(self).id == old(self).id,
            final(self).name == old(self).name,
            final(self).hole_cards == old(self).hole_cards,
            final(self).last_action == Some(action),
            final(self).chips == old(self).chips - spec_amount_of(action),
            spec_amount_of(action) <= old(self).chips,
            final(self).in_hand == (old(self).in_hand && action != PlayerAction::Fold),
            final(self).all_in == (old(self).all_in || (spec_amount_of(action) == old(self).chips
                && !(action is Check) && !(action is Fold))),
            (match current_bet {
                Some(n) => if n >= old(self).chips {
                    action == PlayerAction::Call(old(self).chips) || action == PlayerAction::Fold
                } else if n > spec_last_bet(*old(self)) {
                    action == PlayerAction::Call(n) || action == PlayerAction::Raise(
                        spec_clamped(*old(self), (2 * n) as u32),
                    ) || action == PlayerAction::Fold
                } else if n == spec_last_bet(*old(self)) && n > 0 {
                    action == PlayerAction::Raise(spec_clamped(*old(self), (2 * n) as u32))
                        || action == PlayerAction::Check
                } else {
                    action == PlayerAction::Check || action == PlayerAction::Bet(
                        spec_clamped(*old(self), minbet),
                    )
                },
                None => action == PlayerAction::Check || action == PlayerAction::Bet(
                    spec_clamped(*old(self), minbet),
                ),
            }),
    {
        let last_bet = self.get_last_bet_amount();

        let mut allowed: Vec<PlayerAction> = Vec::new();
        match current_bet {
            Some(n) => {
                if n >= self.chips {
                    allowed.push(PlayerAction::Call(n));
                    allowed.push(PlayerAction::Fold);
                } else if n > last_bet {
                    allowed.push(PlayerAction::Call(n));
                    allowed.push(PlayerAction::Raise(n * 2));
                    allowed.push(PlayerAction::Fold);
                } else if n == last_bet && last_bet > 0 {
                    allowed.push(PlayerAction::Raise(n * 2));
                    allowed.push(PlayerAction::Check);
                } else {
                    allowed.push(PlayerAction::Check);
                    allowed.push(PlayerAction::Bet(minbet));
                }
            },
            None => {
                allowed.push(PlayerAction::Check);
                allowed.push(PlayerAction::Bet(minbet));
            },
        }

        let idx = pick_index(allowed.len());
        let chosen = allowed[idx];
        match chosen {
            PlayerAction::Check => self.check(),
            PlayerAction::Fold => self.fold(),
            PlayerAction::Bet(n) => self.bet(n),
            PlayerAction::Call(n) => self.call(n),
            PlayerAction::Raise(n) => self.raise(n),
        }
    }
}

/// Relies on rand's `random_range`: the result lies below `n`. Which
/// value comes back is left open.
#[verifier::external_body]
fn pick_index(n: usize) -> (r: usize)
    requires
        n > 0,
    ensures
        r < n,
{
    let mut rng = rand::rng();
    rng.random_range(0..n)
}

/// The character of a single decimal digit.
pub open spec fn spec_digit_char(d: int) -> char {
    (('0' as u8) + d) as char
}

/// The decimal digits of a number, highest first.
pub open spec fn spec_decimal(n: int) -> Seq<char>
    decreases n,
{
    if n < 10 {
        seq![spec_digit_char(n)]
    } else {
        spec_decimal(n / 10).push(spec_digit_char(n % 10))
    }
}

/// The characters of a run of digits, lowest digit first, read back
/// to front.
pub open spec fn spec_digits_reversed(ds: Seq<u32>) -> Seq<char> {
    Seq::new(ds.len(), |i: int| spec_digit_char(ds[ds.len() - 1 - i] as int))
}

/// Append one decimal digit's character to a string.
fn push_digit_char(s: &mut String, d: u32)
    requires
        d < 10,
    ensures
        final(s)@ == old(s)@.push(spec_digit_char(d as int)),
{
    proof {
        reveal_strlit("0");
        reveal_strlit("1");
        reveal_strlit("2");
        reveal_strlit("3");
        reveal_strlit("4");
        reveal_strlit("5");
        reveal_strlit("6");
        reveal_strlit("7");
        reveal_strlit("8");
        reveal_strlit("9");
    }
    let ghost pre = s@;
    match d {
        0 => s.append("0"),
        1 => s.append("1"),
        2 => s.append("2"),
        3 => s.append("3"),
        4 => s.append("4"),
        5 => s.append("5"),
        6 => s.append("6"),
        7 => s.append("7"),
        8 => s.append("8"),
        _ => s.append("9"),
    }
    proof {
        assert(s@ =~= pre.push(spec_digit_char(d as int)));
    }
}

/// Render a number as its decimal digits, highest first.
fn decimal_string(n: u32) -> (s: String)
    ensures
        s@ == spec_decimal(n as int),
{
    let mut digits: Vec<u32> = Vec::new();
    let mut m: u32 = n;
    while m >= 10
        invariant
            spec_decimal(n as int) == spec_decimal(m as int) + spec_digits_reversed(digits@),
            forall|i: int| 0 <= i < digits@.len() ==> (#[trigger] digits@[i]) < 10,
        decreases m,
    {
        let ghost pre = digits@;
        digits.push(m % 10);
        proof {
            assert(spec_digits_reversed(digits@) =~= seq![
                spec_digit_char((m % 10) as int),
            ] + spec_digits_reversed(pre));
            assert(spec_decimal(m as int) + spec_digits_reversed(pre) == spec_decimal(
                m as int / 10,
            ) + spec_digits_reversed(digits@)) by {
                assert(spec_decimal(m as int) == spec_decimal(m as int / 10).push(
                    spec_digit_char(m as int % 10),
                ));
                assert(spec_decimal(m as int / 10).push(spec_digit_char(m as int % 10))
                    + spec_digits_reversed(pre) =~= spec_decimal(m as int / 10) + (seq![
                    spec_digit_char(m as int % 10),
                ] + spec_digits_reversed(pre)));
            }
        }
        m = m / 10;
    }
    let ghost pre = digits@;
    digits.push(m);
    proof {
        assert(spec_digits_reversed(digits@) =~= seq![
            spec_digit_char(m as int),
        ] + spec_digits_reversed(pre));
        assert(spec_decimal(m as int) + spec_digits_reversed(pre) =~= spec_digits_reversed(
            digits@,
        ));
        assert(spec_decimal(n as int) == spec_digits_reversed(digits@));
    }

    let mut s = String::new();
    let count = digits.len();
    let mut j: usize = 0;
    while j < count
        invariant
            j <= count,
            count == digits@.len() >= 1,
            forall|i: int| 0 <= i < digits@.len() ==> (#[trigger] digits@[i]) < 10,
            s@ == spec_digits_reversed(digits@).subrange(0, j as int),
        decreases count - j,
    {
        let d = digits[count - 1 - j];
        push_digit_char(&mut s, d);
        proof {
            assert(s@ =~= spec_digits_reversed(digits@).subrange(0, j + 1));
        }
        j += 1;
    }
    proof {
        assert(spec_digits_reversed(digits@).subrange(0, count as int) =~= spec_digits_reversed(
            digits@,
        ));
    }
    s
}

/// A fresh player with the given id, name and stack, seated out of
/// any hand.
pub fn init_player(id: u32, name: &str, chips: u32) -> (p: Player)
    ensures
        p == (Player {
            id,
            name: p.name,
            hole_cards: None,
            chips,
            last_action: None,
            in_hand: false,
            all_in: false,
        }),
        p.name@ == name@,
{
    let name = name.to_owned();
    Player { id, name, hole_cards: None, chips, last_action: None, in_hand: false, all_in: false }
}

/// A roster of `num_players` fresh players, ids 0 up, each named
/// "Player <id>" and staked with `chips`.
pub fn init_players(num_players: u32, user_player: bool, chips: u32) -> (ps: PlayerVec)
    ensures
        ps@.len() == num_players,
        forall|i: int| 0 <= i < num_players ==> {
            let p = #[trigger] ps@[i];
            &&& p.id == i
            &&& p.name@ == "Player "@ + spec_decimal(i)
            &&& p.hole_cards is None
            &&& p.chips == chips
            &&& p.last_action is None
            &&& !p.in_hand
            &&& !p.all_in
        },
{
    let mut ps: PlayerVec = Vec::new();
    let mut i: u32 = 0;
    while i < num_players
        invariant
            i <= num_players,
            ps@.len() == i,
            forall|j: int| 0 <= j < i ==> {
                let p = #[trigger] ps@[j];
                &&& p.id == j
                &&& p.name@ == "Player "@ + spec_decimal(j)
                &&& p.hole_cards is None
                &&& p.chips == chips
                &&& p.last_action is None
                &&& !p.in_hand
                &&& !p.all_in
            },
        decreases num_players - i,
    {
        let mut name = String::from_str("Player ");
        let digits = decimal_string(i);
        name.append(digits.as_str());
        let p = init_player(i, name.as_str(), chips);
        ps.push(p);
        i += 1;
    }
    ps
}

} // verus!
