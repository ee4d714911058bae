//! Cards: thirteen ordered ranks and four unordered suits, with
//! text parsing and display helpers.

use vstd::prelude::*;
use vstd::string::StrSliceExecFns;
use vstd::string::StringExecFns;

verus! {

/// The thirteen card ranks, ordered from Two (lowest) to Ace (highest).
#[derive(Copy, Clone, Eq, PartialEq, Structural, Debug, Hash)]
pub enum Rank {
    Two,
    Three,
    Four,
    Five,
    Six,
    Seven,
    Eight,
    Nine,
    Ten,
    Jack,
    Queen,
    King,
    Ace,
}

pub type RankVec = Vec<Rank>;

impl Rank {
    /// The ordinal value of a rank: Two is 0, Ace is 12.
    pub open spec fn spec_val(self) -> int {
        match self {
            Rank::Two => 0,
            Rank::Three => 1,
            Rank::Four => 2,
            Rank::Five => 3,
            Rank::Six => 4,
            Rank::Seven => 5,
            Rank::Eight => 6,
            Rank::Nine => 7,
            Rank::Ten => 8,
            Rank::Jack => 9,
            Rank::Queen => 10,
            Rank::King => 11,
            Rank::Ace => 12,
        }
    }

    /// The ordinal value of a rank: Two is 0, Ace is 12.
    pub fn val(self) -> (v: u32)
        ensures
            v == self.spec_val(),
    {
        match self {
            Rank::Two => 0,
            Rank::Three => 1,
            Rank::Four => 2,
            Rank::Five => 3,
            Rank::Six => 4,
            Rank::Seven => 5,
            Rank::Eight => 6,
            Rank::Nine => 7,
            Rank::Ten => 8,
            Rank::Jack => 9,
            Rank::Queen => 10,
            Rank::King => 11,
            Rank::Ace => 12,
        }
    }

    /// The one- or two-character symbol of a rank: "2" .. "9", "T",
    /// "J", "Q", "K", "A".
    pub open spec fn spec_symbol(self) -> Seq<char> {
        match self {
            Rank::Two => "2"@,
            Rank::Three => "3"@,
            Rank::Four => "4"@,
            Rank::Five => "5"@,
            Rank::Six => "6"@,
            Rank::Seven => "7"@,
            Rank::Eight => "8"@,
            Rank::Nine => "9"@,
            Rank::Ten => "T"@,
            Rank::Jack => "J"@,
            Rank::Queen => "Q"@,
            Rank::King => "K"@,
            Rank::Ace => "A"@,
        }
    }

    /// The rank's symbol as an owned string.
    pub fn to_string(self) -> (s: String)
        ensures
            s@ == self.spec_symbol(),
    {
        match self {
            Rank::Two => String::from_str("2"),
            Rank::Three => String::from_str("3"),
            Rank::Four => String::from_str("4"),
            Rank::Five => String::from_str("5"),
            Rank::Six => String::from_str("6"),
            Rank::Seven => String::from_str("7"),
            Rank::Eight => String::from_str("8"),
            Rank::Nine => String::from_str("9"),
            Rank::Ten => String::from_str("T"),
            Rank::Jack => String::from_str("J"),
            Rank::Queen => String::from_str("Q"),
            Rank::King => String::from_str("K"),
            Rank::Ace => String::from_str("A"),
        }
    }
}

/// All thirteen ranks in ascending order.
pub open spec fn spec_ranks() -> Seq<Rank> {
    seq![
        Rank::Two,
        Rank::Three,
        Rank::Four,
        Rank::Five,
        Rank::Six,
        Rank::Seven,
        Rank::Eight,
        Rank::Nine,
        Rank::Ten,
        Rank::Jack,
        Rank::Queen,
        Rank::King,
        Rank::Ace,
    ]
}

/// All thirteen ranks in ascending order.
pub fn ranks() -> (r: [Rank; 13])
    ensures
        r@ == spec_ranks(),
{
    let r = [
        Rank::Two,
        Rank::Three,
        Rank::Four,
        Rank::Five,
        Rank::Six,
        Rank::Seven,
        Rank::Eight,
        Rank::Nine,
        Rank::Ten,
        Rank::Jack,
        Rank::Queen,
        Rank::King,
        Rank::Ace,
    ];
    proof {
        assert(r@ =~= spec_ranks());
    }
    r
}

/// ASCII lower-casing of a single character; all other characters
/// are left unchanged.
pub open spec fn spec_lower_char(c: char) -> char {
    if 'A' <= c && c <= 'Z' {
        ((c as u8) + 32) as char
    } else {
        c
    }
}

/// Two character sequences are equal once upper-case ASCII letters
/// are lowered.
pub open spec fn eq_ignore_ascii_case(s: Seq<char>, t: Seq<char>) -> bool {
    s.len() == t.len() && forall|i: int|
        0 <= i < s.len() ==> spec_lower_char(s[i]) == spec_lower_char(t[i])
}

fn lower_char(c: char) -> (r: char)
    ensures
        r == spec_lower_char(c),
{
    if 'A' <= c && c <= 'Z' {
        ((c as u8) + 32) as char
    } else {
        c
    }
}

/// Character-wise comparison of two strings, blind to ASCII case.
fn str_eq_ignore_case(a: &str, b: &str) -> (r: bool)
    ensures
        r == eq_ignore_ascii_case(a@, b@),
{
    let alen = a.unicode_len();
    let blen = b.unicode_len();
    if alen != blen {
        return false;
    }
    let mut i: usize = 0;
    while i < alen
        invariant
            alen == a@.len(),
            alen == b@.len(),
            i <= alen,
            forall|j: int| 0 <= j < i ==> spec_lower_char(a@[j]) == spec_lower_char(b@[j]),
        decreases alen - i,
    {
        let ca = lower_char(a.get_char(i));
        let cb = lower_char(b.get_char(i));
        if ca != cb {
            return false;
        }
        i += 1;
    }
    true
}

/// Character-wise comparison of two strings.
fn str_eq(a: &str, b: &str) -> (r: bool)
    ensures
        r == (a@ == b@),
{
    let alen = a.unicode_len();
    let blen = b.unicode_len();
    if alen != blen {
        return false;
    }
    let mut i: usize = 0;
    while i < alen
        invariant
            alen == a@.len(),
            alen == b@.len(),
            i <= alen,
            forall|j: int| 0 <= j < i ==> a@[j] == b@[j],
        decreases alen - i,
    {
        if a.get_char(i) != b.get_char(i) {
            return false;
        }
        i += 1;
    }
    proof {
        assert(a@ =~= b@);
    }
    true
}

/// A rank symbol that could not be parsed; holds the offending text.
pub struct RankParseError(pub String);

/// Which rank a piece of text names, blind to ASCII case: the rank
/// symbols, "10", and the English rank names are accepted.
pub open spec fn spec_parse_rank(s: Seq<char>) -> Option<Rank> {
    if eq_ignore_ascii_case(s, "2"@) || eq_ignore_ascii_case(s, "two"@) {
        Some(Rank::Two)
    } else if eq_ignore_ascii_case(s, "3"@) || eq_ignore_ascii_case(s, "three"@) {
        Some(Rank::Three)
    } else if eq_ignore_ascii_case(s, "4"@) || eq_ignore_ascii_case(s, "four"@) {
        Some(Rank::Four)
    } else if eq_ignore_ascii_case(s, "5"@) || eq_ignore_ascii_case(s, "five"@) {
        Some(Rank::Five)
    } else if eq_ignore_ascii_case(s, "6"@) || eq_ignore_ascii_case(s, "six"@) {
        Some(Rank::Six)
    } else if eq_ignore_ascii_case(s, "7"@) || eq_ignore_ascii_case(s, "seven"@) {
        Some(Rank::Seven)
    } else if eq_ignore_ascii_case(s, "8"@) || eq_ignore_ascii_case(s, "eight"@) {
        Some(Rank::Eight)
    } else if eq_ignore_ascii_case(s, "9"@) || eq_ignore_ascii_case(s, "nine"@) {
        Some(Rank::Nine)
    } else if eq_ignore_ascii_case(s, "t"@) || eq_ignore_ascii_case(s, "10"@)
        || eq_ignore_ascii_case(s, "ten"@) {
        Some(Rank::Ten)
    } else if eq_ignore_ascii_case(s, "j"@) || eq_ignore_ascii_case(s, "jack"@) {
        Some(Rank::Jack)
    } else if eq_ignore_ascii_case(s, "q"@) || eq_ignore_ascii_case(s, "queen"@) {
        Some(Rank::Queen)
    } else if eq_ignore_ascii_case(s, "k"@) || eq_ignore_ascii_case(s, "king"@) {
        Some(Rank::King)
    } else if eq_ignore_ascii_case(s, "a"@) || eq_ignore_ascii_case(s, "ace"@) {
        Some(Rank::Ace)
    } else {
        None
    }
}

/// Parse a rank symbol or name, blind to ASCII case; `None` when the
/// text names no rank.
fn parse_rank(rank: &str) -> (r: Option<Rank>)
    ensures
        r == spec_parse_rank(rank@),
{
    if str_eq_ignore_case(rank, "2") || str_eq_ignore_case(rank, "two") {
        Some(Rank::Two)
    } else if str_eq_ignore_case(rank, "3") || str_eq_ignore_case(rank, "three") {
        Some(Rank::Three)
    } else if str_eq_ignore_case(rank, "4") || str_eq_ignore_case(rank, "four") {
        Some(Rank::Four)
    } else if str_eq_ignore_case(rank, "5") || str_eq_ignore_case(rank, "five") {
        Some(Rank::Five)
    } else if str_eq_ignore_case(rank, "6") || str_eq_ignore_case(rank, "six") {
        Some(Rank::Six)
    } else if str_eq_ignore_case(rank, "7") || str_eq_ignore_case(rank, "seven") {
        Some(Rank::Seven)
    } else if str_eq_ignore_case(rank, "8") || str_eq_ignore_case(rank, "eight") {
        Some(Rank::Eight)
    } else if str_eq_ignore_case(rank, "9") || str_eq_ignore_case(rank, "nine") {
        Some(Rank::Nine)
    } else if str_eq_ignore_case(rank, "t") || str_eq_ignore_case(rank, "10")
        || str_eq_ignore_case(rank, "ten") {
        Some(Rank::Ten)
    } else if str_eq_ignore_case(rank, "j") || str_eq_ignore_case(rank, "jack") {
        Some(Rank::Jack)
    } else if str_eq_ignore_case(rank, "q") || str_eq_ignore_case(rank, "queen") {
        Some(Rank::Queen)
    } else if str_eq_ignore_case(rank, "k") || str_eq_ignore_case(rank, "king") {
        Some(Rank::King)
    } else if str_eq_ignore_case(rank, "a") || str_eq_ignore_case(rank, "ace") {
        Some(Rank::Ace)
    } else {
        None
    }
}

/// Which rank one of the exact symbols "2" through "9", "T", "10",
/// "J", "Q", "K" or "A" names; anything else, lower case included,
/// names none.
pub open spec fn spec_rank_from_str(s: Seq<char>) -> Option<Rank> {
    if s == "2"@ {
        Some(Rank::Two)
    } else if s == "3"@ {
        Some(Rank::Three)
    } else if s == "4"@ {
        Some(Rank::Four)
    } else if s == "5"@ {
        Some(Rank::Five)
    } else if s == "6"@ {
        Some(Rank::Six)
    } else if s == "7"@ {
        Some(Rank::Seven)
    } else if s == "8"@ {
        Some(Rank::Eight)
    } else if s == "9"@ {
        Some(Rank::Nine)
    } else if s == "T"@ || s == "10"@ {
        Some(Rank::Ten)
    } else if s == "J"@ {
        Some(Rank::Jack)
    } else if s == "Q"@ {
        Some(Rank::Queen)
    } else if s == "K"@ {
        Some(Rank::King)
    } else if s == "A"@ {
        Some(Rank::Ace)
    } else {
        None
    }
}

/// Parse an exact rank symbol, case-sensitively: "2" through "9",
/// "T", "10", "J", "Q", "K" or "A"; `None` for any other text, never
/// a default rank.
pub fn rank_from_str(rank: &str) -> (r: Option<Rank>)
    ensures
        r == spec_rank_from_str(rank@),
{
    if str_eq(rank, "2") {
        Some(Rank::Two)
    } else if str_eq(rank, "3") {
        Some(Rank::Three)
    } else if str_eq(rank, "4") {
        Some(Rank::Four)
    } else if str_eq(rank, "5") {
        Some(Rank::Five)
    } else if str_eq(rank, "6") {
        Some(Rank::Six)
    } else if str_eq(rank, "7") {
        Some(Rank::Seven)
    } else if str_eq(rank, "8") {
        Some(Rank::Eight)
    } else if str_eq(rank, "9") {
        Some(Rank::Nine)
    } else if str_eq(rank, "T") || str_eq(rank, "10") {
        Some(Rank::Ten)
    } else if str_eq(rank, "J") {
        Some(Rank::Jack)
    } else if str_eq(rank, "Q") {
        Some(Rank::Queen)
    } else if str_eq(rank, "K") {
        Some(Rank::King)
    } else if str_eq(rank, "A") {
        Some(Rank::Ace)
    } else {
        None
    }
}

impl core::str::FromStr for Rank {
    type Err = RankParseError;

    fn from_str(rank: &str) -> Result<Self, RankParseError> {
        match parse_rank(rank) {
            Some(r) => Ok(r),
            None => Err(RankParseError(rank.to_owned())),
        }
    }
}

/// The four suits; no suit outranks another.
#[derive(Copy, Clone, Eq, PartialEq, Structural, Debug, Hash)]
pub enum Suit {
    Spades,
    Hearts,
    Diamonds,
    Clubs,
}

/// All four suits.
pub open spec fn spec_suits() -> Seq<Suit> {
    seq![Suit::Spades, Suit::Hearts, Suit::Diamonds, Suit::Clubs]
}

/// All four suits.
pub fn suits() -> (r: [Suit; 4])
    ensures
        r@ == spec_suits(),
{
    let r = [Suit::Spades, Suit::Hearts, Suit::Diamonds, Suit::Clubs];
    proof {
        assert(r@ =~= spec_suits());
    }
    r
}

impl Suit {
    /// The suit's one-character unicode symbol.
    pub open spec fn spec_unicode_symbol(self) -> Seq<char> {
        match self {
            Suit::Spades => "\u{2660}"@,
            Suit::Hearts => "\u{2665}"@,
            Suit::Diamonds => "\u{2666}"@,
            Suit::Clubs => "\u{2663}"@,
        }
    }

    /// The suit's unicode symbol as an owned string.
    pub fn to_unicode_string(self) -> (s: String)
        ensures
            s@ == self.spec_unicode_symbol(),
    {
        match self {
            Suit::Spades => String::from_str("\u{2660}"),
            Suit::Hearts => String::from_str("\u{2665}"),
            Suit::Diamonds => String::from_str("\u{2666}"),
            Suit::Clubs => String::from_str("\u{2663}"),
        }
    }

    /// The suit's one-letter ASCII abbreviation.
    pub open spec fn spec_ascii_symbol(self) -> Seq<char> {
        match self {
            Suit::Spades => "S"@,
            Suit::Hearts => "H"@,
            Suit::Diamonds => "D"@,
            Suit::Clubs => "C"@,
        }
    }

    /// The suit's ASCII abbreviation as an owned string.
    pub fn to_ascii_string(self) -> (s: String)
        ensures
            s@ == self.spec_ascii_symbol(),
    {
        match self {
            Suit::Spades => String::from_str("S"),
            Suit::Hearts => String::from_str("H"),
            Suit::Diamonds => String::from_str("D"),
            Suit::Clubs => String::from_str("C"),
        }
    }
}

/// A suit symbol that could not be parsed; holds the offending text.
pub struct SuitParseError(pub String);

/// Which suit a piece of text names, blind to ASCII case: the one
/// letter abbreviations, the English suit names, and the unicode
/// symbols are accepted.
pub open spec fn spec_parse_suit(s: Seq<char>) -> Option<Suit> {
    if eq_ignore_ascii_case(s, "s"@) || eq_ignore_ascii_case(s, "spades"@)
        || eq_ignore_ascii_case(s, "\u{2660}"@) {
        Some(Suit::Spades)
    } else if eq_ignore_ascii_case(s, "h"@) || eq_ignore_ascii_case(s, "hearts"@)
        || eq_ignore_ascii_case(s, "\u{2665}"@) {
        Some(Suit::Hearts)
    } else if eq_ignore_ascii_case(s, "d"@) || eq_ignore_ascii_case(s, "diamonds"@)
        || eq_ignore_ascii_case(s, "\u{2666}"@) {
        Some(Suit::Diamonds)
    } else if eq_ignore_ascii_case(s, "c"@) || eq_ignore_ascii_case(s, "clubs"@)
        || eq_ignore_ascii_case(s, "\u{2663}"@) {
        Some(Suit::Clubs)
    } else {
        None
    }
}

/// Parse a suit symbol or name, blind to ASCII case; `None` when the
/// text names no suit.
fn parse_suit(suit: &str) -> (r: Option<Suit>)
    ensures
        r == spec_parse_suit(suit@),
{
    if str_eq_ignore_case(suit, "s") || str_eq_ignore_case(suit, "spades")
        || str_eq_ignore_case(suit, "\u{2660}") {
        Some(Suit::Spades)
    } else if str_eq_ignore_case(suit, "h") || str_eq_ignore_case(suit, "hearts")
        || str_eq_ignore_case(suit, "\u{2665}") {
        Some(Suit::Hearts)
    } else if str_eq_ignore_case(suit, "d") || str_eq_ignore_case(suit, "diamonds")
        || str_eq_ignore_case(suit, "\u{2666}") {
        Some(Suit::Diamonds)
    } else if str_eq_ignore_case(suit, "c") || str_eq_ignore_case(suit, "clubs")
        || str_eq_ignore_case(suit, "\u{2663}") {
        Some(Suit::Clubs)
    } else {
        None
    }
}

/// Which suit one of the exact letters "S", "H", "D" or "C" names;
/// anything else, lower case included, names none.
pub open spec fn spec_suit_from_str(s: Seq<char>) -> Option<Suit> {
    if s == "S"@ {
        Some(Suit::Spades)
    } else if s == "H"@ {
        Some(Suit::Hearts)
    } else if s == "D"@ {
        Some(Suit::Diamonds)
    } else if s == "C"@ {
        Some(Suit::Clubs)
    } else {
        None
    }
}

/// Parse an exact suit letter, case-sensitively: "S", "H", "D" or
/// "C"; `None` for any other text, never a default suit.
pub fn suit_from_str(suit: &str) -> (r: Option<Suit>)
    ensures
        r == spec_suit_from_str(suit@),
{
    if str_eq(suit, "S") {
        Some(Suit::Spades)
    } else if str_eq(suit, "H") {
        Some(Suit::Hearts)
    } else if str_eq(suit, "D") {
        Some(Suit::Diamonds)
    } else if str_eq(suit, "C") {
        Some(Suit::Clubs)
    } else {
        None
    }
}

impl core::str::FromStr for Suit {
    type Err = SuitParseError;

    fn from_str(suit: &str) -> Result<Self, SuitParseError> {
        match parse_suit(suit) {
            Some(s) => Ok(s),
            None => Err(SuitParseError(suit.to_owned())),
        }
    }
}

/// A playing card: a rank and a suit.
#[derive(Copy, Clone, Eq, PartialEq, Structural, Debug, Hash)]
pub struct Card {
    pub rank: Rank,
    pub suit: Suit,
}

pub type CardVec = Vec<Card>;

impl Card {
    /// The card's text form, rank symbol first: "A of ♠".
    pub fn to_string(self) -> (s: String)
        ensures
            s@ == self.rank.spec_symbol() + " of "@ + self.suit.spec_unicode_symbol(),
    {
        let mut s = self.rank.to_string();
        s.append(" of ");
        let suit_sym = self.suit.to_unicode_string();
        s.append(suit_sym.as_str());
        s
    }
}

/// Build a card from a rank text and a suit text, both of which must
/// parse.
pub fn card_from_str(rank: &str, suit: &str) -> (c: Card)
    requires
        spec_parse_rank(rank@) is Some,
        spec_parse_suit(suit@) is Some,
    ensures
        c.rank == spec_parse_rank(rank@)->Some_0,
        c.suit == spec_parse_suit(suit@)->Some_0,
{
    let r = match parse_rank(rank) {
        Some(r) => r,
        None => vstd::pervasive::unreached(),
    };
    let s = match parse_suit(suit) {
        Some(s) => s,
        None => vstd::pervasive::unreached(),
    };
    Card { rank: r, suit: s }
}

} // verus!
