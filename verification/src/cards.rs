//! The card model: suits, ranks and cards, with a canonical ordinal mapping.
//!
//! Ordinals 0..=3 name the four real suits and 0..=12 the thirteen playable
//! ranks. Construction from ordinals is total: an out-of-range suit ordinal
//! degrades to the sentinel `Suit::NoSuit`, an out-of-range rank ordinal to the
//! sentinel `Rank::Joker`.

use vstd::prelude::*;

verus! {

/// A card's suit. `NoSuit` is a sentinel for an invalid or absent suit, as
/// carried by a joker; it never occurs in a standard deck.
#[derive(Debug, Copy, Clone, PartialEq, Eq, Structural)]
pub enum Suit {
    Clubs,
    Diamonds,
    Hearts,
    Spades,
    NoSuit,
}

/// The ordinal of a suit: 0..=3 for the real suits in deck-construction
/// order (Clubs < Diamonds < Hearts < Spades), 4 for the sentinel.
pub open spec fn spec_suit_ordinal(s: Suit) -> int {
    match s {
        Suit::Clubs => 0,
        Suit::Diamonds => 1,
        Suit::Hearts => 2,
        Suit::Spades => 3,
        Suit::NoSuit => 4,
    }
}

/// The suit named by an ordinal; anything outside 0..=3 degrades to the
/// sentinel `Suit::NoSuit`.
pub open spec fn spec_suit_from_ordinal(s: int) -> Suit {
    if s == 0 {
        Suit::Clubs
    } else if s == 1 {
        Suit::Diamonds
    } else if s == 2 {
        Suit::Hearts
    } else if s == 3 {
        Suit::Spades
    } else {
        Suit::NoSuit
    }
}

impl Suit {
    /// Convert a `Suit` variant to its ordinal value.
    pub fn to_ordinal(&self) -> (r: u8)
        ensures
            r == spec_suit_ordinal(*self),
    {
        match self {
            Suit::Clubs => 0,
            Suit::Diamonds => 1,
            Suit::Hearts => 2,
            Suit::Spades => 3,
            _ => 4,
        }
    }

    /// Convert an ordinal value to a `Suit` variant.
    pub fn from_ordinal(suit: u8) -> (r: Self)
        ensures
            r == spec_suit_from_ordinal(suit as int),
    {
        match suit {
            0 => Suit::Clubs,
            1 => Suit::Diamonds,
            2 => Suit::Hearts,
            3 => Suit::Spades,
            _ => Suit::NoSuit,
        }
    }
}

/// Converting a real suit to its ordinal and back yields the same suit, and
/// every ordinal outside 0..=3 yields the sentinel.
pub proof fn lemma_suit_ordinal_round_trip()
    ensures
        forall|s: int|
            0 <= s <= 3 ==> spec_suit_ordinal(#[trigger] spec_suit_from_ordinal(s)) == s,
        forall|s: int| !(0 <= s <= 3) ==> #[trigger] spec_suit_from_ordinal(s) == Suit::NoSuit,
        forall|s: Suit|
            s != Suit::NoSuit ==> spec_suit_from_ordinal(#[trigger] spec_suit_ordinal(s)) == s,
{
}

/// A card's rank. `Joker` is a sentinel: it is not a playable rank, never
/// occurs in a standard deck, and is rejected by the blackjack evaluator.
#[derive(Debug, Copy, Clone, PartialEq, Eq, Structural, PartialOrd)]
pub enum Rank {
    Ace,
    Two,
    Three,
    Four,
    Five,
    Six,
    Seven,
    Eight,
    Nine,
    Ten,
    Jack,
    Queen,
    King,
    Joker,
}

/// The ordinal of a rank: 0..=12 for Ace..=King, 13 for the sentinel.
pub open spec fn spec_rank_ordinal(r: Rank) -> int {
    match r {
        Rank::Ace => 0,
        Rank::Two => 1,
        Rank::Three => 2,
        Rank::Four => 3,
        Rank::Five => 4,
        Rank::Six => 5,
        Rank::Seven => 6,
        Rank::Eight => 7,
        Rank::Nine => 8,
        Rank::Ten => 9,
        Rank::Jack => 10,
        Rank::Queen => 11,
        Rank::King => 12,
        Rank::Joker => 13,
    }
}

/// The rank named by an ordinal; anything outside 0..=12 degrades to the
/// sentinel `Rank::Joker`.
pub open spec fn spec_rank_from_ordinal(r: int) -> Rank {
    if r == 0 {
        Rank::Ace
    } else if r == 1 {
        Rank::Two
    } else if r == 2 {
        Rank::Three
    } else if r == 3 {
        Rank::Four
    } else if r == 4 {
        Rank::Five
    } else if r == 5 {
        Rank::Six
    } else if r == 6 {
        Rank::Seven
    } else if r == 7 {
        Rank::Eight
    } else if r == 8 {
        Rank::Nine
    } else if r == 9 {
        Rank::Ten
    } else if r == 10 {
        Rank::Jack
    } else if r == 11 {
        Rank::Queen
    } else if r == 12 {
        Rank::King
    } else {
        Rank::Joker
    }
}

impl Rank {
    /// Convert a `Rank` variant to its ordinal value.
    pub fn to_ordinal(&self) -> (r: u8)
        ensures
            r == spec_rank_ordinal(*self),
    {
        match self {
            Rank::Ace => 0,
            Rank::Two => 1,
            Rank::Three => 2,
            Rank::Four => 3,
            Rank::Five => 4,
            Rank::Six => 5,
            Rank::Seven => 6,
            Rank::Eight => 7,
            Rank::Nine => 8,
            Rank::Ten => 9,
            Rank::Jack => 10,
            Rank::Queen => 11,
            Rank::King => 12,
            _ => 13,
        }
    }

    /// Convert an ordinal value to a `Rank` variant.
    pub fn from_ordinal(rank: u8) -> (r: Self)
        ensures
            r == spec_rank_from_ordinal(rank as int),
    {
        match rank {
            0 => Rank::Ace,
            1 => Rank::Two,
            2 => Rank::Three,
            3 => Rank::Four,
            4 => Rank::Five,
            5 => Rank::Six,
            6 => Rank::Seven,
            7 => Rank::Eight,
            8 => Rank::Nine,
            9 => Rank::Ten,
            10 => Rank::Jack,
            11 => Rank::Queen,
            12 => Rank::King,
            _ => Rank::Joker,
        }
    }
}

/// Converting a playable rank to its ordinal and back yields the same rank,
/// and every ordinal outside 0..=12 yields the sentinel.
pub proof fn lemma_rank_ordinal_round_trip()
    ensures
        forall|r: int|
            0 <= r <= 12 ==> spec_rank_ordinal(#[trigger] spec_rank_from_ordinal(r)) == r,
        forall|r: int| !(0 <= r <= 12) ==> #[trigger] spec_rank_from_ordinal(r) == Rank::Joker,
        forall|r: Rank|
            r != Rank::Joker ==> spec_rank_from_ordinal(#[trigger] spec_rank_ordinal(r)) == r,
{
}

/// An immutable pair of suit and rank with structural equality.
#[derive(Debug, Copy, Clone, PartialEq, Eq, Structural)]
pub struct Card {
    pub suit: Suit,
    pub rank: Rank,
}

impl Default for Card {
    /// The default card is the Ace of Clubs.
    fn default() -> (r: Self)
        ensures
            r == (Card { suit: Suit::Clubs, rank: Rank::Ace }),
    {
        Card { suit: Suit::Clubs, rank: Rank::Ace }
    }
}

impl Card {
    /// Construct a default card (Suit = `Suit::Clubs`, Rank = `Rank::Ace`).
    pub fn new() -> (r: Self)
        ensures
            r == (Card { suit: Suit::Clubs, rank: Rank::Ace }),
    {
        Card::default()
    }

    /// Construct a card using ordinal values, 0..=3 for suit and 0..=12 for
    /// rank; out-of-range ordinals degrade to the sentinels.
    pub fn from_ordinals(suit: u8, rank: u8) -> (r: Self)
        ensures
            r == (Card {
                suit: spec_suit_from_ordinal(suit as int),
                rank: spec_rank_from_ordinal(rank as int),
            }),
    {
        Card { suit: Suit::from_ordinal(suit), rank: Rank::from_ordinal(rank) }
    }

    /// Construct a card from suit and rank values.
    pub fn from_suit_and_rank(suit: Suit, rank: Rank) -> (r: Self)
        ensures
            r == (Card { suit, rank }),
    {
        Card { suit, rank }
    }

    /// Replace the rank, leaving the suit untouched.
    pub fn set_rank(&mut self, rank: Rank)
        ensures
            final(self).rank == rank,
            final(self).suit == old(self).suit,
    {
        self.rank = rank;
    }

    /// Replace the suit, leaving the rank untouched.
    pub fn set_suit(&mut self, suit: Suit)
        ensures
            final(self).suit == suit,
            final(self).rank == old(self).rank,
    {
        self.suit = suit;
    }

    /// Read-only view of the rank.
    pub fn rank(&self) -> (r: &Rank)
        ensures
            *r == self.rank,
    {
        &self.rank
    }

    /// Read-only view of the suit.
    pub fn suit(&self) -> (r: &Suit)
        ensures
            *r == self.suit,
    {
        &self.suit
    }
}

/// A card built from in-range ordinals round-trips to exactly that suit and
/// rank pair; out-of-range ordinals yield the joker sentinels.
pub proof fn lemma_card_from_ordinals_round_trip()
    ensures
        forall|s: int, r: int|
            0 <= s <= 3 && 0 <= r <= 12 ==> spec_suit_ordinal(
                #[trigger] spec_suit_from_ordinal(s),
            ) == s && spec_rank_ordinal(#[trigger] spec_rank_from_ordinal(r)) == r,
        forall|s: int| !(0 <= s <= 3) ==> #[trigger] spec_suit_from_ordinal(s) == Suit::NoSuit,
        forall|r: int| !(0 <= r <= 12) ==> #[trigger] spec_rank_from_ordinal(r) == Rank::Joker,
{
}

} // verus!
