//! An ordered, mutable collection of cards: draw from the end, draw from an
//! arbitrary position (closing the gap), append a single card, and merge
//! another deck's contents. The same type serves as the shoe, the discard
//! pile and, conceptually, each hand's card list.

use vstd::prelude::*;

use crate::cards::{
    spec_rank_from_ordinal, spec_rank_ordinal, spec_suit_from_ordinal, spec_suit_ordinal, Card,
    Rank, Suit,
};

verus! {

/// The card standing at position `i` of a standard deck: the deck is ordered
/// by `suit_ordinal * 13 + rank_ordinal` ascending, so position `i` holds the
/// suit `i / 13` and the rank `i % 13`.
pub open spec fn spec_standard_card(i: int) -> Card {
    Card { suit: spec_suit_from_ordinal(i / 13), rank: spec_rank_from_ordinal(i % 13) }
}

/// An ordered sequence of cards, duplicates allowed; the insertion order is
/// meaningful, as it determines the draw order. Its view is the sequence of
/// cards currently held, front first.
#[derive(Debug, Clone)]
pub struct Deck {
    cards: Vec<Card>,
}

impl View for Deck {
    type V = Seq<Card>;

    closed spec fn view(&self) -> Seq<Card> {
        self.cards@
    }
}

impl Default for Deck {
    /// Generate a deck of 52 cards, ordered by suit (Clubs, Diamonds,
    /// Hearts, Spades) and rank (Ace to King). No jokers are added.
    fn default() -> (d: Self)
        ensures
            d@.len() == 52,
            forall|i: int| 0 <= i < 52 ==> d@[i] == spec_standard_card(i),
    {
        let mut cards: Vec<Card> = Vec::with_capacity(52);
        for i in 0..52u8
            invariant
                cards@.len() == i,
                forall|j: int| 0 <= j < i ==> cards@[j] == spec_standard_card(j),
        {
            cards.push(Card::from_ordinals(i / 13, i % 13));
        }
        Deck { cards }
    }
}

impl Deck {
    /// Create a standard deck of 52 cards in canonical order.
    pub fn new() -> (d: Self)
        ensures
            d@.len() == 52,
            forall|i: int| 0 <= i < 52 ==> d@[i] == spec_standard_card(i),
    {
        Deck::default()
    }

    /// Create an empty deck of cards.
    pub fn new_empty() -> (d: Self)
        ensures
            d@.len() == 0,
    {
        Deck { cards: Vec::with_capacity(52) }
    }

    /// Draw the card at the end of the deck; `None` when the deck is empty.
    pub fn draw(&mut self) -> (r: Option<Card>)
        ensures
            old(self)@.len() == 0 ==> r is None && final(self)@ == old(self)@,
            old(self)@.len() > 0 ==> r == Some(old(self)@.last()) && final(self)@ == old(
                self,
            )@.drop_last(),
    {
        self.cards.pop()
    }

    /// Draw the card at position `n`, counted from the front; every card
    /// after it shifts one position earlier. `None` when `n` is not a valid
    /// index, leaving the deck untouched.
    pub fn draw_nth(&mut self, n: usize) -> (r: Option<Card>)
        ensures
            n < old(self)@.len() ==> r == Some(old(self)@[n as int]) && final(self)@ == old(
                self,
            )@.remove(n as int),
            n >= old(self)@.len() ==> r is None && final(self)@ == old(self)@,
    {
        if n < self.cards.len() {
            Some(self.cards.remove(n))
        } else {
            None
        }
    }

    /// Add a card to the end of the deck.
    pub fn add(&mut self, card: Card)
        ensures
            final(self)@ == old(self)@.push(card),
    {
        self.cards.push(card);
    }

    /// Append all of `deck`'s cards, in their current order, to the end of
    /// this deck, leaving `deck` empty.
    pub fn add_deck(&mut self, deck: &mut Self)
        ensures
            final(self)@ == old(self)@ + old(deck)@,
            final(deck)@.len() == 0,
    {
        self.cards.append(&mut deck.cards);
    }

    /// The number of cards currently held.
    pub fn len(&self) -> (r: usize)
        ensures
            r == self@.len(),
    {
        self.cards.len()
    }
}

/// Every position of a standard deck holds the card whose combined ordinal
/// `suit_ordinal * 13 + rank_ordinal` equals that position, so drawing from
/// the end yields combined ordinals 51 down to 0.
pub proof fn lemma_standard_card_index(i: int)
    requires
        0 <= i < 52,
    ensures
        spec_suit_ordinal(spec_standard_card(i).suit) * 13 + spec_rank_ordinal(
            spec_standard_card(i).rank,
        ) == i,
        spec_standard_card(i).rank != Rank::Joker,
        spec_standard_card(i).suit != Suit::NoSuit,
{
    vstd::arithmetic::div_mod::lemma_fundamental_div_mod(i, 13);
    assert(0 <= i / 13 <= 3);
    assert(0 <= i % 13 <= 12);
}

/// Drawing the card at any valid position conserves the cards: the multiset
/// of the deck beforehand is exactly the multiset afterwards plus the card
/// drawn, and the length decreases by exactly one.
pub proof fn lemma_draw_nth_conservation(s: Seq<Card>, n: int)
    requires
        0 <= n < s.len(),
    ensures
        s.remove(n).len() == s.len() - 1,
        s.to_multiset() == s.remove(n).to_multiset().insert(s[n]),
{
    broadcast use vstd::seq_lib::group_to_multiset_ensures;

    assert(s.to_multiset().contains(s[n]));
    assert(s.remove(n).to_multiset() =~= s.to_multiset().remove(s[n]));
    assert(s.to_multiset() =~= s.remove(n).to_multiset().insert(s[n]));
}

} // verus!
