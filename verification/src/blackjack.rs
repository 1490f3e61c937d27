//! The blackjack hand evaluator: a hand's dual hard/soft total, best-total
//! resolution, and the comparison of a player hand against a dealer hand,
//! including the natural-blackjack and bust special cases.

use vstd::prelude::*;

use crate::cards::{Card, Rank};

verus! {

/// The hard value a card contributes to a hand: an Ace counts 11, court
/// cards and Tens count 10, the numeric ranks count their face value. The
/// joker sentinel is given 0 here so that the value is total; the evaluator
/// never accepts a joker.
pub open spec fn spec_card_hard(c: Card) -> int {
    match c.rank {
        Rank::Ace => 11,
        Rank::Two => 2,
        Rank::Three => 3,
        Rank::Four => 4,
        Rank::Five => 5,
        Rank::Six => 6,
        Rank::Seven => 7,
        Rank::Eight => 8,
        Rank::Nine => 9,
        Rank::Ten => 10,
        Rank::Jack => 10,
        Rank::Queen => 10,
        Rank::King => 10,
        Rank::Joker => 0,
    }
}

/// The soft value a card contributes to a hand: an Ace counts 1, every other
/// card counts the same as its hard value.
pub open spec fn spec_card_soft(c: Card) -> int {
    if c.rank == Rank::Ace {
        1
    } else {
        spec_card_hard(c)
    }
}

/// The hard total of a hand: the sum of the hard values of its cards.
pub open spec fn spec_hand_hard(s: Seq<Card>) -> int
    decreases s.len(),
{
    if s.len() == 0 {
        0
    } else {
        spec_card_hard(s[0]) + spec_hand_hard(s.drop_first())
    }
}

/// The soft total of a hand: the sum of the soft values of its cards.
pub open spec fn spec_hand_soft(s: Seq<Card>) -> int
    decreases s.len(),
{
    if s.len() == 0 {
        0
    } else {
        spec_card_soft(s[0]) + spec_hand_soft(s.drop_first())
    }
}

/// A hand the evaluator accepts: one with no joker sentinel in it. A
/// standard deck never produces a joker, so every hand drawn from one is
/// acceptable.
pub open spec fn spec_hand_ok(s: Seq<Card>) -> bool {
    forall|i: int| 0 <= i < s.len() ==> (#[trigger] s[i]).rank != Rank::Joker
}

/// Appending a card adds its values to both running totals.
proof fn lemma_hand_totals_push(s: Seq<Card>, c: Card)
    ensures
        spec_hand_hard(s.push(c)) == spec_hand_hard(s) + spec_card_hard(c),
        spec_hand_soft(s.push(c)) == spec_hand_soft(s) + spec_card_soft(c),
    decreases s.len(),
{
    if s.len() == 0 {
        assert(s.push(c).drop_first() =~= s);
    } else {
        assert(s.push(c).drop_first() =~= s.drop_first().push(c));
        lemma_hand_totals_push(s.drop_first(), c);
    }
}

/// Taking one more card moves that card's values into the prefix totals.
proof fn lemma_hand_totals_take_step(s: Seq<Card>, i: int)
    requires
        0 <= i < s.len(),
    ensures
        spec_hand_hard(s.take(i + 1)) == spec_hand_hard(s.take(i)) + spec_card_hard(s[i]),
        spec_hand_soft(s.take(i + 1)) == spec_hand_soft(s.take(i)) + spec_card_soft(s[i]),
{
    assert(s.take(i + 1) =~= s.take(i).push(s[i]));
    lemma_hand_totals_push(s.take(i), s[i]);
}

/// A hand's totals split across any cut point into the totals of the prefix
/// and of the suffix.
proof fn lemma_hand_totals_split(s: Seq<Card>, i: int)
    requires
        0 <= i <= s.len(),
    ensures
        spec_hand_hard(s) == spec_hand_hard(s.take(i)) + spec_hand_hard(s.skip(i)),
        spec_hand_soft(s) == spec_hand_soft(s.take(i)) + spec_hand_soft(s.skip(i)),
    decreases i,
{
    if i == 0 {
        assert(s.take(0) =~= Seq::<Card>::empty());
        assert(s.skip(0) =~= s);
    } else {
        let d = s.drop_first();
        assert(s.take(i)[0] == s[0]);
        assert(s.take(i).drop_first() =~= d.take(i - 1));
        assert(s.skip(i) =~= d.skip(i - 1));
        lemma_hand_totals_split(d, i - 1);
    }
}

/// Both totals of a hand are non-negative and the soft total never exceeds
/// the hard total, because no card's soft value exceeds its hard value.
proof fn lemma_hand_totals_bounds(s: Seq<Card>)
    ensures
        0 <= spec_hand_soft(s) <= spec_hand_hard(s),
    decreases s.len(),
{
    if s.len() > 0 {
        lemma_hand_totals_bounds(s.drop_first());
    }
}

/// Removing the card at any position takes exactly its values out of the
/// totals.
proof fn lemma_hand_totals_remove(s: Seq<Card>, i: int)
    requires
        0 <= i < s.len(),
    ensures
        spec_hand_hard(s) == spec_card_hard(s[i]) + spec_hand_hard(s.remove(i)),
        spec_hand_soft(s) == spec_card_soft(s[i]) + spec_hand_soft(s.remove(i)),
    decreases s.len(),
{
    if i == 0 {
        assert(s.remove(0) =~= s.drop_first());
    } else {
        let d = s.drop_first();
        assert(s.remove(i)[0] == s[0]);
        assert(s.remove(i).drop_first() =~= d.remove(i - 1));
        lemma_hand_totals_remove(d, i - 1);
    }
}

/// Hand totals are order-independent: two hands holding the same cards, in
/// any order and with the same multiplicities, have the same hard total and
/// the same soft total.
pub proof fn lemma_hand_value_permutation(h1: Seq<Card>, h2: Seq<Card>)
    requires
        h1.to_multiset() == h2.to_multiset(),
    ensures
        spec_hand_hard(h1) == spec_hand_hard(h2),
        spec_hand_soft(h1) == spec_hand_soft(h2),
    decreases h1.len(),
{
    broadcast use vstd::seq_lib::group_to_multiset_ensures;

    assert(h1.to_multiset().len() == h1.len());
    assert(h2.to_multiset().len() == h2.len());
    if h1.len() == 0 {
        assert(h2.len() == 0);
    } else {
        let c = h1[0];
        assert(h2.to_multiset().count(c) > 0);
        assert(h2.contains(c));
        let j = choose|j: int| 0 <= j < h2.len() && h2[j] == c;
        lemma_hand_totals_remove(h1, 0);
        lemma_hand_totals_remove(h2, j);
        assert(h1.remove(0).to_multiset() =~= h1.to_multiset().remove(c));
        assert(h2.remove(j).to_multiset() =~= h2.to_multiset().remove(c));
        lemma_hand_value_permutation(h1.remove(0), h2.remove(j));
    }
}

/// The best reading of a hard/soft pair: when the hard total busts, the
/// lower of the two is reported (the soft reading if it saves the hand, the
/// minimum of two busting readings otherwise); when it does not bust, the
/// higher of the two is taken, counting Aces as 11 whenever that is safe.
pub open spec fn spec_best(hard: int, soft: int) -> int {
    if hard > 21 {
        if soft <= hard {
            soft
        } else {
            hard
        }
    } else {
        if soft >= hard {
            soft
        } else {
            hard
        }
    }
}

/// The best total of a whole hand.
pub open spec fn spec_best_of_hand(s: Seq<Card>) -> int {
    spec_best(spec_hand_hard(s), spec_hand_soft(s))
}

/// A hand's dual total: `hard_total` counts every Ace as 11, `soft_total`
/// counts every Ace as 1; all other cards contribute equally to both.
#[derive(Debug, Clone, Copy, PartialEq, Eq, Structural)]
pub struct HandTotal {
    pub hard_total: u8,
    pub soft_total: u8,
}

impl Default for HandTotal {
    /// The empty hand's total: zero on both readings.
    fn default() -> (r: Self)
        ensures
            r.hard_total == 0,
            r.soft_total == 0,
    {
        Self { hard_total: 0, soft_total: 0 }
    }
}

impl HandTotal {
    /// Accumulate another total into this one, pointwise on both readings.
    pub fn add_assign(&mut self, other: Self)
        requires
            old(self).hard_total + other.hard_total <= u8::MAX,
            old(self).soft_total + other.soft_total <= u8::MAX,
        ensures
            final(self).hard_total == old(self).hard_total + other.hard_total,
            final(self).soft_total == old(self).soft_total + other.soft_total,
    {
        *self = Self {
            hard_total: self.hard_total + other.hard_total,
            soft_total: self.soft_total + other.soft_total,
        };
    }

    /// The best total this pair resolves to, per `spec_best`.
    pub fn get_best_total(&self) -> (r: u8)
        ensures
            r as int == spec_best(self.hard_total as int, self.soft_total as int),
    {
        if self.hard_total > 21 {
            if self.hard_total < self.soft_total {
                self.hard_total
            } else {
                self.soft_total
            }
        } else {
            if self.hard_total > self.soft_total {
                self.hard_total
            } else {
                self.soft_total
            }
        }
    }
}

/// The outcome of comparing a player hand against a dealer hand. The `bool`
/// is true only when the win was decided by a natural two-card 21, never by
/// an ordinary total comparison.
#[derive(Debug, Clone, Copy, PartialEq, Eq, Structural)]
pub enum HandResult {
    DealerWins(bool),
    PlayerWins(bool),
    Push,
}

/// The decision procedure for comparing two hands, in its exact precedence:
/// a player natural first (a push when the dealer also naturals), then a
/// dealer natural, then the bust check on the player alone, then plain
/// comparison of best totals.
pub open spec fn spec_compare_hands(player: Seq<Card>, dealer: Seq<Card>) -> HandResult {
    let pt = spec_best_of_hand(player);
    let dt = spec_best_of_hand(dealer);
    if player.len() == 2 && pt == 21 {
        if dealer.len() == 2 && dt == 21 {
            HandResult::Push
        } else {
            HandResult::PlayerWins(true)
        }
    } else if dealer.len() == 2 && dt == 21 {
        HandResult::DealerWins(true)
    } else if pt > 21 {
        HandResult::DealerWins(false)
    } else if pt > dt {
        HandResult::PlayerWins(false)
    } else if pt < dt {
        HandResult::DealerWins(false)
    } else {
        HandResult::Push
    }
}

/// The blackjack hand evaluator: pure functions from card lists to totals
/// and outcomes.
pub struct BlackjackEvaluator;

impl BlackjackEvaluator {
    /// The dual value a single card contributes: hard 11 / soft 1 for an
    /// Ace, 10/10 for Ten through King, face value for the numeric ranks. A
    /// joker is a precondition violation and is proved unreachable.
    pub fn get_card_value(card: &Card) -> (r: HandTotal)
        requires
            card.rank != Rank::Joker,
        ensures
            r.hard_total as int == spec_card_hard(*card),
            r.soft_total as int == spec_card_soft(*card),
    {
        match card.rank {
            Rank::Ace => HandTotal { hard_total: 11, soft_total: 1 },
            Rank::Ten | Rank::Jack | Rank::Queen | Rank::King => HandTotal {
                hard_total: 10,
                soft_total: 10,
            },
            Rank::Joker => {
                proof {
                    assert(false);
                }
                HandTotal { hard_total: 0, soft_total: 0 }
            },
            _ => {
                let v = card.rank().to_ordinal() + 1;
                HandTotal { hard_total: v, soft_total: v }
            },
        }
    }

    /// Fold the card values of a hand into one total; the empty hand yields
    /// (0, 0). The hard total must fit the total's width, which also bounds
    /// the soft total.
    pub fn hand_value(hand: &[Card]) -> (r: HandTotal)
        requires
            spec_hand_ok(hand@),
            spec_hand_hard(hand@) <= u8::MAX,
        ensures
            r.hard_total as int == spec_hand_hard(hand@),
            r.soft_total as int == spec_hand_soft(hand@),
    {
        let ghost s = hand@;
        let mut result = HandTotal::default();
        let mut i: usize = 0;
        while i < hand.len()
            invariant
                0 <= i <= s.len(),
                hand@ == s,
                spec_hand_ok(s),
                spec_hand_hard(s) <= u8::MAX,
                result.hard_total as int == spec_hand_hard(s.take(i as int)),
                result.soft_total as int == spec_hand_soft(s.take(i as int)),
            decreases s.len() - i,
        {
            proof {
                lemma_hand_totals_take_step(s, i as int);
                lemma_hand_totals_split(s, i as int + 1);
                lemma_hand_totals_bounds(s.skip(i as int + 1));
                lemma_hand_totals_bounds(s.take(i as int + 1));
            }
            let card_value = Self::get_card_value(&hand[i]);
            result.add_assign(card_value);
            i = i + 1;
        }
        proof {
            assert(s.take(s.len() as int) =~= s);
        }
        result
    }

    /// Like `hand_value`, but checks its own preconditions: `None` exactly
    /// when the hand holds a joker or its hard total does not fit.
    pub fn hand_value_checked(hand: &[Card]) -> (r: Option<HandTotal>)
        ensures
            spec_hand_ok(hand@) && spec_hand_hard(hand@) <= u8::MAX ==> r == Some(
                (HandTotal {
                    hard_total: spec_hand_hard(hand@) as u8,
                    soft_total: spec_hand_soft(hand@) as u8,
                }),
            ),
            !(spec_hand_ok(hand@) && spec_hand_hard(hand@) <= u8::MAX) ==> r is None,
    {
        let ghost s = hand@;
        let mut hard: u16 = 0;
        let mut soft: u16 = 0;
        let mut i: usize = 0;
        while i < hand.len()
            invariant
                0 <= i <= s.len(),
                hand@ == s,
                spec_hand_ok(s.take(i as int)),
                hard as int == spec_hand_hard(s.take(i as int)),
                soft as int == spec_hand_soft(s.take(i as int)),
                hard <= u8::MAX,
            decreases s.len() - i,
        {
            let card = hand[i];
            if card.rank == Rank::Joker {
                proof {
                    assert(!spec_hand_ok(s));
                }
                return None;
            }
            proof {
                lemma_hand_totals_take_step(s, i as int);
                lemma_hand_totals_bounds(s.take(i as int + 1));
                assert(spec_hand_ok(s.take(i as int + 1)));
            }
            let card_value = BlackjackEvaluator::get_card_value(&card);
            hard = hard + card_value.hard_total as u16;
            soft = soft + card_value.soft_total as u16;
            if hard > u8::MAX as u16 {
                proof {
                    lemma_hand_totals_split(s, i as int + 1);
                    lemma_hand_totals_bounds(s.skip(i as int + 1));
                }
                return None;
            }
            i = i + 1;
        }
        proof {
            assert(s.take(s.len() as int) =~= s);
            lemma_hand_totals_bounds(s);
        }
        Some(HandTotal { hard_total: hard as u8, soft_total: soft as u8 })
    }

    /// Compare a player hand against a dealer hand, per the exact precedence
    /// of `spec_compare_hands`: naturals are decided before any bust or
    /// total comparison, and only the player's bust is checked explicitly.
    pub fn compare_hands(player: &[Card], dealer: &[Card]) -> (r: HandResult)
        requires
            spec_hand_ok(player@),
            spec_hand_hard(player@) <= u8::MAX,
            spec_hand_ok(dealer@),
            spec_hand_hard(dealer@) <= u8::MAX,
        ensures
            r == spec_compare_hands(player@, dealer@),
    {
        let player_total = Self::hand_value(player);
        let dealer_total = Self::hand_value(dealer);

        // check for blackjack
        if player.len() == 2 && player_total.get_best_total() == 21 {
            if dealer.len() == 2 && dealer_total.get_best_total() == 21 {
                return HandResult::Push;
            }
            return HandResult::PlayerWins(true);
        } else if dealer.len() == 2 && dealer_total.get_best_total() == 21 {
            if player.len() == 2 && player_total.get_best_total() == 21 {
                return HandResult::Push;
            }
            return HandResult::DealerWins(true);
        }

        // normal hand eval
        let player_total = player_total.get_best_total();
        let dealer_total = dealer_total.get_best_total();

        if player_total > 21 {
            return HandResult::DealerWins(false);
        }
        if player_total > dealer_total {
            return HandResult::PlayerWins(false);
        } else if player_total < dealer_total {
            return HandResult::DealerWins(false);
        }
        HandResult::Push
    }
}

} // verus!
