//! The blackjack table: one multi-deck shoe, a fixed row of player boxes and
//! one dealer hand. The table deals an initial round and serves caller-driven
//! draws; cards leave the shoe at a pseudo-random position, so the contracts
//! state what holds of every outcome: how many cards each hand gains, that
//! the card drawn really stood in the shoe, and that no card is ever
//! duplicated or dropped.

use vstd::multiset::Multiset;
use vstd::prelude::*;

use crate::blackjack::{spec_hand_hard, spec_hand_ok, spec_hand_soft, BlackjackEvaluator, HandTotal};
use crate::cards::{Card, Rank};
use crate::deck::{spec_standard_card, Deck};

verus! {

/// Relies on rand::random: draws a fresh value of the type from the
/// thread-local generator. Nothing can be promised of a random value, so
/// nothing is.
pub assume_specification<T>[ rand::random::<T> ]() -> (r: T)
    where
        rand::distributions::Standard: rand::distributions::Distribution<T>,
;

/// The table's configuration. Only the number of boxes and the decks per
/// shoe affect behaviour; the split fields are recognized configuration
/// surface with no effect, since no dealing path ever splits a box.
#[allow(dead_code)]
#[derive(Debug, Copy, Clone)]
struct BlackjackTableConfig {
    num_boxes: usize,
    max_splits_per_box: usize,
    split_aces: bool,
    decks_per_shoe: usize,
}

impl BlackjackTableConfig {
    /// Five boxes against one dealer, six standard decks in the shoe.
    fn default() -> (r: Self)
        ensures
            r.num_boxes == 5,
            r.max_splits_per_box == 4,
            r.split_aces == true,
            r.decks_per_shoe == 6,
    {
        Self { num_boxes: 5, max_splits_per_box: 4, split_aces: true, decks_per_shoe: 6 }
    }
}

/// One player position: its card list, plus the structurally present but
/// never populated slot for child boxes that a split would create.
#[allow(dead_code)]
#[derive(Debug)]
struct BlackjackBox {
    child_box: Vec<Option<BlackjackBox>>,
    cards: Vec<Card>,
}

impl BlackjackBox {
    /// A fresh box holds no cards and no child boxes.
    fn default() -> (r: Self)
        ensures
            r.cards@.len() == 0,
            r.child_box@.len() == 0,
    {
        Self { child_box: Vec::new(), cards: Vec::new() }
    }
}

/// The cards held across a row of boxes, as a multiset.
spec fn boxes_multiset(bs: Seq<BlackjackBox>) -> Multiset<Card>
    decreases bs.len(),
{
    if bs.len() == 0 {
        Multiset::empty()
    } else {
        bs[0].cards@.to_multiset().add(boxes_multiset(bs.drop_first()))
    }
}

/// A row of empty boxes holds no cards.
proof fn lemma_boxes_multiset_all_empty(bs: Seq<BlackjackBox>)
    requires
        forall|j: int| 0 <= j < bs.len() ==> (#[trigger] bs[j]).cards@.len() == 0,
    ensures
        boxes_multiset(bs) =~= Multiset::empty(),
    decreases bs.len(),
{
    broadcast use vstd::seq_lib::group_to_multiset_ensures;

    if bs.len() > 0 {
        assert(bs[0].cards@.to_multiset().len() == 0);
        lemma_boxes_multiset_all_empty(bs.drop_first());
    }
}

/// Pushing one card onto the cards of one box inserts exactly that card
/// into the row's multiset.
proof fn lemma_boxes_multiset_update_push(bs: Seq<BlackjackBox>, i: int, c: Card, b2: BlackjackBox)
    requires
        0 <= i < bs.len(),
        b2.cards@ == bs[i].cards@.push(c),
    ensures
        boxes_multiset(bs.update(i, b2)) =~= boxes_multiset(bs).insert(c),
    decreases i,
{
    broadcast use vstd::seq_lib::group_to_multiset_ensures;

    if i == 0 {
        assert(bs.update(0, b2).drop_first() =~= bs.drop_first());
        assert(b2.cards@.to_multiset() =~= bs[0].cards@.to_multiset().insert(c));
    } else {
        assert(bs.update(i, b2)[0] == bs[0]);
        assert(bs.update(i, b2).drop_first() =~= bs.drop_first().update(i - 1, b2));
        lemma_boxes_multiset_update_push(bs.drop_first(), i - 1, c, b2);
    }
}

/// Moving one card from one pile to another leaves the combined contents
/// untouched.
proof fn lemma_move_card(a: Multiset<Card>, b: Multiset<Card>, c: Card)
    requires
        a.count(c) > 0,
    ensures
        a.remove(c).add(b.insert(c)) =~= a.add(b),
{
}

/// A blackjack table: a shoe assembled from several standard decks, a fixed
/// number of player boxes and one dealer hand. A round is one initial deal
/// followed by caller-driven draws; the table enforces no stand or bust rule
/// itself.
#[derive(Debug)]
pub struct BlackjackTable {
    config: BlackjackTableConfig,
    deck: Deck,
    boxes: Vec<BlackjackBox>,
    dealer: Vec<Card>,
}

impl BlackjackTable {
    /// The cards remaining in the shoe, in draw-position order.
    pub closed spec fn spec_shoe(self) -> Seq<Card> {
        self.deck@
    }

    /// The number of player boxes at the table.
    pub closed spec fn spec_num_boxes(self) -> int {
        self.boxes@.len() as int
    }

    /// The cards held by the box at `i`, in the order they were dealt.
    pub closed spec fn spec_box_cards(self, i: int) -> Seq<Card> {
        self.boxes@[i].cards@
    }

    /// The dealer's cards, in the order they were dealt.
    pub closed spec fn spec_dealer(self) -> Seq<Card> {
        self.dealer@
    }

    /// Every card at the table, wherever it currently lies: still in the
    /// shoe, in a box, or with the dealer. Dealing and drawing only move
    /// cards, so this multiset never changes over a table's life.
    pub closed spec fn spec_all_cards(self) -> Multiset<Card> {
        self.deck@.to_multiset().add(boxes_multiset(self.boxes@)).add(self.dealer@.to_multiset())
    }

    /// The table's invariant: the configured number of boxes is the number
    /// present, and no hand nor the shoe holds a joker sentinel, so every
    /// hand at the table can be evaluated.
    pub closed spec fn wf(self) -> bool {
        &&& self.boxes@.len() == self.config.num_boxes
        &&& spec_hand_ok(self.deck@)
        &&& forall|j: int|
            0 <= j < self.boxes@.len() ==> spec_hand_ok((#[trigger] self.boxes@[j]).cards@)
        &&& spec_hand_ok(self.dealer@)
    }

    /// Create a table with the default configuration: a shoe of six
    /// standard decks concatenated in construction order, five empty boxes
    /// and an empty dealer hand.
    pub fn new() -> (t: Self)
        ensures
            t.wf(),
            t.spec_num_boxes() == 5,
            t.spec_shoe().len() == 312,
            forall|i: int| 0 <= i < 312 ==> t.spec_shoe()[i] == spec_standard_card(i % 52),
            forall|b: int| 0 <= b < 5 ==> t.spec_box_cards(b).len() == 0,
            t.spec_dealer().len() == 0,
            t.spec_all_cards() == t.spec_shoe().to_multiset(),
    {
        let config = BlackjackTableConfig::default();
        let mut deck = Deck::new_empty();
        let mut boxes: Vec<BlackjackBox> = Vec::new();

        let mut k: usize = 0;
        while k < config.decks_per_shoe
            invariant
                k <= 6,
                config.decks_per_shoe == 6,
                deck@.len() == 52 * k,
                forall|i: int| 0 <= i < 52 * k ==> deck@[i] == spec_standard_card(i % 52),
            decreases config.decks_per_shoe - k,
        {
            let ghost prefix = deck@;
            let mut d = Deck::new();
            deck.add_deck(&mut d);
            proof {
                assert forall|i: int| 0 <= i < 52 * (k + 1) implies deck@[i] == spec_standard_card(
                    i % 52,
                ) by {
                    if i >= 52 * k {
                        vstd::arithmetic::div_mod::lemma_fundamental_div_mod_converse(
                            i,
                            52,
                            k as int,
                            i - 52 * k,
                        );
                        assert(deck@[i] == spec_standard_card(i - 52 * k));
                    }
                }
            }
            k = k + 1;
        }

        let mut n: usize = 0;
        while n < config.num_boxes
            invariant
                n <= 5,
                config.num_boxes == 5,
                boxes@.len() == n,
                forall|j: int| 0 <= j < n ==> (#[trigger] boxes@[j]).cards@.len() == 0,
            decreases config.num_boxes - n,
        {
            boxes.push(BlackjackBox::default());
            n = n + 1;
        }

        let t = Self { config, deck, boxes, dealer: Vec::new() };
        proof {
            broadcast use vstd::seq_lib::group_to_multiset_ensures;

            assert forall|i: int| 0 <= i < 312 implies (#[trigger] t.spec_shoe()[i]).rank
                != Rank::Joker by {
                assert(t.spec_shoe()[i] == spec_standard_card(i % 52));
                crate::deck::lemma_standard_card_index(i % 52);
            }
            lemma_boxes_multiset_all_empty(t.boxes@);
            assert(t.dealer@.to_multiset().len() == 0);
            assert(t.spec_all_cards() =~= t.spec_shoe().to_multiset());
        }
        t
    }

    /// The number of player boxes this table was configured with.
    pub fn num_boxes(&self) -> (r: usize)
        requires
            self.wf(),
        ensures
            r as int == self.spec_num_boxes(),
    {
        self.config.num_boxes
    }

    /// The number of cards still in the shoe.
    pub fn shoe_len(&self) -> (r: usize)
        ensures
            r as int == self.spec_shoe().len(),
    {
        self.deck.len()
    }

    /// Draw one card from a pseudo-random position of the shoe; `None` when
    /// the shoe is empty. The position is reduced into `[0, len)`, so the
    /// draw never reaches out of range, whatever the random value.
    fn draw_card(&mut self) -> (r: Option<Card>)
        ensures
            old(self).deck@.len() == 0 ==> r is None && *final(self) == *old(self),
            old(self).deck@.len() > 0 ==> exists|i: int|
                0 <= i < old(self).deck@.len() && r == Some(old(self).deck@[i]) && final(self).deck@ == old(self).deck@.remove(i),
            final(self).config == old(self).config,
            final(self).boxes == old(self).boxes,
            final(self).dealer == old(self).dealer,
    {
        let len = self.deck.len();
        if len == 0 {
            return None;
        }
        let index = rand::random::<usize>() % len;
        let r = self.deck.draw_nth(index);
        proof {
            assert(0 <= index < old(self).deck@.len() && r == Some(old(self).deck@[index as int])
                && self.deck@ == old(self).deck@.remove(index as int));
        }
        r
    }

    /// Draw one card from the shoe, which must not be empty.
    fn draw_card_must(&mut self) -> (c: Card)
        requires
            old(self).deck@.len() > 0,
        ensures
            exists|i: int|
                0 <= i < old(self).deck@.len() && c == old(self).deck@[i] && final(self).deck@
                    == old(self).deck@.remove(i),
            final(self).config == old(self).config,
            final(self).boxes == old(self).boxes,
            final(self).dealer == old(self).dealer,
    {
        match self.draw_card() {
            Some(c) => c,
            None => {
                proof {
                    assert(false);
                }
                Card::new()
            },
        }
    }

    /// Push a freshly drawn card onto the box at `index`, keeping the
    /// table's invariant and its combined card contents.
    fn give_card_to_box(&mut self, index: usize)
        requires
            old(self).wf(),
            index < old(self).boxes@.len(),
            old(self).deck@.len() > 0,
        ensures
            final(self).wf(),
            final(self).config == old(self).config,
            final(self).dealer == old(self).dealer,
            final(self).boxes@.len() == old(self).boxes@.len(),
            exists|i: int|
                0 <= i < old(self).deck@.len() && final(self).deck@ == old(self).deck@.remove(i)
                    && final(self).boxes@[index as int].cards@ == old(self).boxes@[
                    index as int].cards@.push(old(self).deck@[i]),
            forall|j: int|
                0 <= j < old(self).boxes@.len() && j != index ==> final(self).boxes@[j] == old(self).boxes@[j],
            final(self).spec_all_cards() == old(self).spec_all_cards(),
    {
        let card = self.draw_card_must();
        let ghost mid = *self;
        proof {
            broadcast use vstd::seq_lib::group_to_multiset_ensures;

            let i = choose|i: int|
                0 <= i < old(self).deck@.len() && card == old(self).deck@[i] && mid.deck@ == old(self).deck@.remove(i);
            assert(old(self).deck@.contains(card));
            assert(mid.deck@.to_multiset() =~= old(self).deck@.to_multiset().remove(card));
            assert(card.rank != Rank::Joker);
        }
        self.boxes[index].cards.push(card);
        proof {
            assert(self.boxes@ == mid.boxes@.update(index as int, self.boxes@[index as int]));
            lemma_boxes_multiset_update_push(
                mid.boxes@,
                index as int,
                card,
                self.boxes@[index as int],
            );
            lemma_move_card(
                old(self).deck@.to_multiset(),
                boxes_multiset(old(self).boxes@),
                card,
            );
            assert(self.spec_all_cards() == old(self).spec_all_cards());
            assert forall|j: int| 0 <= j < self.boxes@.len() implies spec_hand_ok(
                (#[trigger] self.boxes@[j]).cards@,
            ) by {
                if j == index {
                    let bc = self.boxes@[j].cards@;
                    assert(forall|p: int|
                        0 <= p < bc.len() - 1 ==> bc[p] == old(self).boxes@[j].cards@[p]);
                }
            }
        }
    }

    /// Push a freshly drawn card onto the dealer's hand, keeping the
    /// table's invariant and its combined card contents.
    fn give_card_to_dealer(&mut self)
        requires
            old(self).wf(),
            old(self).deck@.len() > 0,
        ensures
            final(self).wf(),
            final(self).config == old(self).config,
            final(self).boxes == old(self).boxes,
            exists|i: int|
                0 <= i < old(self).deck@.len() && final(self).deck@ == old(self).deck@.remove(i)
                    && final(self).dealer@ == old(self).dealer@.push(old(self).deck@[i]),
            final(self).spec_all_cards() == old(self).spec_all_cards(),
    {
        let card = self.draw_card_must();
        let ghost mid = *self;
        proof {
            broadcast use vstd::seq_lib::group_to_multiset_ensures;

            let i = choose|i: int|
                0 <= i < old(self).deck@.len() && card == old(self).deck@[i] && mid.deck@ == old(self).deck@.remove(i);
            assert(old(self).deck@.contains(card));
            assert(mid.deck@.to_multiset() =~= old(self).deck@.to_multiset().remove(card));
            assert(card.rank != Rank::Joker);
        }
        self.dealer.push(card);
        proof {
            broadcast use vstd::seq_lib::group_to_multiset_ensures;

            assert(self.dealer@.to_multiset() =~= old(self).dealer@.to_multiset().insert(card));
            assert(old(self).deck@.to_multiset().count(card) > 0);
            lemma_move_card(
                old(self).deck@.to_multiset(),
                old(self).dealer@.to_multiset(),
                card,
            );
            assert(self.spec_all_cards() =~= old(self).spec_all_cards());
            let dc = self.dealer@;
            assert(forall|p: int| 0 <= p < dc.len() - 1 ==> dc[p] == old(self).dealer@[p]);
        }
    }

    /// Deal the initial round: cycling through the boxes and then the
    /// dealer, one card at a time, repeated twice, with the very last dealer
    /// card omitted — so each box receives two cards and the dealer one,
    /// exactly `2 * num_boxes + 1` cards in all. The shoe must hold that
    /// many; no card is created or lost.
    pub fn deal_cards(&mut self)
        requires
            old(self).wf(),
            old(self).spec_shoe().len() >= 2 * old(self).spec_num_boxes() + 1,
        ensures
            final(self).wf(),
            final(self).spec_num_boxes() == old(self).spec_num_boxes(),
            final(self).spec_shoe().len() == old(self).spec_shoe().len() - (2 * old(self).spec_num_boxes() + 1),
            forall|b: int|
                0 <= b < old(self).spec_num_boxes() ==> final(self).spec_box_cards(b).len() == old(self).spec_box_cards(b).len() + 2,
            final(self).spec_dealer().len() == old(self).spec_dealer().len() + 1,
            final(self).spec_all_cards() == old(self).spec_all_cards(),
    {
        let num_boxes = self.boxes.len();
        let ghost t0 = *self;

        let mut b: usize = 0;
        while b < num_boxes
            invariant
                b <= num_boxes,
                num_boxes == t0.boxes@.len(),
                self.wf(),
                self.config == t0.config,
                self.dealer == t0.dealer,
                self.boxes@.len() == t0.boxes@.len(),
                self.deck@.len() == t0.deck@.len() - b,
                t0.deck@.len() >= 2 * t0.boxes@.len() + 1,
                forall|j: int|
                    0 <= j < b ==> (#[trigger] self.boxes@[j]).cards@.len() == t0.boxes@[
                        j].cards@.len() + 1,
                forall|j: int| b <= j < num_boxes ==> self.boxes@[j] == t0.boxes@[j],
                self.spec_all_cards() == t0.spec_all_cards(),
            decreases num_boxes - b,
        {
            self.give_card_to_box(b);
            b = b + 1;
        }

        self.give_card_to_dealer();
        let ghost t1 = *self;

        let mut b: usize = 0;
        while b < num_boxes
            invariant
                b <= num_boxes,
                num_boxes == t1.boxes@.len(),
                self.wf(),
                self.config == t1.config,
                self.dealer == t1.dealer,
                self.boxes@.len() == t1.boxes@.len(),
                self.deck@.len() == t1.deck@.len() - b,
                t1.deck@.len() >= t1.boxes@.len(),
                forall|j: int|
                    0 <= j < b ==> (#[trigger] self.boxes@[j]).cards@.len() == t1.boxes@[
                        j].cards@.len() + 1,
                forall|j: int| b <= j < num_boxes ==> self.boxes@[j] == t1.boxes@[j],
                self.spec_all_cards() == t1.spec_all_cards(),
            decreases num_boxes - b,
        {
            self.give_card_to_box(b);
            b = b + 1;
        }
    }

    /// Recompute the total of the box at `index` from its current cards.
    pub fn box_total(&self, index: usize) -> (r: HandTotal)
        requires
            self.wf(),
            index < self.spec_num_boxes(),
            spec_hand_hard(self.spec_box_cards(index as int)) <= u8::MAX,
        ensures
            r.hard_total as int == spec_hand_hard(self.spec_box_cards(index as int)),
            r.soft_total as int == spec_hand_soft(self.spec_box_cards(index as int)),
    {
        BlackjackEvaluator::hand_value(self.boxes[index].cards.as_slice())
    }

    /// Recompute the dealer's total from the dealer's current cards.
    pub fn dealer_total(&self) -> (r: HandTotal)
        requires
            self.wf(),
            spec_hand_hard(self.spec_dealer()) <= u8::MAX,
        ensures
            r.hard_total as int == spec_hand_hard(self.spec_dealer()),
            r.soft_total as int == spec_hand_soft(self.spec_dealer()),
    {
        BlackjackEvaluator::hand_value(self.dealer.as_slice())
    }

    /// Draw exactly one card from the shoe and append it to the box at
    /// `index`.
    pub fn draw_card_for_box(&mut self, index: usize)
        requires
            old(self).wf(),
            index < old(self).spec_num_boxes(),
            old(self).spec_shoe().len() > 0,
        ensures
            final(self).wf(),
            final(self).spec_num_boxes() == old(self).spec_num_boxes(),
            final(self).spec_dealer() == old(self).spec_dealer(),
            exists|i: int|
                0 <= i < old(self).spec_shoe().len() && final(self).spec_shoe() == old(self).spec_shoe().remove(i) && final(self).spec_box_cards(index as int) == old(self).spec_box_cards(index as int).push(old(self).spec_shoe()[i]),
            forall|j: int|
                0 <= j < old(self).spec_num_boxes() && j != index ==> final(self).spec_box_cards(j)
                    == old(self).spec_box_cards(j),
            final(self).spec_all_cards() == old(self).spec_all_cards(),
    {
        self.give_card_to_box(index);
    }

    /// Draw exactly one card from the shoe and append it to the dealer's
    /// hand.
    pub fn draw_card_for_dealer(&mut self)
        requires
            old(self).wf(),
            old(self).spec_shoe().len() > 0,
        ensures
            final(self).wf(),
            final(self).spec_num_boxes() == old(self).spec_num_boxes(),
            forall|j: int|
                0 <= j < old(self).spec_num_boxes() ==> final(self).spec_box_cards(j) == old(self).spec_box_cards(j),
            exists|i: int|
                0 <= i < old(self).spec_shoe().len() && final(self).spec_shoe() == old(self).spec_shoe().remove(i) && final(self).spec_dealer() == old(self).spec_dealer().push(old(self).spec_shoe()[i]),
            final(self).spec_all_cards() == old(self).spec_all_cards(),
    {
        self.give_card_to_dealer();
    }

    /// A copy of the cards currently held by the box at `index`.
    pub fn box_cards(&self, index: usize) -> (r: Vec<Card>)
        requires
            self.wf(),
            index < self.spec_num_boxes(),
        ensures
            r@ == self.spec_box_cards(index as int),
    {
        let cards = &self.boxes[index].cards;
        let mut out: Vec<Card> = Vec::new();
        let mut j: usize = 0;
        while j < cards.len()
            invariant
                j <= cards@.len(),
                cards@ == self.spec_box_cards(index as int),
                out@ == cards@.take(j as int),
            decreases cards@.len() - j,
        {
            out.push(cards[j]);
            proof {
                assert(out@ =~= cards@.take(j as int + 1));
            }
            j = j + 1;
        }
        proof {
            assert(cards@.take(cards@.len() as int) =~= cards@);
        }
        out
    }

    /// A copy of the dealer's current cards.
    pub fn dealer_cards(&self) -> (r: Vec<Card>)
        ensures
            r@ == self.spec_dealer(),
    {
        let cards = &self.dealer;
        let mut out: Vec<Card> = Vec::new();
        let mut j: usize = 0;
        while j < cards.len()
            invariant
                j <= cards@.len(),
                cards@ == self.spec_dealer(),
                out@ == cards@.take(j as int),
            decreases cards@.len() - j,
        {
            out.push(cards[j]);
            proof {
                assert(out@ =~= cards@.take(j as int + 1));
            }
            j = j + 1;
        }
        proof {
            assert(cards@.take(cards@.len() as int) =~= cards@);
        }
        out
    }
}

} // verus!
