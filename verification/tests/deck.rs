use card_core::{Card, Deck, Rank, Suit};

#[test]
fn deck_default() {
    let mut d = Deck::new();

    assert_eq!(d.len(), 52);
    for i in (0..52).rev() {
        match d.draw() {
            Some(card) => {
                let suit = card.suit().to_ordinal();
                let rank = card.rank().to_ordinal();

                assert_eq!(i, suit * 13 + rank);
            }
            None => panic!("Should not have exhausted the deck!"),
        }
    }

    assert_eq!(d.len(), 0);
}

#[test]
fn empty_deck() {
    let d = Deck::new_empty();
    assert_eq!(d.len(), 0);
}

#[test]
fn draw() {
    let mut d = Deck::new();
    let c = d.draw().unwrap();

    assert_eq!(d.len(), 51);
    assert_eq!(*c.suit(), Suit::Spades);
    assert_eq!(*c.rank(), Rank::King);
}

#[test]
fn draw_nth() {
    let mut d = Deck::new();

    let c = d.draw_nth(10).unwrap();
    assert_eq!(d.len(), 51);
    assert_eq!(*c.suit(), Suit::Clubs);
    assert_eq!(*c.rank(), Rank::Jack);

    let c = d.draw_nth(20).unwrap();
    assert_eq!(d.len(), 50);
    assert_eq!(*c.suit(), Suit::Diamonds);
    assert_eq!(*c.rank(), Rank::Nine); // Its Rank::Nine because we already drew a card beforehand

    let c = d.draw_nth(40).unwrap();
    assert_eq!(d.len(), 49);
    assert_eq!(*c.suit(), Suit::Spades);
    assert_eq!(*c.rank(), Rank::Four);

    // draw a non-existent card
    let c = d.draw_nth(50);
    assert_eq!(d.len(), 49);
    assert_eq!(c, None);
}

#[test]
fn draw_from_empty_signals_exhaustion() {
    let mut d = Deck::new_empty();
    assert_eq!(d.draw(), None);
    assert_eq!(d.draw_nth(0), None);
    assert_eq!(d.len(), 0);
}

#[test]
fn draw_nth_conserves_cards() {
    // Drawing positions n then m (m < n) indexes the same logical cards as
    // removing both from the pre-draw sequence, and every card is either
    // drawn or still in the deck.
    let mut d = Deck::new();
    let c1 = d.draw_nth(20).unwrap();
    let c2 = d.draw_nth(10).unwrap();
    assert_eq!(c1, Card::from_ordinals(1, 7)); // position 20 of the fresh deck
    assert_eq!(c2, Card::from_ordinals(0, 10)); // position 10 was untouched by the first draw
    assert_eq!(d.len(), 50);

    let mut drawn = vec![c1, c2];
    while let Some(c) = d.draw() {
        drawn.push(c);
    }
    assert_eq!(drawn.len(), 52);
    // every one of the 52 standard cards is accounted for exactly once
    for s in 0..=3u8 {
        for r in 0..=12u8 {
            let want = Card::from_ordinals(s, r);
            assert_eq!(drawn.iter().filter(|c| **c == want).count(), 1);
        }
    }
}

#[test]
fn add_and_add_deck_append_in_order() {
    let mut a = Deck::new_empty();
    a.add(Card::from_ordinals(0, 0));
    assert_eq!(a.len(), 1);

    let mut b = Deck::new();
    let prior = b.len();
    a.add_deck(&mut b);

    // the donor is emptied and every card arrives, in its original order
    assert_eq!(b.len(), 0);
    assert_eq!(a.len(), 1 + prior);
    assert_eq!(a.draw_nth(0).unwrap(), Card::from_ordinals(0, 0));
    for i in 0..52u8 {
        let c = a.draw_nth(0).unwrap();
        assert_eq!(c, Card::from_ordinals(i / 13, i % 13));
    }
    assert_eq!(a.len(), 0);
}
