use card_core::{BlackjackEvaluator, Card, HandResult, HandTotal, Rank, Suit};

fn card(suit: Suit, rank: Rank) -> Card {
    Card::from_suit_and_rank(suit, rank)
}

#[test]
fn card_values_exact() {
    let expected: [(Rank, u8, u8); 13] = [
        (Rank::Ace, 11, 1),
        (Rank::Two, 2, 2),
        (Rank::Three, 3, 3),
        (Rank::Four, 4, 4),
        (Rank::Five, 5, 5),
        (Rank::Six, 6, 6),
        (Rank::Seven, 7, 7),
        (Rank::Eight, 8, 8),
        (Rank::Nine, 9, 9),
        (Rank::Ten, 10, 10),
        (Rank::Jack, 10, 10),
        (Rank::Queen, 10, 10),
        (Rank::King, 10, 10),
    ];
    for (rank, hard, soft) in expected {
        let v = BlackjackEvaluator::get_card_value(&card(Suit::Spades, rank));
        assert_eq!(v.hard_total, hard);
        assert_eq!(v.soft_total, soft);
    }
}

#[test]
fn hand_value_empty_hand_is_zero() {
    let hand: Vec<Card> = Vec::new();
    let v = BlackjackEvaluator::hand_value(&hand);
    assert_eq!(v, HandTotal { hard_total: 0, soft_total: 0 });
}

#[test]
fn hand_value_is_order_independent() {
    let a = vec![
        card(Suit::Clubs, Rank::Ace),
        card(Suit::Hearts, Rank::Seven),
        card(Suit::Diamonds, Rank::King),
    ];
    let b = vec![
        card(Suit::Diamonds, Rank::King),
        card(Suit::Clubs, Rank::Ace),
        card(Suit::Hearts, Rank::Seven),
    ];
    let c = vec![
        card(Suit::Hearts, Rank::Seven),
        card(Suit::Diamonds, Rank::King),
        card(Suit::Clubs, Rank::Ace),
    ];
    let va = BlackjackEvaluator::hand_value(&a);
    assert_eq!(va, BlackjackEvaluator::hand_value(&b));
    assert_eq!(va, BlackjackEvaluator::hand_value(&c));
    assert_eq!(va, HandTotal { hard_total: 28, soft_total: 18 });
}

#[test]
fn best_total_prefers_high_soft_hand() {
    // Ace + Seven: hard 18, soft 8; the hard reading does not bust, so the
    // higher one is best.
    let v = BlackjackEvaluator::hand_value(&[
        card(Suit::Clubs, Rank::Ace),
        card(Suit::Hearts, Rank::Seven),
    ]);
    assert_eq!(v, HandTotal { hard_total: 18, soft_total: 8 });
    assert_eq!(v.get_best_total(), 18);
}

#[test]
fn best_total_two_aces_reports_two() {
    // Ace + Ace: hard 22, soft 2. The hard reading busts, so the minimum of
    // the two readings is reported: 2. This locks the documented
    // bust-preference rule, counterintuitive as it is for multi-ace hands.
    let v = BlackjackEvaluator::hand_value(&[
        card(Suit::Clubs, Rank::Ace),
        card(Suit::Hearts, Rank::Ace),
    ]);
    assert_eq!(v.hard_total, 22);
    assert_eq!(v.soft_total, 2);
    assert_eq!(v.get_best_total(), 2);
}

#[test]
fn best_total_double_bust_reports_minimum() {
    // Hard 24, soft 24: both readings bust, the minimum (24) is reported.
    let v = BlackjackEvaluator::hand_value(&[
        card(Suit::Spades, Rank::Seven),
        card(Suit::Diamonds, Rank::Eight),
        card(Suit::Clubs, Rank::Nine),
    ]);
    assert_eq!(v, HandTotal { hard_total: 24, soft_total: 24 });
    assert_eq!(v.get_best_total(), 24);
}

#[test]
fn hand_total_default_and_add_assign() {
    let mut t = HandTotal::default();
    assert_eq!(t, HandTotal { hard_total: 0, soft_total: 0 });
    t.add_assign(HandTotal { hard_total: 11, soft_total: 1 });
    t.add_assign(HandTotal { hard_total: 10, soft_total: 10 });
    assert_eq!(t, HandTotal { hard_total: 21, soft_total: 11 });
}

#[test]
fn hand_value_checked_agrees_and_rejects() {
    let hand = vec![card(Suit::Clubs, Rank::Ace), card(Suit::Hearts, Rank::King)];
    assert_eq!(
        BlackjackEvaluator::hand_value_checked(&hand),
        Some(BlackjackEvaluator::hand_value(&hand))
    );

    // a joker is a precondition violation, reported as None
    let with_joker = vec![card(Suit::Clubs, Rank::Ace), card(Suit::NoSuit, Rank::Joker)];
    assert_eq!(BlackjackEvaluator::hand_value_checked(&with_joker), None);

    // a hard total beyond the u8 range is reported as None
    let many_aces = vec![card(Suit::Clubs, Rank::Ace); 24];
    assert_eq!(BlackjackEvaluator::hand_value_checked(&many_aces), None);

    // 23 aces still fit: hard 253, soft 23
    let aces = vec![card(Suit::Clubs, Rank::Ace); 23];
    assert_eq!(
        BlackjackEvaluator::hand_value_checked(&aces),
        Some(HandTotal { hard_total: 253, soft_total: 23 })
    );
}

#[test]
fn compare_eighteen_beats_seventeen() {
    // Ace + Seven is a soft 18, not a natural: it wins over the dealer's 17
    // by plain total comparison, without the blackjack flag.
    let player = vec![card(Suit::Clubs, Rank::Ace), card(Suit::Hearts, Rank::Seven)];
    let dealer = vec![card(Suit::Diamonds, Rank::Jack), card(Suit::Hearts, Rank::Seven)];
    let r = BlackjackEvaluator::compare_hands(&player, &dealer);
    assert_eq!(r, HandResult::PlayerWins(false));
}

#[test]
fn compare_natural_beats_seventeen() {
    let player = vec![card(Suit::Clubs, Rank::Ace), card(Suit::Hearts, Rank::King)];
    let dealer = vec![card(Suit::Diamonds, Rank::Nine), card(Suit::Hearts, Rank::Eight)];
    let r = BlackjackEvaluator::compare_hands(&player, &dealer);
    assert_eq!(r, HandResult::PlayerWins(true));
}

#[test]
fn compare_two_naturals_push() {
    let player = vec![card(Suit::Clubs, Rank::Ace), card(Suit::Hearts, Rank::King)];
    let dealer = vec![card(Suit::Diamonds, Rank::Jack), card(Suit::Hearts, Rank::Ace)];
    let r = BlackjackEvaluator::compare_hands(&player, &dealer);
    assert_eq!(r, HandResult::Push);
}

#[test]
fn compare_natural_beats_three_card_twenty_one() {
    let player = vec![card(Suit::Clubs, Rank::Ace), card(Suit::Hearts, Rank::King)];
    let dealer = vec![
        card(Suit::Diamonds, Rank::Nine),
        card(Suit::Hearts, Rank::Seven),
        card(Suit::Spades, Rank::Five),
    ];
    let r = BlackjackEvaluator::compare_hands(&player, &dealer);
    assert_eq!(r, HandResult::PlayerWins(true));
}

#[test]
fn compare_dealer_natural_beats_ordinary_hand() {
    let player = vec![card(Suit::Clubs, Rank::Ten), card(Suit::Hearts, Rank::Nine)];
    let dealer = vec![card(Suit::Diamonds, Rank::Jack), card(Suit::Hearts, Rank::Ace)];
    let r = BlackjackEvaluator::compare_hands(&player, &dealer);
    assert_eq!(r, HandResult::DealerWins(true));
}

#[test]
fn compare_player_bust_loses_regardless() {
    let player = vec![
        card(Suit::Spades, Rank::Seven),
        card(Suit::Diamonds, Rank::Eight),
        card(Suit::Clubs, Rank::Nine),
    ];
    let dealer = vec![card(Suit::Diamonds, Rank::Ten), card(Suit::Hearts, Rank::Seven)];
    let r = BlackjackEvaluator::compare_hands(&player, &dealer);
    assert_eq!(r, HandResult::DealerWins(false));
}

#[test]
fn compare_equal_totals_push() {
    let player = vec![card(Suit::Clubs, Rank::Ten), card(Suit::Hearts, Rank::Seven)];
    let dealer = vec![card(Suit::Diamonds, Rank::Nine), card(Suit::Spades, Rank::Eight)];
    let r = BlackjackEvaluator::compare_hands(&player, &dealer);
    assert_eq!(r, HandResult::Push);
}

#[test]
fn compare_lower_total_loses() {
    let player = vec![card(Suit::Clubs, Rank::Ten), card(Suit::Hearts, Rank::Six)];
    let dealer = vec![card(Suit::Diamonds, Rank::Nine), card(Suit::Spades, Rank::Eight)];
    let r = BlackjackEvaluator::compare_hands(&player, &dealer);
    assert_eq!(r, HandResult::DealerWins(false));
}
