use poker_hands::card::{Card, Rank, Suit};
use poker_hands::deck::Deck;
use poker_hands::hand::FiveCardHand;
use poker_hands::hand_type::HandType;
use poker_hands::round::round;
use std::cmp::Ordering;

fn c(rank: Rank, suit: Suit) -> Card {
    Card { suit, rank }
}

fn hand(cards: Vec<Card>) -> FiveCardHand {
    FiveCardHand::new(cards)
}

const RANKS: [Rank; 13] = [
    Rank::Two,
    Rank::Three,
    Rank::Four,
    Rank::Five,
    Rank::Six,
    Rank::Seven,
    Rank::Eight,
    Rank::Nine,
    Rank::Ten,
    Rank::Jack,
    Rank::Queen,
    Rank::King,
    Rank::Ace,
];

const SUITS: [Suit; 4] = [Suit::Hearts, Suit::Diamonds, Suit::Clubs, Suit::Spades];

#[test]
fn test() {
    assert!(HandType::OnePair(Rank::King) > HandType::OnePair(Rank::Queen));
}

#[test]
fn rank_order_is_strict_and_total() {
    for i in 0..13 {
        for j in 0..13 {
            assert_eq!(RANKS[i] < RANKS[j], i < j);
            assert_eq!(RANKS[i].compare(&RANKS[j]), i.cmp(&j));
        }
        assert_eq!(RANKS[i].index(), i);
    }
    assert!(Rank::Two < Rank::Three);
    assert!(Rank::King < Rank::Ace);
}

#[test]
fn card_order_ignores_suit() {
    let a = c(Rank::Nine, Suit::Hearts);
    let b = c(Rank::Nine, Suit::Spades);
    assert_eq!(a.compare(&b), Ordering::Equal);
    assert!(a != b);
    assert!(c(Rank::Ten, Suit::Hearts) > c(Rank::Nine, Suit::Spades));
}

#[test]
fn symbols() {
    let syms: Vec<char> = RANKS.iter().map(|r| r.symbol()).collect();
    assert_eq!(syms, vec!['2', '3', '4', '5', '6', '7', '8', '9', 'T', 'J', 'Q', 'K', 'A']);
    let suits: Vec<char> = SUITS.iter().map(|s| s.symbol()).collect();
    assert_eq!(suits, vec!['H', 'D', 'C', 'S']);
}

#[test]
fn full_house_of_twos_over_fives() {
    let h = hand(vec![
        c(Rank::Two, Suit::Hearts),
        c(Rank::Two, Suit::Diamonds),
        c(Rank::Two, Suit::Clubs),
        c(Rank::Five, Suit::Spades),
        c(Rank::Five, Suit::Hearts),
    ]);
    assert_eq!(h.get_hand_type(), HandType::FullHouse(Rank::Two, Rank::Five));
}

#[test]
fn royal_straight_flush() {
    let h = hand(vec![
        c(Rank::Ace, Suit::Hearts),
        c(Rank::King, Suit::Hearts),
        c(Rank::Queen, Suit::Hearts),
        c(Rank::Jack, Suit::Hearts),
        c(Rank::Ten, Suit::Hearts),
    ]);
    assert_eq!(h.get_hand_type(), HandType::StraightFlush);
    assert!(h.is_straight());
    assert!(h.is_flush());
}

#[test]
fn wheel_is_a_straight() {
    let h = hand(vec![
        c(Rank::Two, Suit::Hearts),
        c(Rank::Three, Suit::Diamonds),
        c(Rank::Four, Suit::Clubs),
        c(Rank::Five, Suit::Spades),
        c(Rank::Ace, Suit::Hearts),
    ]);
    assert_eq!(h.get_hand_type(), HandType::Straight);
    assert!(!h.is_flush());
}

#[test]
fn gap_is_no_straight() {
    let h = hand(vec![
        c(Rank::Two, Suit::Hearts),
        c(Rank::Three, Suit::Diamonds),
        c(Rank::Four, Suit::Clubs),
        c(Rank::Five, Suit::Spades),
        c(Rank::Seven, Suit::Hearts),
    ]);
    assert_eq!(h.get_hand_type(), HandType::HighCard);
    assert!(!h.is_straight());
}

#[test]
fn ace_after_six_is_no_straight() {
    let h = hand(vec![
        c(Rank::Three, Suit::Hearts),
        c(Rank::Four, Suit::Diamonds),
        c(Rank::Five, Suit::Clubs),
        c(Rank::Six, Suit::Spades),
        c(Rank::Ace, Suit::Hearts),
    ]);
    assert_eq!(h.get_hand_type(), HandType::HighCard);
}

#[test]
fn two_pair_higher_first() {
    let h = hand(vec![
        c(Rank::Four, Suit::Hearts),
        c(Rank::Four, Suit::Diamonds),
        c(Rank::Nine, Suit::Clubs),
        c(Rank::Nine, Suit::Spades),
        c(Rank::Two, Suit::Hearts),
    ]);
    assert_eq!(h.get_hand_type(), HandType::TwoPair(Rank::Nine, Rank::Four));
    assert_eq!(h.get_dist_hand_type(), Some(HandType::TwoPair(Rank::Nine, Rank::Four)));
}

#[test]
fn other_categories() {
    let quad = hand(vec![
        c(Rank::Seven, Suit::Hearts),
        c(Rank::Seven, Suit::Diamonds),
        c(Rank::Seven, Suit::Clubs),
        c(Rank::Seven, Suit::Spades),
        c(Rank::Two, Suit::Hearts),
    ]);
    assert_eq!(quad.get_hand_type(), HandType::Quad(Rank::Seven));
    let trip = hand(vec![
        c(Rank::Jack, Suit::Hearts),
        c(Rank::Jack, Suit::Diamonds),
        c(Rank::Jack, Suit::Clubs),
        c(Rank::Four, Suit::Spades),
        c(Rank::Two, Suit::Hearts),
    ]);
    assert_eq!(trip.get_hand_type(), HandType::Trip(Rank::Jack));
    let pair = hand(vec![
        c(Rank::Queen, Suit::Hearts),
        c(Rank::Queen, Suit::Diamonds),
        c(Rank::Jack, Suit::Clubs),
        c(Rank::Four, Suit::Spades),
        c(Rank::Two, Suit::Hearts),
    ]);
    assert_eq!(pair.get_hand_type(), HandType::OnePair(Rank::Queen));
    let flush = hand(vec![
        c(Rank::Queen, Suit::Clubs),
        c(Rank::Nine, Suit::Clubs),
        c(Rank::Jack, Suit::Clubs),
        c(Rank::Four, Suit::Clubs),
        c(Rank::Two, Suit::Clubs),
    ]);
    assert_eq!(flush.get_hand_type(), HandType::Flush);
    assert_eq!(flush.get_dist_hand_type(), None);
}

#[test]
fn rank_from_index() {
    assert_eq!(FiveCardHand::get_rank_from_index(0), Some(Rank::Two));
    assert_eq!(FiveCardHand::get_rank_from_index(12), Some(Rank::Ace));
    assert_eq!(FiveCardHand::get_rank_from_index(13), None);
}

#[test]
fn hand_keeps_cards_sorted() {
    let h = hand(vec![
        c(Rank::King, Suit::Spades),
        c(Rank::Two, Suit::Hearts),
        c(Rank::Nine, Suit::Clubs),
        c(Rank::Two, Suit::Spades),
        c(Rank::Five, Suit::Diamonds),
    ]);
    let ranks: Vec<Rank> = h.cards().iter().map(|x| x.rank).collect();
    assert_eq!(ranks, vec![Rank::Two, Rank::Two, Rank::Five, Rank::Nine, Rank::King]);
}

#[test]
fn hand_type_order() {
    let types = [
        HandType::HighCard,
        HandType::OnePair(Rank::Ace),
        HandType::TwoPair(Rank::Ace, Rank::King),
        HandType::Trip(Rank::Ace),
        HandType::Straight,
        HandType::Flush,
        HandType::FullHouse(Rank::Ace, Rank::King),
        HandType::Quad(Rank::Ace),
        HandType::StraightFlush,
    ];
    for i in 0..types.len() {
        for j in 0..types.len() {
            assert_eq!(types[i].compare(&types[j]), i.cmp(&j));
        }
    }
    assert!(HandType::TwoPair(Rank::King, Rank::Two) > HandType::TwoPair(Rank::Queen, Rank::Ace));
    assert!(HandType::FullHouse(Rank::Two, Rank::Four) > HandType::FullHouse(Rank::Two, Rank::Three));
}

#[test]
fn category_beats_kickers() {
    let pair_of_twos = hand(vec![
        c(Rank::Two, Suit::Hearts),
        c(Rank::Two, Suit::Diamonds),
        c(Rank::Three, Suit::Clubs),
        c(Rank::Four, Suit::Spades),
        c(Rank::Six, Suit::Hearts),
    ]);
    let ace_high = hand(vec![
        c(Rank::Ace, Suit::Hearts),
        c(Rank::King, Suit::Diamonds),
        c(Rank::Queen, Suit::Clubs),
        c(Rank::Jack, Suit::Spades),
        c(Rank::Nine, Suit::Hearts),
    ]);
    assert_eq!(pair_of_twos.cmp(&ace_high), Ordering::Greater);
    assert_eq!(ace_high.cmp(&pair_of_twos), Ordering::Less);
}

#[test]
fn kickers_break_ties() {
    let a = hand(vec![
        c(Rank::Ace, Suit::Hearts),
        c(Rank::King, Suit::Diamonds),
        c(Rank::Queen, Suit::Clubs),
        c(Rank::Jack, Suit::Spades),
        c(Rank::Nine, Suit::Hearts),
    ]);
    let b = hand(vec![
        c(Rank::Ace, Suit::Clubs),
        c(Rank::King, Suit::Clubs),
        c(Rank::Queen, Suit::Hearts),
        c(Rank::Jack, Suit::Hearts),
        c(Rank::Eight, Suit::Spades),
    ]);
    let a2 = hand(vec![
        c(Rank::Ace, Suit::Spades),
        c(Rank::King, Suit::Spades),
        c(Rank::Queen, Suit::Spades),
        c(Rank::Jack, Suit::Diamonds),
        c(Rank::Nine, Suit::Diamonds),
    ]);
    assert_eq!(a.cmp(&b), Ordering::Greater);
    assert_eq!(a.cmp(&a2), Ordering::Equal);
}

fn sample_hands() -> Vec<FiveCardHand> {
    let mut deck = Deck::new();
    let mut hands = vec![];
    while let Some(h) = FiveCardHand::draw_from(&mut deck) {
        hands.push(h);
    }
    let mut deck = Deck::new();
    deck.shuffle();
    while let Some(h) = FiveCardHand::draw_from(&mut deck) {
        hands.push(h);
    }
    hands
}

#[test]
fn comparator_is_a_total_order_on_samples() {
    let hands = sample_hands();
    assert_eq!(hands.len(), 20);
    for a in &hands {
        assert_eq!(a.cmp(a), Ordering::Equal);
        for b in &hands {
            assert_eq!(a.cmp(b), b.cmp(a).reverse());
            for c in &hands {
                if a.cmp(b) != Ordering::Greater && b.cmp(c) != Ordering::Greater {
                    assert_ne!(a.cmp(c), Ordering::Greater);
                }
            }
        }
    }
}

#[test]
fn best_hand_beats_every_subset() {
    let cards = vec![
        c(Rank::Two, Suit::Hearts),
        c(Rank::Nine, Suit::Clubs),
        c(Rank::Nine, Suit::Hearts),
        c(Rank::Four, Suit::Diamonds),
        c(Rank::Nine, Suit::Spades),
        c(Rank::Two, Suit::Clubs),
        c(Rank::King, Suit::Hearts),
    ];
    let best = FiveCardHand::get_best_hand(cards.clone()).unwrap();
    assert_eq!(best.get_hand_type(), HandType::FullHouse(Rank::Nine, Rank::Two));
    let mut n = 0;
    for a in 0..7 {
        for b in a + 1..7 {
            for c2 in b + 1..7 {
                for d in c2 + 1..7 {
                    for e in d + 1..7 {
                        let h = hand(vec![cards[a], cards[b], cards[c2], cards[d], cards[e]]);
                        assert_ne!(best.cmp(&h), Ordering::Less);
                        n += 1;
                    }
                }
            }
        }
    }
    assert_eq!(n, 21);
}

#[test]
fn best_hand_finds_wheel_and_flush() {
    let cards = vec![
        c(Rank::Ace, Suit::Hearts),
        c(Rank::Two, Suit::Clubs),
        c(Rank::Three, Suit::Hearts),
        c(Rank::Four, Suit::Diamonds),
        c(Rank::Five, Suit::Spades),
        c(Rank::King, Suit::Clubs),
    ];
    let best = FiveCardHand::get_best_hand(cards).unwrap();
    assert_eq!(best.get_hand_type(), HandType::Straight);
    let five = vec![
        c(Rank::Ace, Suit::Clubs),
        c(Rank::Two, Suit::Clubs),
        c(Rank::Seven, Suit::Clubs),
        c(Rank::Four, Suit::Clubs),
        c(Rank::Nine, Suit::Clubs),
    ];
    let best = FiveCardHand::get_best_hand(five.clone()).unwrap();
    assert_eq!(best, hand(five));
}

#[test]
fn best_hand_needs_five_cards() {
    let cards = vec![
        c(Rank::Ace, Suit::Hearts),
        c(Rank::Two, Suit::Clubs),
        c(Rank::Three, Suit::Hearts),
        c(Rank::Four, Suit::Diamonds),
    ];
    assert!(FiveCardHand::get_best_hand(cards).is_none());
    assert!(FiveCardHand::get_best_hand(vec![]).is_none());
}

#[test]
fn deck_holds_every_card_once() {
    let mut deck = Deck::new();
    assert_eq!(deck.len(), 52);
    let cards = deck.draw_many(60);
    assert_eq!(cards.len(), 52);
    assert_eq!(deck.len(), 0);
    for s in SUITS {
        for r in RANKS {
            assert_eq!(cards.iter().filter(|x| **x == c(r, s)).count(), 1);
        }
    }
    assert_eq!(cards[0], c(Rank::Ace, Suit::Spades));
    assert_eq!(cards[51], c(Rank::Two, Suit::Hearts));
}

#[test]
fn draws_from_the_end() {
    let mut deck = Deck::new();
    assert_eq!(deck.draw(), Some(c(Rank::Ace, Suit::Spades)));
    let two = deck.draw_many(2);
    assert_eq!(two, vec![c(Rank::King, Suit::Spades), c(Rank::Queen, Suit::Spades)]);
    assert_eq!(deck.len(), 49);
    let rest = deck.draw_many(47);
    assert_eq!(rest.len(), 47);
    assert!(FiveCardHand::draw_from(&mut deck).is_none());
    assert_eq!(deck.len(), 0);
    assert_eq!(deck.draw(), None);
    assert!(deck.draw_many(3).is_empty());
}

#[test]
fn shuffle_permutes_the_deck() {
    let mut deck = Deck::new();
    deck.shuffle();
    let cards = deck.draw_many(52);
    let mut ordered = Deck::new();
    let plain = ordered.draw_many(52);
    assert_ne!(cards, plain);
    for card in &plain {
        assert_eq!(cards.iter().filter(|x| *x == card).count(), 1);
    }
}

#[test]
fn round_on_ordered_deck() {
    let mut deck = Deck::new();
    let outcome = round(&mut deck).unwrap();
    assert_eq!(deck.len(), 43);
    assert_eq!(outcome.hand_a.len(), 7);
    assert_eq!(outcome.table.len(), 5);
    assert_eq!(outcome.type_a, HandType::StraightFlush);
    assert_eq!(outcome.type_b, HandType::StraightFlush);
    assert_eq!(outcome.verdict, Ordering::Less);
    let top: Vec<Rank> = outcome.best_b.cards().iter().map(|x| x.rank).collect();
    assert_eq!(top, vec![Rank::Eight, Rank::Nine, Rank::Ten, Rank::Jack, Rank::Queen]);
}

#[test]
fn round_needs_nine_cards() {
    let mut deck = Deck::new();
    deck.draw_many(44);
    assert!(round(&mut deck).is_none());
    assert_eq!(deck.len(), 8);
}

#[test]
fn seeded_shuffle_repeats() {
    let mut a = Deck::new();
    let mut b = Deck::new();
    a.shuffle_seeded(7);
    b.shuffle_seeded(7);
    let ca = a.draw_many(52);
    let cb = b.draw_many(52);
    assert_eq!(ca, cb);
    let plain = Deck::new().draw_many(52);
    assert_ne!(ca, plain);
    for card in &plain {
        assert_eq!(ca.iter().filter(|x| *x == card).count(), 1);
    }
}
