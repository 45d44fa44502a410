use crate::card::{int_cmp, Card, Rank};
use crate::hand_type::HandType;
use std::cmp::Ordering;
use itertools::Itertools;
use vstd::prelude::*;

verus! {

/// Sort key of a card inside a hand: rank first, then suit. Distinct cards
/// have distinct keys.
pub open spec fn card_key(c: Card) -> int {
    c.rank.value() * 4 + c.suit.value()
}

/// The cards stand in strictly increasing key order.
pub open spec fn sorted_by_key(s: Seq<Card>) -> bool {
    forall|i: int, j: int| 0 <= i < j < s.len() ==> card_key(s[i]) < card_key(s[j])
}

/// `a` and `b` hold the same cards.
pub open spec fn same_cards(a: Seq<Card>, b: Seq<Card>) -> bool {
    forall|c: Card| a.contains(c) <==> b.contains(c)
}

pub proof fn lemma_card_key_injective(a: Card, b: Card)
    requires
        card_key(a) == card_key(b),
    ensures
        a == b,
{
    let (ra, sa, rb, sb) = (a.rank.value(), a.suit.value(), b.rank.value(), b.suit.value());
    assert(ra == rb && sa == sb) by (nonlinear_arith)
        requires
            ra * 4 + sa == rb * 4 + sb,
            0 <= sa < 4,
            0 <= sb < 4,
    ;
}

/// Two key-sorted sequences that hold the same cards are the same sequence.
pub proof fn lemma_sorted_unique(a: Seq<Card>, b: Seq<Card>)
    requires
        sorted_by_key(a),
        sorted_by_key(b),
        same_cards(a, b),
    ensures
        a == b,
    decreases a.len(),
{
    if a.len() == 0 {
        if b.len() > 0 {
            assert(b.contains(b[0]));
        }
    } else {
        assert(a.contains(a[0]));
        assert(b.len() > 0);
        assert(b.contains(b[0]));
        let i = choose|i: int| 0 <= i < b.len() && b[i] == a[0];
        let j = choose|j: int| 0 <= j < a.len() && a[j] == b[0];
        assert(card_key(a[0]) == card_key(b[0]));
        lemma_card_key_injective(a[0], b[0]);
        let (ta, tb) = (a.drop_first(), b.drop_first());
        assert forall|c: Card| ta.contains(c) implies tb.contains(c) by {
            let k = choose|k: int| 0 <= k < ta.len() && ta[k] == c;
            assert(a[k + 1] == c);
            assert(b.contains(c));
            let m = choose|m: int| 0 <= m < b.len() && b[m] == c;
            if m == 0 {
                assert(card_key(a[0]) < card_key(a[k + 1]));
            }
            assert(tb[m - 1] == c);
        }
        assert forall|c: Card| tb.contains(c) implies ta.contains(c) by {
            let k = choose|k: int| 0 <= k < tb.len() && tb[k] == c;
            assert(b[k + 1] == c);
            assert(a.contains(c));
            let m = choose|m: int| 0 <= m < a.len() && a[m] == c;
            if m == 0 {
                assert(card_key(b[0]) < card_key(b[k + 1]));
            }
            assert(ta[m - 1] == c);
        }
        lemma_sorted_unique(ta, tb);
        assert(a == seq![a[0]] + ta);
        assert(b == seq![b[0]] + tb);
    }
}

/// Number of cards of rank position `r` in `s`.
pub open spec fn rank_count(s: Seq<Card>, r: int) -> int
    decreases s.len(),
{
    if s.len() == 0 {
        0
    } else {
        rank_count(s.drop_last(), r) + if s.last().rank.value() == r {
            1int
        } else {
            0int
        }
    }
}

/// How many cards of each of the thirteen ranks `s` holds, indexed by rank position.
pub open spec fn histogram(s: Seq<Card>) -> Seq<int> {
    Seq::new(13, |r: int| rank_count(s, r))
}

/// The lowest position at or after `from` whose entry is `k`.
pub open spec fn first_index_with(h: Seq<int>, k: int, from: int) -> Option<int>
    decreases h.len() - from,
{
    if from < 0 || from >= h.len() {
        None
    } else if h[from] == k {
        Some(from)
    } else {
        first_index_with(h, k, from + 1)
    }
}

/// All positions whose entry is `k`, in ascending order.
pub open spec fn indices_with(h: Seq<int>, k: int) -> Seq<int>
    decreases h.len(),
{
    if h.len() == 0 {
        Seq::empty()
    } else {
        indices_with(h.drop_last(), k) + if h.last() == k {
            seq![h.len() - 1]
        } else {
            Seq::empty()
        }
    }
}

/// The entries of a vector of counters, as integers.
pub open spec fn counts(v: Seq<u8>) -> Seq<int> {
    v.map_values(|x: u8| x as int)
}

/// The hand type decided by repeated ranks alone; `None` when all ranks differ
/// (or, unreachable with five cards, when three pairs occur).
pub open spec fn dist_hand_type(s: Seq<Card>) -> Option<HandType> {
    let h = histogram(s);
    let pairs = indices_with(h, 2);
    match first_index_with(h, 4, 0) {
        Some(q) => Some(HandType::Quad(Rank::from_value(q))),
        None => match first_index_with(h, 3, 0) {
            Some(t) => if pairs.len() > 0 {
                Some(HandType::FullHouse(Rank::from_value(t), Rank::from_value(pairs[0])))
            } else {
                Some(HandType::Trip(Rank::from_value(t)))
            },
            None => if pairs.len() == 2 {
                Some(HandType::TwoPair(Rank::from_value(pairs[1]), Rank::from_value(pairs[0])))
            } else if pairs.len() == 1 {
                Some(HandType::OnePair(Rank::from_value(pairs[0])))
            } else {
                None
            },
        },
    }
}

/// One step of the straight check, from one card to the next in ascending
/// order: the rank goes up by one, or the step is Five to Ace (the wheel).
pub open spec fn straight_step(prev: Rank, next: Rank) -> bool {
    next.value() == prev.value() + 1 || (prev == Rank::Five && next == Rank::Ace)
}

pub open spec fn is_straight_spec(s: Seq<Card>) -> bool {
    forall|i: int| 1 <= i < s.len() ==> straight_step(#[trigger] s[i - 1].rank, s[i].rank)
}

pub open spec fn is_flush_spec(s: Seq<Card>) -> bool {
    forall|i: int| 0 <= i < s.len() ==> #[trigger] s[i].suit == s[0].suit
}

/// The classification of a hand whose cards are `s` in ascending order.
pub open spec fn hand_type_spec(s: Seq<Card>) -> HandType {
    match dist_hand_type(s) {
        Some(t) => t,
        None => if is_straight_spec(s) && is_flush_spec(s) {
            HandType::StraightFlush
        } else if is_straight_spec(s) {
            HandType::Straight
        } else if is_flush_spec(s) {
            HandType::Flush
        } else {
            HandType::HighCard
        },
    }
}

proof fn lemma_first_index_with_bounds(h: Seq<int>, k: int, from: int)
    ensures
        first_index_with(h, k, from) matches Some(i) ==> from <= i < h.len() && h[i] == k,
    decreases h.len() - from,
{
    if 0 <= from < h.len() && h[from] != k {
        lemma_first_index_with_bounds(h, k, from + 1);
    }
}

proof fn lemma_indices_with_bounds(h: Seq<int>, k: int)
    ensures
        forall|j: int| 0 <= j < indices_with(h, k).len() ==> 0 <= #[trigger] indices_with(h, k)[j] < h.len(),
    decreases h.len(),
{
    if h.len() > 0 {
        let prev = indices_with(h.drop_last(), k);
        lemma_indices_with_bounds(h.drop_last(), k);
        assert forall|j: int| 0 <= j < indices_with(h, k).len() implies 0 <= #[trigger] indices_with(
            h,
            k,
        )[j] < h.len() by {
            if j < prev.len() {
                assert(indices_with(h, k)[j] == prev[j]);
            }
        }
    }
}

proof fn lemma_rank_count_bound(s: Seq<Card>, r: int)
    ensures
        0 <= rank_count(s, r) <= s.len(),
    decreases s.len(),
{
    if s.len() > 0 {
        lemma_rank_count_bound(s.drop_last(), r);
    }
}

fn count_is(x: u8, k: u8) -> (r: bool)
    ensures
        r == (x == k),
{
    x == k
}

/// Relies on itertools' `Itertools::positions`: it yields, in ascending
/// order, the index of every item for which the predicate holds.
#[verifier::external_body]
fn positions_of(dist: &Vec<u8>, k: u8) -> (r: Vec<usize>)
    ensures
        r@.len() == indices_with(counts(dist@), k as int).len(),
        forall|j: int| 0 <= j < r@.len() ==> r@[j] as int == indices_with(counts(dist@), k as int)[j],
{
    dist.iter().positions(|x| count_is(*x, k)).collect()
}

/// Index of the first counter equal to `k`.
fn position_of(dist: &Vec<u8>, k: u8) -> (r: Option<usize>)
    ensures
        match r {
            Some(i) => first_index_with(counts(dist@), k as int, 0) == Some(i as int),
            None => first_index_with(counts(dist@), k as int, 0) is None,
        },
{
    let ghost h = counts(dist@);
    let mut i: usize = 0;
    while i < dist.len()
        invariant
            i <= dist@.len(),
            h == counts(dist@),
            first_index_with(h, k as int, 0) == first_index_with(h, k as int, i as int),
        decreases dist@.len() - i,
    {
        if dist[i] == k {
            return Some(i);
        }
        i = i + 1;
    }
    None
}

/// The opposite outcome: what comparing the other way round gives.
pub open spec fn flip(o: Ordering) -> Ordering {
    match o {
        Ordering::Less => Ordering::Greater,
        Ordering::Equal => Ordering::Equal,
        Ordering::Greater => Ordering::Less,
    }
}

/// Compares the ranks of `a` and `b` position by position, from position
/// `n - 1` down to 0; the first difference decides.
pub open spec fn kicker_cmp(a: Seq<Card>, b: Seq<Card>, n: int) -> Ordering
    decreases n,
{
    if n <= 0 {
        Ordering::Equal
    } else {
        let c = int_cmp(a[n - 1].rank.value(), b[n - 1].rank.value());
        if c != Ordering::Equal {
            c
        } else {
            kicker_cmp(a, b, n - 1)
        }
    }
}

/// The order of hands whose cards are `a` and `b` in ascending order: hand
/// type first, then the card ranks from the highest down.
#[verifier::opaque]
pub open spec fn hand_compare(a: Seq<Card>, b: Seq<Card>) -> Ordering {
    let c = hand_type_spec(a).compare_spec(hand_type_spec(b));
    if c != Ordering::Equal {
        c
    } else {
        kicker_cmp(a, b, 5)
    }
}

proof fn lemma_int_cmp_laws(x: int, y: int, z: int)
    ensures
        int_cmp(x, x) == Ordering::Equal,
        int_cmp(x, y) == flip(int_cmp(y, x)),
        int_cmp(x, y) == Ordering::Equal <==> x == y,
        int_cmp(x, y) == int_cmp(y, z) ==> int_cmp(x, z) == int_cmp(x, y),
        int_cmp(x, y) != Ordering::Greater && int_cmp(y, z) != Ordering::Greater ==> int_cmp(x, z)
            != Ordering::Greater,
{
}

proof fn lemma_hand_type_laws(s: HandType, t: HandType, u: HandType)
    ensures
        s.compare_spec(s) == Ordering::Equal,
        s.compare_spec(t) == flip(t.compare_spec(s)),
        s.compare_spec(t) == t.compare_spec(u) ==> s.compare_spec(u) == s.compare_spec(t),
        s.compare_spec(t) != Ordering::Greater && t.compare_spec(u) != Ordering::Greater
            ==> s.compare_spec(u) != Ordering::Greater,
{
    lemma_int_cmp_laws(s.category(), t.category(), u.category());
    lemma_int_cmp_laws(s.first_kicker(), t.first_kicker(), u.first_kicker());
    lemma_int_cmp_laws(s.second_kicker(), t.second_kicker(), u.second_kicker());
}

proof fn lemma_kicker_cmp_laws(a: Seq<Card>, b: Seq<Card>, c: Seq<Card>, n: int)
    ensures
        kicker_cmp(a, a, n) == Ordering::Equal,
        kicker_cmp(a, b, n) == flip(kicker_cmp(b, a, n)),
        kicker_cmp(a, b, n) == kicker_cmp(b, c, n) ==> kicker_cmp(a, c, n) == kicker_cmp(a, b, n),
        kicker_cmp(a, b, n) != Ordering::Greater && kicker_cmp(b, c, n) != Ordering::Greater
            ==> kicker_cmp(a, c, n) != Ordering::Greater,
    decreases n,
{
    if n > 0 {
        lemma_kicker_cmp_laws(a, b, c, n - 1);
        lemma_int_cmp_laws(a[n - 1].rank.value(), b[n - 1].rank.value(), c[n - 1].rank.value());
    }
}

/// Five distinct cards, kept in order of increasing rank (ties by suit), so
/// that the same five cards always give the same hand.
#[derive(Debug, Clone, PartialEq, Eq)]
pub struct FiveCardHand {
    cards: Vec<Card>,
}

fn key_of(c: &Card) -> (r: usize)
    ensures
        r as int == card_key(*c),
{
    c.rank.index() * 4 + c.suit.index()
}

impl FiveCardHand {
    /// The cards of the hand, from lowest to highest rank.
    pub closed spec fn view(&self) -> Seq<Card> {
        self.cards@
    }

    pub open spec fn wf(&self) -> bool {
        &&& self@.len() == 5
        &&& sorted_by_key(self@)
    }

    /// Builds the hand that holds exactly the five given cards.
    pub fn new(hand: Vec<Card>) -> (r: FiveCardHand)
        requires
            hand@.len() == 5,
            hand@.no_duplicates(),
        ensures
            r.wf(),
            same_cards(r@, hand@),
    {
        let mut cards: Vec<Card> = Vec::new();
        let mut i: usize = 0;
        while i < hand.len()
            invariant
                i <= hand@.len(),
                hand@.len() == 5,
                hand@.no_duplicates(),
                cards@.len() == i,
                sorted_by_key(cards@),
                same_cards(cards@, hand@.subrange(0, i as int)),
            decreases hand@.len() - i,
        {
            let c = hand[i];
            let k = key_of(&c);
            let mut pos: usize = 0;
            let mut done = false;
            while !done && pos < cards.len()
                invariant
                    pos <= cards@.len(),
                    forall|j: int| 0 <= j < pos ==> card_key(cards@[j]) < k,
                    done ==> pos < cards@.len() && card_key(cards@[pos as int]) >= k,
                decreases cards@.len() - pos + (if done { 0int } else { 1int }),
            {
                if key_of(&cards[pos]) < k {
                    pos = pos + 1;
                } else {
                    done = true;
                }
            }
            proof {
                assert(!cards@.contains(c)) by {
                    if cards@.contains(c) {
                        assert(hand@.subrange(0, i as int).contains(c));
                        let m = choose|m: int| 0 <= m < i && hand@.subrange(0, i as int)[m] == c;
                        assert(hand@[m] == hand@[i as int]);
                    }
                }
                assert forall|j: int| pos <= j < cards@.len() implies card_key(cards@[j]) > k by {
                    if card_key(cards@[j]) == k {
                        lemma_card_key_injective(cards@[j], c);
                        assert(cards@.contains(cards@[j]));
                    }
                }
                cards@.insert_ensures(pos as int, c);
            }
            let ghost before = cards@;
            cards.insert(pos, c);
            proof {
                let sub = hand@.subrange(0, i + 1);
                assert forall|x: Card| cards@.contains(x) <==> sub.contains(x) by {
                    if cards@.contains(x) {
                        let m = choose|m: int| 0 <= m < cards@.len() && cards@[m] == x;
                        if m < pos {
                            assert(before.contains(x));
                        } else if m > pos {
                            assert(before[m - 1] == x);
                            assert(before.contains(x));
                        } else {
                            assert(sub[i as int] == c);
                        }
                        if x != c {
                            let n = choose|n: int| 0 <= n < i && hand@.subrange(0, i as int)[n] == x;
                            assert(sub[n] == x);
                        }
                    }
                    if sub.contains(x) {
                        let n = choose|n: int| 0 <= n <= i && sub[n] == x;
                        if n < i {
                            assert(hand@.subrange(0, i as int)[n] == x);
                            assert(before.contains(x));
                            let m = choose|m: int| 0 <= m < before.len() && before[m] == x;
                            if m < pos {
                                assert(cards@[m] == x);
                            } else {
                                assert(cards@[m + 1] == x);
                            }
                        } else {
                            assert(cards@[pos as int] == x);
                        }
                    }
                }
            }
            i = i + 1;
        }
        assert(hand@.subrange(0, 5) == hand@);
        FiveCardHand { cards }
    }

    /// The cards of the hand, from lowest to highest rank.
    pub fn cards(&self) -> (r: &Vec<Card>)
        ensures
            r@ == self@,
    {
        &self.cards
    }

    /// The rank at position `index` (0 for Two, 12 for Ace), if there is one.
    pub fn get_rank_from_index(index: usize) -> (r: Option<Rank>)
        ensures
            index < 13 ==> r == Some(Rank::from_value(index as int)),
            index >= 13 ==> r is None,
    {
        match index {
            0 => Some(Rank::Two),
            1 => Some(Rank::Three),
            2 => Some(Rank::Four),
            3 => Some(Rank::Five),
            4 => Some(Rank::Six),
            5 => Some(Rank::Seven),
            6 => Some(Rank::Eight),
            7 => Some(Rank::Nine),
            8 => Some(Rank::Ten),
            9 => Some(Rank::Jack),
            10 => Some(Rank::Queen),
            11 => Some(Rank::King),
            12 => Some(Rank::Ace),
            _ => None,
        }
    }

    /// Whether the cards, in ascending order, form a straight (the wheel
    /// A-2-3-4-5 included).
    pub fn is_straight(&self) -> (r: bool)
        requires
            self.wf(),
        ensures
            r == is_straight_spec(self@),
    {
        let mut prev = self.cards[0].rank;
        let mut i: usize = 1;
        while i < self.cards.len()
            invariant
                1 <= i <= self@.len(),
                self@.len() == 5,
                prev == self@[i - 1].rank,
                forall|j: int| 1 <= j < i ==> straight_step(#[trigger] self@[j - 1].rank, self@[j].rank),
            decreases self@.len() - i,
        {
            let next = self.cards[i].rank;
            let pi = prev.index();
            let ni = next.index();
            if ni != pi + 1 && !(pi == 3 && ni == 12) {
                assert(!straight_step(self@[i - 1].rank, self@[i as int].rank));
                return false;
            }
            prev = next;
            i = i + 1;
        }
        true
    }

    /// Whether all five cards share one suit.
    pub fn is_flush(&self) -> (r: bool)
        requires
            self.wf(),
        ensures
            r == is_flush_spec(self@),
    {
        let suit = self.cards[0].suit;
        let mut i: usize = 1;
        while i < self.cards.len()
            invariant
                1 <= i <= self@.len(),
                self@.len() == 5,
                suit == self@[0].suit,
                forall|j: int| 0 <= j < i ==> #[trigger] self@[j].suit == suit,
            decreases self@.len() - i,
        {
            if self.cards[i].suit != suit {
                return false;
            }
            i = i + 1;
        }
        true
    }

    /// The hand type that repeated ranks decide, or `None` when all five
    /// ranks differ.
    pub fn get_dist_hand_type(&self) -> (r: Option<HandType>)
        requires
            self.wf(),
        ensures
            r == dist_hand_type(self@),
    {
        let mut dist: Vec<u8> = Vec::new();
        let mut r: usize = 0;
        while r < 13
            invariant
                r <= 13,
                dist@.len() == r,
                forall|j: int| 0 <= j < r ==> dist@[j] == 0,
            decreases 13 - r,
        {
            dist.push(0);
            r = r + 1;
        }
        let mut i: usize = 0;
        while i < self.cards.len()
            invariant
                i <= self@.len(),
                self@.len() == 5,
                dist@.len() == 13,
                forall|j: int| 0 <= j < 13 ==> dist@[j] as int == rank_count(self@.subrange(0, i as int), j),
                forall|j: int| 0 <= j < 13 ==> dist@[j] <= i,
            decreases self@.len() - i,
        {
            let idx = self.cards[i].rank.index();
            let c = dist[idx];
            dist.set(idx, c + 1);
            assert(self@.subrange(0, i + 1).drop_last() == self@.subrange(0, i as int));
            i = i + 1;
        }
        let ghost h = histogram(self@);
        assert(self@.subrange(0, 5) == self@);
        assert(counts(dist@) == h);
        proof {
            lemma_first_index_with_bounds(h, 4, 0);
            lemma_first_index_with_bounds(h, 3, 0);
            lemma_indices_with_bounds(h, 2);
        }
        if let Some(q) = position_of(&dist, 4) {
            return Some(HandType::Quad(FiveCardHand::get_rank_from_index(q).unwrap()));
        }
        let triple = position_of(&dist, 3);
        let pairs = positions_of(&dist, 2);
        match triple {
            Some(t) => {
                let rank = FiveCardHand::get_rank_from_index(t).unwrap();
                if pairs.len() > 0 {
                    let pair_rank = FiveCardHand::get_rank_from_index(pairs[0]).unwrap();
                    Some(HandType::FullHouse(rank, pair_rank))
                } else {
                    Some(HandType::Trip(rank))
                }
            },
            None => {
                if pairs.len() == 2 {
                    let low = FiveCardHand::get_rank_from_index(pairs[0]).unwrap();
                    let high = FiveCardHand::get_rank_from_index(pairs[1]).unwrap();
                    Some(HandType::TwoPair(high, low))
                } else if pairs.len() == 1 {
                    Some(HandType::OnePair(FiveCardHand::get_rank_from_index(pairs[0]).unwrap()))
                } else {
                    None
                }
            },
        }
    }

    /// Classifies the hand.
    pub fn get_hand_type(&self) -> (r: HandType)
        requires
            self.wf(),
        ensures
            r == hand_type_spec(self@),
    {
        match self.get_dist_hand_type() {
            Some(t) => t,
            None => {
                let straight = self.is_straight();
                let flush = self.is_flush();
                if straight && flush {
                    HandType::StraightFlush
                } else if straight {
                    HandType::Straight
                } else if flush {
                    HandType::Flush
                } else {
                    HandType::HighCard
                }
            },
        }
    }

    /// Orders two hands: hand type first (category, then embedded ranks),
    /// then the ranks of the cards from the highest down.
    pub fn cmp(&self, other: &FiveCardHand) -> (r: Ordering)
        requires
            self.wf(),
            other.wf(),
        ensures
            r == hand_compare(self@, other@),
    {
        proof {
            reveal(hand_compare);
        }
        let by_type = self.get_hand_type().compare(&other.get_hand_type());
        match by_type {
            Ordering::Equal => {
                assert(hand_compare(self@, other@) == kicker_cmp(self@, other@, 5));
            },
            _ => {
                return by_type;
            },
        }
        let mut n: usize = 5;
        while n > 0
            invariant
                n <= 5,
                self@.len() == 5,
                other@.len() == 5,
                hand_compare(self@, other@) == kicker_cmp(self@, other@, n as int),
            decreases n,
        {
            let c = self.cards[n - 1].compare(&other.cards[n - 1]);
            match c {
                Ordering::Equal => {},
                _ => {
                    assert(kicker_cmp(self@, other@, n as int) == c);
                    return c;
                },
            }
            n = n - 1;
        }
        Ordering::Equal
    }
}

} // verus!

verus! {

/// Every hand compares equal to itself.
pub proof fn lemma_compare_reflexive(a: FiveCardHand)
    requires
        a.wf(),
    ensures
        hand_compare(a@, a@) == Ordering::Equal,
{
    reveal(hand_compare);
    let t = hand_type_spec(a@);
    lemma_hand_type_laws(t, t, t);
    lemma_kicker_cmp_laws(a@, a@, a@, 5);
}

/// Comparing two hands the other way round gives the opposite outcome.
pub proof fn lemma_compare_antisymmetric(a: FiveCardHand, b: FiveCardHand)
    requires
        a.wf(),
        b.wf(),
    ensures
        hand_compare(a@, b@) == flip(hand_compare(b@, a@)),
{
    reveal(hand_compare);
    let (s, t) = (hand_type_spec(a@), hand_type_spec(b@));
    lemma_hand_type_laws(s, t, t);
    lemma_kicker_cmp_laws(a@, b@, b@, 5);
}

/// The order of hands is transitive, for each outcome and for "not greater".
pub proof fn lemma_compare_transitive(a: FiveCardHand, b: FiveCardHand, c: FiveCardHand)
    requires
        a.wf(),
        b.wf(),
        c.wf(),
    ensures
        hand_compare(a@, b@) == hand_compare(b@, c@) ==> hand_compare(a@, c@) == hand_compare(
            a@,
            b@,
        ),
        hand_compare(a@, b@) != Ordering::Greater && hand_compare(b@, c@) != Ordering::Greater
            ==> hand_compare(a@, c@) != Ordering::Greater,
{
    reveal(hand_compare);
    let (s, t, u) = (hand_type_spec(a@), hand_type_spec(b@), hand_type_spec(c@));
    lemma_hand_type_laws(s, t, u);
    lemma_hand_type_laws(t, s, u);
    lemma_hand_type_laws(s, u, t);
    lemma_kicker_cmp_laws(a@, b@, c@, 5);
}

/// A hand of a weaker category loses to a hand of a stronger one, whatever
/// the ranks involved.
pub proof fn lemma_category_decides(a: FiveCardHand, b: FiveCardHand)
    requires
        a.wf(),
        b.wf(),
        hand_type_spec(a@).category() < hand_type_spec(b@).category(),
    ensures
        hand_compare(a@, b@) == Ordering::Less,
        hand_compare(b@, a@) == Ordering::Greater,
{
    reveal(hand_compare);
}

} // verus!
