use crate::card::{lemma_rank_values, lemma_suit_values, Card, Rank, Suit};
use crate::hand::{same_cards, FiveCardHand};
use rand::seq::SliceRandom;
use rand::SeedableRng;
use vstd::prelude::*;

verus! {

/// The card at position `i` of a new deck: suits in the order Hearts,
/// Diamonds, Clubs, Spades, and within each suit the ranks from Two to Ace.
pub open spec fn deck_card(i: int) -> Card {
    Card { suit: Suit::from_value(i / 13), rank: Rank::from_value(i % 13) }
}

/// The fifty-two cards of a new deck, in order.
pub open spec fn full_deck() -> Seq<Card> {
    Seq::new(52, |i: int| deck_card(i))
}

/// The `m` cards at the end of `s`, last one first: what drawing `m` cards
/// from a deck holding `s` hands out.
pub open spec fn drawn(s: Seq<Card>, m: int) -> Seq<Card> {
    Seq::new(m as nat, |k: int| s[s.len() - 1 - k])
}

/// A new deck holds every card exactly once.
pub proof fn lemma_full_deck()
    ensures
        full_deck().len() == 52,
        full_deck().no_duplicates(),
        forall|c: Card| full_deck().contains(c),
{
    let d = full_deck();
    assert forall|i: int, j: int| 0 <= i < 52 && 0 <= j < 52 && i != j implies d[i] != d[j] by {
        lemma_suit_values(d[i].suit, i / 13);
        lemma_suit_values(d[j].suit, j / 13);
        lemma_rank_values(d[i].rank, i % 13);
        lemma_rank_values(d[j].rank, j % 13);
    }
    assert forall|c: Card| d.contains(c) by {
        lemma_suit_values(c.suit, 0);
        lemma_rank_values(c.rank, 0);
        let i = c.suit.value() * 13 + c.rank.value();
        assert(i / 13 == c.suit.value() && i % 13 == c.rank.value());
        assert(d[i] == c);
    }
}

/// Relies on rand's `SliceRandom::shuffle`, fed by `thread_rng`: it permutes
/// the cards in place.
#[verifier::external_body]
fn shuffle_cards(cards: &mut Vec<Card>)
    ensures
        final(cards)@.to_multiset() == old(cards)@.to_multiset(),
{
    cards.shuffle(&mut rand::thread_rng());
}

/// Relies on rand's `SliceRandom::shuffle`, fed by a `StdRng` made with
/// `SeedableRng::seed_from_u64`: it permutes the cards in place.
#[verifier::external_body]
fn shuffle_cards_seeded(cards: &mut Vec<Card>, seed: u64)
    ensures
        final(cards)@.to_multiset() == old(cards)@.to_multiset(),
{
    cards.shuffle(&mut rand::rngs::StdRng::seed_from_u64(seed));
}

/// A pile of distinct cards; cards are drawn from its end.
pub struct Deck {
    cards: Vec<Card>,
}

impl Deck {
    /// The cards of the deck, the next one to be drawn last.
    pub closed spec fn view(&self) -> Seq<Card> {
        self.cards@
    }

    pub open spec fn wf(&self) -> bool {
        self@.no_duplicates()
    }

    /// A full deck in the order of `full_deck`.
    pub fn new() -> (r: Deck)
        ensures
            r@ == full_deck(),
            r.wf(),
            r@.len() == 52,
            forall|c: Card| r@.contains(c),
    {
        let mut cards: Vec<Card> = Vec::new();
        let mut s: usize = 0;
        while s < 4
            invariant
                s <= 4,
                cards@.len() == s * 13,
                forall|k: int| 0 <= k < cards@.len() ==> cards@[k] == deck_card(k),
            decreases 4 - s,
        {
            let suit = Suit::from_index(s);
            let mut r: usize = 0;
            while r < 13
                invariant
                    s < 4,
                    r <= 13,
                    suit == Suit::from_value(s as int),
                    cards@.len() == s * 13 + r,
                    forall|k: int| 0 <= k < cards@.len() ==> cards@[k] == deck_card(k),
                decreases 13 - r,
            {
                let k = s * 13 + r;
                assert(k / 13 == s && k % 13 == r);
                cards.push(Card { suit, rank: Rank::from_index(r) });
                r = r + 1;
            }
            s = s + 1;
        }
        proof {
            lemma_full_deck();
            assert(cards@ == full_deck());
        }
        Deck { cards }
    }

    /// Puts the cards in a random order.
    pub fn shuffle(&mut self)
        requires
            old(self).wf(),
        ensures
            final(self).wf(),
            final(self)@.to_multiset() == old(self)@.to_multiset(),
    {
        proof {
            self@.lemma_multiset_has_no_duplicates();
        }
        shuffle_cards(&mut self.cards);
        proof {
            self@.lemma_multiset_has_no_duplicates_conv();
        }
    }

    /// Number of cards left.
    pub fn len(&self) -> (r: usize)
        ensures
            r == self@.len(),
    {
        self.cards.len()
    }

    /// Puts the cards in an order drawn from a generator seeded with `seed`,
    /// so that a run can be repeated.
    pub fn shuffle_seeded(&mut self, seed: u64)
        requires
            old(self).wf(),
        ensures
            final(self).wf(),
            final(self)@.to_multiset() == old(self)@.to_multiset(),
    {
        proof {
            self@.lemma_multiset_has_no_duplicates();
        }
        shuffle_cards_seeded(&mut self.cards, seed);
        proof {
            self@.lemma_multiset_has_no_duplicates_conv();
        }
    }

    /// Takes the last card off the deck, if any is left.
    pub fn draw(&mut self) -> (r: Option<Card>)
        requires
            old(self).wf(),
        ensures
            final(self).wf(),
            old(self)@.len() == 0 ==> r is None && final(self)@ == old(self)@,
            old(self)@.len() > 0 ==> r == Some(old(self)@.last()) && final(self)@ == old(
                self,
            )@.drop_last(),
    {
        self.cards.pop()
    }

    /// Draws `count` cards, or all that are left when fewer remain; the
    /// cards come in the order they were drawn.
    pub fn draw_many(&mut self, count: usize) -> (r: Vec<Card>)
        requires
            old(self).wf(),
        ensures
            final(self).wf(),
            ({
                let n = old(self)@.len() as int;
                let m = if count < n {
                    count as int
                } else {
                    n
                };
                &&& r@ == drawn(old(self)@, m)
                &&& final(self)@ == old(self)@.subrange(0, n - m)
            }),
    {
        let ghost start = self@;
        let mut cards: Vec<Card> = Vec::new();
        let mut i: usize = 0;
        while i < count
            invariant
                i <= count,
                i <= start.len(),
                self.wf(),
                self@ == start.subrange(0, start.len() - i),
                cards@ == drawn(start, i as int),
                start.no_duplicates(),
                start == old(self)@,
            decreases count - i,
        {
            match self.draw() {
                Some(card) => {
                    cards.push(card);
                    assert(cards@ =~= drawn(start, i + 1));
                },
                None => {
                    assert(i == start.len());
                    assert(self@ =~= start.subrange(0, 0));
                    return cards;
                },
            }
            i = i + 1;
            assert(self@ =~= start.subrange(0, start.len() - i));
        }
        cards
    }
}

impl FiveCardHand {
    /// Draws five cards from the deck and makes them a hand; `None` when the
    /// deck held fewer than five cards (those are drawn all the same).
    pub fn draw_from(deck: &mut Deck) -> (r: Option<FiveCardHand>)
        requires
            old(deck).wf(),
        ensures
            final(deck).wf(),
            old(deck)@.len() < 5 ==> r is None && final(deck)@.len() == 0,
            old(deck)@.len() >= 5 ==> (r matches Some(h) && h.wf() && same_cards(
                h@,
                drawn(old(deck)@, 5),
            )) && final(deck)@ == old(deck)@.subrange(0, old(deck)@.len() - 5),
    {
        let ghost start = deck@;
        let cards = deck.draw_many(5);
        if cards.len() < 5 {
            return None;
        }
        proof {
            let d = drawn(start, 5);
            assert forall|a: int, b: int| 0 <= a < 5 && 0 <= b < 5 && a != b implies d[a]
                != d[b] by {
                assert(start[start.len() - 1 - a] != start[start.len() - 1 - b]);
            }
        }
        Some(FiveCardHand::new(cards))
    }
}

} // verus!
