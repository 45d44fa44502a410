use crate::card::{int_cmp, Rank};
use std::cmp::Ordering;
use vstd::prelude::*;

verus! {

/// The category of a five-card hand, weakest first, with the ranks that break
/// ties between two hands of the same category.
///
/// `TwoPair(high, low)` holds the higher pair first; `FullHouse(trip, pair)`
/// holds the rank of the triple first.
#[derive(Debug, Clone, Copy, PartialEq, Eq, Structural)]
pub enum HandType {
    HighCard,
    OnePair(Rank),
    TwoPair(Rank, Rank),
    Trip(Rank),
    Straight,
    Flush,
    FullHouse(Rank, Rank),
    Quad(Rank),
    StraightFlush,
}

impl HandType {
    /// Position of the category, from HighCard (0) to StraightFlush (8).
    pub open spec fn category(self) -> int {
        match self {
            HandType::HighCard => 0,
            HandType::OnePair(_) => 1,
            HandType::TwoPair(_, _) => 2,
            HandType::Trip(_) => 3,
            HandType::Straight => 4,
            HandType::Flush => 5,
            HandType::FullHouse(_, _) => 6,
            HandType::Quad(_) => 7,
            HandType::StraightFlush => 8,
        }
    }

    /// The first embedded rank, 0 where the category carries none.
    pub open spec fn first_kicker(self) -> int {
        match self {
            HandType::OnePair(r) => r.value(),
            HandType::TwoPair(r, _) => r.value(),
            HandType::Trip(r) => r.value(),
            HandType::FullHouse(r, _) => r.value(),
            HandType::Quad(r) => r.value(),
            _ => 0,
        }
    }

    /// The second embedded rank, 0 where the category carries none.
    pub open spec fn second_kicker(self) -> int {
        match self {
            HandType::TwoPair(_, r) => r.value(),
            HandType::FullHouse(_, r) => r.value(),
            _ => 0,
        }
    }

    /// Category first, then the embedded ranks in declared order.
    pub open spec fn compare_spec(self, other: HandType) -> Ordering {
        if self.category() != other.category() {
            int_cmp(self.category(), other.category())
        } else if self.first_kicker() != other.first_kicker() {
            int_cmp(self.first_kicker(), other.first_kicker())
        } else {
            int_cmp(self.second_kicker(), other.second_kicker())
        }
    }

    pub fn category_index(&self) -> (r: usize)
        ensures
            r as int == self.category(),
    {
        match self {
            HandType::HighCard => 0,
            HandType::OnePair(_) => 1,
            HandType::TwoPair(_, _) => 2,
            HandType::Trip(_) => 3,
            HandType::Straight => 4,
            HandType::Flush => 5,
            HandType::FullHouse(_, _) => 6,
            HandType::Quad(_) => 7,
            HandType::StraightFlush => 8,
        }
    }

    fn kickers(&self) -> (r: (usize, usize))
        ensures
            r.0 as int == self.first_kicker(),
            r.1 as int == self.second_kicker(),
    {
        match self {
            HandType::OnePair(a) => (a.index(), 0),
            HandType::TwoPair(a, b) => (a.index(), b.index()),
            HandType::Trip(a) => (a.index(), 0),
            HandType::FullHouse(a, b) => (a.index(), b.index()),
            HandType::Quad(a) => (a.index(), 0),
            _ => (0, 0),
        }
    }

    pub fn compare(&self, other: &HandType) -> (r: Ordering)
        ensures
            r == self.compare_spec(*other),
    {
        let ca = self.category_index();
        let cb = other.category_index();
        let (a1, a2) = self.kickers();
        let (b1, b2) = other.kickers();
        if ca != cb {
            if ca < cb {
                Ordering::Less
            } else {
                Ordering::Greater
            }
        } else if a1 != b1 {
            if a1 < b1 {
                Ordering::Less
            } else {
                Ordering::Greater
            }
        } else if a2 < b2 {
            Ordering::Less
        } else if a2 == b2 {
            Ordering::Equal
        } else {
            Ordering::Greater
        }
    }
}

impl PartialOrd for HandType {
    fn partial_cmp(&self, other: &HandType) -> (r: Option<Ordering>) {
        Some(self.compare(other))
    }
}

impl vstd::std_specs::cmp::PartialOrdSpecImpl for HandType {
    open spec fn obeys_partial_cmp_spec() -> bool {
        true
    }

    open spec fn partial_cmp_spec(&self, other: &HandType) -> Option<Ordering> {
        Some(self.compare_spec(*other))
    }
}

} // verus!
