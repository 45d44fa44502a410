use std::cmp::Ordering;
use vstd::prelude::*;

verus! {

/// Three-way comparison of two integers.
pub open spec fn int_cmp(a: int, b: int) -> Ordering {
    if a < b {
        Ordering::Less
    } else if a == b {
        Ordering::Equal
    } else {
        Ordering::Greater
    }
}

/// The four card families; they matter only for flush detection.
#[derive(Debug, Clone, Copy, PartialEq, Eq, Structural)]
pub enum Suit {
    Hearts,
    Diamonds,
    Clubs,
    Spades,
}

impl Suit {
    /// Position of the suit in the order Hearts, Diamonds, Clubs, Spades.
    pub open spec fn value(self) -> int {
        match self {
            Suit::Hearts => 0,
            Suit::Diamonds => 1,
            Suit::Clubs => 2,
            Suit::Spades => 3,
        }
    }

    /// The suit at position `i` of the order Hearts, Diamonds, Clubs, Spades.
    pub open spec fn from_value(i: int) -> Suit {
        if i == 0 {
            Suit::Hearts
        } else if i == 1 {
            Suit::Diamonds
        } else if i == 2 {
            Suit::Clubs
        } else {
            Suit::Spades
        }
    }

    pub fn index(self) -> (r: usize)
        ensures
            r as int == self.value(),
    {
        match self {
            Suit::Hearts => 0,
            Suit::Diamonds => 1,
            Suit::Clubs => 2,
            Suit::Spades => 3,
        }
    }

    pub fn from_index(i: usize) -> (r: Suit)
        requires
            i < 4,
        ensures
            r == Suit::from_value(i as int),
            r.value() == i,
    {
        if i == 0 {
            Suit::Hearts
        } else if i == 1 {
            Suit::Diamonds
        } else if i == 2 {
            Suit::Clubs
        } else {
            Suit::Spades
        }
    }

    /// One-letter code used when a card is written out.
    pub open spec fn symbol_spec(self) -> char {
        match self {
            Suit::Hearts => 'H',
            Suit::Diamonds => 'D',
            Suit::Clubs => 'C',
            Suit::Spades => 'S',
        }
    }

    pub fn symbol(self) -> (r: char)
        ensures
            r == self.symbol_spec(),
    {
        match self {
            Suit::Hearts => 'H',
            Suit::Diamonds => 'D',
            Suit::Clubs => 'C',
            Suit::Spades => 'S',
        }
    }
}

/// Card face values, from lowest to highest.
#[derive(Debug, Clone, Copy, PartialEq, Eq, Structural)]
pub enum Rank {
    Two,
    Three,
    Four,
    Five,
    Six,
    Seven,
    Eight,
    Nine,
    Ten,
    Jack,
    Queen,
    King,
    Ace,
}

impl Rank {
    /// Position of the rank in the order Two < Three < ... < King < Ace.
    pub open spec fn value(self) -> int {
        match self {
            Rank::Two => 0,
            Rank::Three => 1,
            Rank::Four => 2,
            Rank::Five => 3,
            Rank::Six => 4,
            Rank::Seven => 5,
            Rank::Eight => 6,
            Rank::Nine => 7,
            Rank::Ten => 8,
            Rank::Jack => 9,
            Rank::Queen => 10,
            Rank::King => 11,
            Rank::Ace => 12,
        }
    }

    /// The rank at position `i` (0 for Two, 12 for Ace).
    pub open spec fn from_value(i: int) -> Rank {
        if i <= 0 {
            Rank::Two
        } else if i == 1 {
            Rank::Three
        } else if i == 2 {
            Rank::Four
        } else if i == 3 {
            Rank::Five
        } else if i == 4 {
            Rank::Six
        } else if i == 5 {
            Rank::Seven
        } else if i == 6 {
            Rank::Eight
        } else if i == 7 {
            Rank::Nine
        } else if i == 8 {
            Rank::Ten
        } else if i == 9 {
            Rank::Jack
        } else if i == 10 {
            Rank::Queen
        } else if i == 11 {
            Rank::King
        } else {
            Rank::Ace
        }
    }

    /// Order of ranks: by their position, suit never enters.
    pub open spec fn compare_spec(self, other: Rank) -> Ordering {
        int_cmp(self.value(), other.value())
    }

    pub fn index(self) -> (r: usize)
        ensures
            r as int == self.value(),
    {
        match self {
            Rank::Two => 0,
            Rank::Three => 1,
            Rank::Four => 2,
            Rank::Five => 3,
            Rank::Six => 4,
            Rank::Seven => 5,
            Rank::Eight => 6,
            Rank::Nine => 7,
            Rank::Ten => 8,
            Rank::Jack => 9,
            Rank::Queen => 10,
            Rank::King => 11,
            Rank::Ace => 12,
        }
    }

    pub fn from_index(i: usize) -> (r: Rank)
        requires
            i < 13,
        ensures
            r == Rank::from_value(i as int),
            r.value() == i,
    {
        match i {
            0 => Rank::Two,
            1 => Rank::Three,
            2 => Rank::Four,
            3 => Rank::Five,
            4 => Rank::Six,
            5 => Rank::Seven,
            6 => Rank::Eight,
            7 => Rank::Nine,
            8 => Rank::Ten,
            9 => Rank::Jack,
            10 => Rank::Queen,
            11 => Rank::King,
            _ => Rank::Ace,
        }
    }

    pub fn compare(&self, other: &Rank) -> (r: Ordering)
        ensures
            r == self.compare_spec(*other),
    {
        let a = self.index();
        let b = other.index();
        if a < b {
            Ordering::Less
        } else if a == b {
            Ordering::Equal
        } else {
            Ordering::Greater
        }
    }

    /// Character code used when a card is written out: 2-9, T, J, Q, K, A.
    pub open spec fn symbol_spec(self) -> char {
        match self {
            Rank::Two => '2',
            Rank::Three => '3',
            Rank::Four => '4',
            Rank::Five => '5',
            Rank::Six => '6',
            Rank::Seven => '7',
            Rank::Eight => '8',
            Rank::Nine => '9',
            Rank::Ten => 'T',
            Rank::Jack => 'J',
            Rank::Queen => 'Q',
            Rank::King => 'K',
            Rank::Ace => 'A',
        }
    }

    pub fn symbol(self) -> (r: char)
        ensures
            r == self.symbol_spec(),
    {
        match self {
            Rank::Two => '2',
            Rank::Three => '3',
            Rank::Four => '4',
            Rank::Five => '5',
            Rank::Six => '6',
            Rank::Seven => '7',
            Rank::Eight => '8',
            Rank::Nine => '9',
            Rank::Ten => 'T',
            Rank::Jack => 'J',
            Rank::Queen => 'Q',
            Rank::King => 'K',
            Rank::Ace => 'A',
        }
    }
}

impl PartialOrd for Rank {
    fn partial_cmp(&self, other: &Rank) -> (r: Option<Ordering>) {
        Some(self.compare(other))
    }
}

impl vstd::std_specs::cmp::PartialOrdSpecImpl for Rank {
    open spec fn obeys_partial_cmp_spec() -> bool {
        true
    }

    open spec fn partial_cmp_spec(&self, other: &Rank) -> Option<Ordering> {
        Some(self.compare_spec(*other))
    }
}

/// A playing card. Two cards are equal when suit and rank both match; they
/// are ordered by rank alone.
#[derive(Debug, Clone, Copy, PartialEq, Eq, Structural)]
pub struct Card {
    pub suit: Suit,
    pub rank: Rank,
}

impl Card {
    pub open spec fn compare_spec(self, other: Card) -> Ordering {
        self.rank.compare_spec(other.rank)
    }

    pub fn compare(&self, other: &Card) -> (r: Ordering)
        ensures
            r == self.compare_spec(*other),
    {
        self.rank.compare(&other.rank)
    }
}

impl PartialOrd for Card {
    fn partial_cmp(&self, other: &Card) -> (r: Option<Ordering>) {
        Some(self.compare(other))
    }
}

impl vstd::std_specs::cmp::PartialOrdSpecImpl for Card {
    open spec fn obeys_partial_cmp_spec() -> bool {
        true
    }

    open spec fn partial_cmp_spec(&self, other: &Card) -> Option<Ordering> {
        Some(self.compare_spec(*other))
    }
}

/// The order of ranks is strict and total, and runs Two < Three < ... <
/// King < Ace.
pub proof fn lemma_rank_order(a: Rank, b: Rank, c: Rank)
    ensures
        a.compare_spec(a) == Ordering::Equal,
        a.compare_spec(b) == Ordering::Equal <==> a == b,
        a.compare_spec(b) == Ordering::Less <==> b.compare_spec(a) == Ordering::Greater,
        a.compare_spec(b) == Ordering::Less && b.compare_spec(c) == Ordering::Less
            ==> a.compare_spec(c) == Ordering::Less,
        Rank::Two.compare_spec(Rank::Three) == Ordering::Less,
        Rank::Three.compare_spec(Rank::Four) == Ordering::Less,
        Rank::Four.compare_spec(Rank::Five) == Ordering::Less,
        Rank::Five.compare_spec(Rank::Six) == Ordering::Less,
        Rank::Six.compare_spec(Rank::Seven) == Ordering::Less,
        Rank::Seven.compare_spec(Rank::Eight) == Ordering::Less,
        Rank::Eight.compare_spec(Rank::Nine) == Ordering::Less,
        Rank::Nine.compare_spec(Rank::Ten) == Ordering::Less,
        Rank::Ten.compare_spec(Rank::Jack) == Ordering::Less,
        Rank::Jack.compare_spec(Rank::Queen) == Ordering::Less,
        Rank::Queen.compare_spec(Rank::King) == Ordering::Less,
        Rank::King.compare_spec(Rank::Ace) == Ordering::Less,
{
}

/// Rank positions 0 to 12 name the thirteen ranks, each once.
pub proof fn lemma_rank_values(r: Rank, i: int)
    ensures
        0 <= r.value() < 13,
        Rank::from_value(r.value()) == r,
        0 <= i < 13 ==> Rank::from_value(i).value() == i,
{
}

/// Suit positions 0 to 3 name the four suits, each once.
pub proof fn lemma_suit_values(s: Suit, i: int)
    ensures
        0 <= s.value() < 4,
        Suit::from_value(s.value()) == s,
        0 <= i < 4 ==> Suit::from_value(i).value() == i,
{
}

} // verus!
