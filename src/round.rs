use crate::card::Card;
use crate::deck::{drawn, Deck};
use crate::hand::{hand_compare, hand_type_spec, FiveCardHand};
use crate::hand_type::HandType;
use crate::select::is_best_hand_of;
use std::cmp::Ordering;
use vstd::prelude::*;

verus! {

/// What one round between two players produced.
pub struct RoundOutcome {
    /// The first player's two cards followed by the five table cards.
    pub hand_a: Vec<Card>,
    /// The second player's two cards followed by the five table cards.
    pub hand_b: Vec<Card>,
    /// The five shared cards.
    pub table: Vec<Card>,
    pub best_a: FiveCardHand,
    pub best_b: FiveCardHand,
    pub type_a: HandType,
    pub type_b: HandType,
    /// How the first player's best hand compares with the second's.
    pub verdict: Ordering,
}

/// Deals one round from the deck: two cards to the first player, two to the
/// second, then five to the table; each player's best hand out of their own
/// two cards and the table is found, classified and compared. `None`, with
/// the deck untouched, when it holds fewer than nine cards.
pub fn round(deck: &mut Deck) -> (r: Option<RoundOutcome>)
    requires
        old(deck).wf(),
    ensures
        final(deck).wf(),
        old(deck)@.len() < 9 ==> r is None && final(deck)@ == old(deck)@,
        old(deck)@.len() >= 9 ==> r is Some && final(deck)@ == old(deck)@.subrange(
            0,
            old(deck)@.len() - 9,
        ),
        r matches Some(o) ==> {
            let d = drawn(old(deck)@, 9);
            &&& o.table@ == d.subrange(4, 9)
            &&& o.hand_a@ == seq![d[0], d[1]] + d.subrange(4, 9)
            &&& o.hand_b@ == seq![d[2], d[3]] + d.subrange(4, 9)
            &&& is_best_hand_of(o.best_a, o.hand_a@)
            &&& is_best_hand_of(o.best_b, o.hand_b@)
            &&& o.type_a == hand_type_spec(o.best_a@)
            &&& o.type_b == hand_type_spec(o.best_b@)
            &&& o.verdict == hand_compare(o.best_a@, o.best_b@)
        },
{
    if deck.len() < 9 {
        return None;
    }
    let ghost start = deck@;
    let d = deck.draw_many(9);
    proof {
        assert forall|a: int, b: int| 0 <= a < 9 && 0 <= b < 9 && a != b implies d@[a] != d@[b] by {
            assert(start[start.len() - 1 - a] != start[start.len() - 1 - b]);
        }
    }
    let table = vec![d[4], d[5], d[6], d[7], d[8]];
    let hand_a = vec![d[0], d[1], d[4], d[5], d[6], d[7], d[8]];
    let hand_b = vec![d[2], d[3], d[4], d[5], d[6], d[7], d[8]];
    assert(table@ =~= d@.subrange(4, 9));
    assert(hand_a@ =~= seq![d@[0], d@[1]] + d@.subrange(4, 9));
    assert(hand_b@ =~= seq![d@[2], d@[3]] + d@.subrange(4, 9));
    proof {
        let ia = seq![0int, 1, 4, 5, 6, 7, 8];
        let ib = seq![2int, 3, 4, 5, 6, 7, 8];
        assert forall|a: int, b: int| 0 <= a < 7 && 0 <= b < 7 && a != b implies hand_a@[a]
            != hand_a@[b] by {
            assert(hand_a@[a] == d@[ia[a]] && hand_a@[b] == d@[ia[b]]);
        }
        assert forall|a: int, b: int| 0 <= a < 7 && 0 <= b < 7 && a != b implies hand_b@[a]
            != hand_b@[b] by {
            assert(hand_b@[a] == d@[ib[a]] && hand_b@[b] == d@[ib[b]]);
        }
    }
    let best_a = FiveCardHand::get_best_hand(hand_a.clone()).unwrap();
    let best_b = FiveCardHand::get_best_hand(hand_b.clone()).unwrap();
    let type_a = best_a.get_hand_type();
    let type_b = best_b.get_hand_type();
    let verdict = best_a.cmp(&best_b);
    Some(RoundOutcome { hand_a, hand_b, table, best_a, best_b, type_a, type_b, verdict })
}

} // verus!
