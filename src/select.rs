use crate::card::Card;
use crate::hand::{
    hand_compare, lemma_compare_antisymmetric, lemma_compare_reflexive, lemma_compare_transitive,
    lemma_sorted_unique, same_cards, FiveCardHand,
};
use itertools::Itertools;
use std::cmp::Ordering;
use vstd::prelude::*;

verus! {

/// `ix` names five positions below `n`, in strictly increasing order.
pub open spec fn five_positions(ix: Seq<int>, n: int) -> bool {
    &&& ix.len() == 5
    &&& forall|j: int| 0 <= j < 5 ==> 0 <= #[trigger] ix[j] < n
    &&& forall|j: int, k: int| 0 <= j < k < 5 ==> ix[j] < ix[k]
}

/// The cards of `s` at the positions `ix`, in that order.
pub open spec fn pick(s: Seq<Card>, ix: Seq<int>) -> Seq<Card> {
    ix.map_values(|i: int| s[i])
}

proof fn lemma_pick_distinct(s: Seq<Card>, ix: Seq<int>)
    requires
        s.no_duplicates(),
        five_positions(ix, s.len() as int),
    ensures
        pick(s, ix).len() == 5,
        pick(s, ix).no_duplicates(),
{
    let p = pick(s, ix);
    assert forall|a: int, b: int| 0 <= a < p.len() && 0 <= b < p.len() && a != b implies p[a]
        != p[b] by {
        assert(ix[a] != ix[b]);
    }
}

/// Relies on itertools' `Itertools::combinations`: with `k = 5` it yields,
/// each once, the items at every choice of five positions, kept in their
/// original order.
#[verifier::external_body]
fn five_card_combinations(cards: &Vec<Card>) -> (r: Vec<Vec<Card>>)
    ensures
        forall|j: int|
            #![trigger r@[j]]
            0 <= j < r@.len() ==> exists|ix: Seq<int>|
                #[trigger] five_positions(ix, cards@.len() as int) && r@[j]@ == pick(cards@, ix),
        forall|ix: Seq<int>|
            #[trigger] five_positions(ix, cards@.len() as int) ==> exists|j: int|
                0 <= j < r@.len() && r@[j]@ == pick(cards@, ix),
{
    cards.clone().into_iter().combinations(5).collect()
}

/// Keeping the stronger of `best` and `h` keeps a hand at least as strong
/// as `g`, where `best` was already, and as any hand with the cards of `h`.
proof fn lemma_keep_stronger(best: FiveCardHand, h: FiveCardHand, g: FiveCardHand)
    requires
        best.wf(),
        h.wf(),
        g.wf(),
    ensures
        hand_compare(best@, g@) != Ordering::Less && hand_compare(h@, best@) == Ordering::Greater
            ==> hand_compare(h@, g@) != Ordering::Less,
        same_cards(g@, h@) && hand_compare(h@, best@) != Ordering::Greater ==> hand_compare(
            best@,
            g@,
        ) != Ordering::Less,
        same_cards(g@, h@) ==> hand_compare(h@, g@) != Ordering::Less,
{
    lemma_compare_antisymmetric(h, best);
    lemma_compare_antisymmetric(best, g);
    lemma_compare_antisymmetric(h, g);
    lemma_compare_transitive(g, best, h);
    if same_cards(g@, h@) {
        lemma_sorted_unique(g@, h@);
        lemma_compare_reflexive(h);
    }
}

/// `h` is at least as strong as every hand made of five of `cards`.
pub open spec fn beats_all_subsets(h: FiveCardHand, cards: Seq<Card>) -> bool {
    forall|ix: Seq<int>, g: FiveCardHand|
        #[trigger] five_positions(ix, cards.len() as int) && g.wf() && same_cards(
            g@,
            pick(cards, ix),
        ) ==> hand_compare(h@, #[trigger] g@) != Ordering::Less
}

/// `h` is a hand made of five of `cards`, and the strongest such hand.
pub open spec fn is_best_hand_of(h: FiveCardHand, cards: Seq<Card>) -> bool {
    &&& h.wf()
    &&& exists|ix: Seq<int>|
        #[trigger] five_positions(ix, cards.len() as int) && same_cards(h@, pick(cards, ix))
    &&& beats_all_subsets(h, cards)
}

impl FiveCardHand {
    /// The strongest hand that five of the given cards make; `None` when
    /// fewer than five cards are given. Among equally strong hands the first
    /// one in enumeration order is kept.
    #[verifier::rlimit(60)]
    #[verifier::spinoff_prover]
    pub fn get_best_hand(cards: Vec<Card>) -> (r: Option<FiveCardHand>)
        requires
            cards@.no_duplicates(),
        ensures
            cards@.len() < 5 <==> r is None,
            r matches Some(h) ==> {
                &&& h.wf()
                &&& exists|ix: Seq<int>|
                    #[trigger] five_positions(ix, cards@.len() as int) && same_cards(
                        h@,
                        pick(cards@, ix),
                    )
                &&& beats_all_subsets(h, cards@)
            },
    {
        if cards.len() < 5 {
            return None;
        }
        let ghost n = cards@.len() as int;
        let combos = five_card_combinations(&cards);
        proof {
            let ix0 = seq![0int, 1, 2, 3, 4];
            assert(five_positions(ix0, n));
        }
        let ghost ix_first = choose|ix: Seq<int>|
            #[trigger] five_positions(ix, n) && combos@[0]@ == pick(cards@, ix);
        proof {
            lemma_pick_distinct(cards@, ix_first);
        }
        let first = combos[0].clone();
        assert(first@ =~= combos@[0]@);
        let mut best = FiveCardHand::new(first);
        proof {
            assert forall|k: int, g: FiveCardHand|
                #![trigger same_cards(g@, combos@[k]@)]
                0 <= k < 1 && g.wf() && same_cards(g@, combos@[k]@) implies hand_compare(
                best@,
                g@,
            ) != Ordering::Less by {
                lemma_keep_stronger(best, best, g);
            }
        }
        let mut j: usize = 1;
        while j < combos.len()
            invariant
                1 <= j <= combos@.len(),
                n == cards@.len(),
                cards@.no_duplicates(),
                best.wf(),
                exists|ix: Seq<int>|
                    #[trigger] five_positions(ix, n) && same_cards(best@, pick(cards@, ix)),
                forall|k: int, g: FiveCardHand|
                    #![trigger same_cards(g@, combos@[k]@)]
                    0 <= k < j && g.wf() && same_cards(g@, combos@[k]@) ==> hand_compare(
                        best@,
                        g@,
                    ) != Ordering::Less,
                forall|k: int|
                    #![trigger combos@[k]]
                    0 <= k < combos@.len() ==> exists|ix: Seq<int>|
                        #[trigger] five_positions(ix, n) && combos@[k]@ == pick(cards@, ix),
            decreases combos@.len() - j,
        {
            let ghost ix = choose|ix: Seq<int>|
                #[trigger] five_positions(ix, n) && combos@[j as int]@ == pick(cards@, ix);
            proof {
                lemma_pick_distinct(cards@, ix);
            }
            let candidate = combos[j].clone();
            assert(candidate@ =~= combos@[j as int]@);
            let h = FiveCardHand::new(candidate);
            let ghost old_best = best;
            let stronger = match h.cmp(&best) {
                Ordering::Greater => true,
                _ => false,
            };
            if stronger {
                best = h;
            }
            proof {
                assert forall|k: int, g: FiveCardHand|
                    #![trigger same_cards(g@, combos@[k]@)]
                    0 <= k < j + 1 && g.wf() && same_cards(g@, combos@[k]@) implies hand_compare(best@, g@) != Ordering::Less by {
                    lemma_keep_stronger(old_best, h, g);
                }
                if stronger {
                    assert(same_cards(best@, pick(cards@, ix)));
                }
            }
            j = j + 1;
        }
        proof {
            assert forall|ix: Seq<int>, g: FiveCardHand|
                #[trigger] five_positions(ix, n) && g.wf() && same_cards(
                    g@,
                    pick(cards@, ix),
                ) implies hand_compare(best@, #[trigger] g@) != Ordering::Less by {
                let k = choose|k: int| 0 <= k < combos@.len() && combos@[k]@ == pick(cards@, ix);
                assert(same_cards(g@, combos@[k]@));
            }
        }
        Some(best)
    }
}

} // verus!
