//! Poker hand evaluation: card model, five-card hand classification, a total
//! order over hands, and selection of the best five cards out of a larger set.

pub mod card;
pub mod hand_type;
pub mod hand;
pub mod select;
pub mod deck;
pub mod round;
