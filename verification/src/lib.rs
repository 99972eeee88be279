//! A verified engine for single-player Blackjack against a dealer whose
//! honesty depends on the difficulty level.
//!
//! The crate models the cards, the four piles they move between, and the
//! turn-by-turn state machine of one round.  Everything the engine decides is
//! stated in contracts; the two draws it takes from the random number
//! generator are the only parts taken on trust.

pub mod card;
pub mod chance;
pub mod deck;
pub mod error;
pub mod input;
pub mod narrative;
pub mod round;
pub mod rules;
pub mod table;
