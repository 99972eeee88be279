//! The ways in which a request to the engine can fail.

use vstd::prelude::*;

verus! {

/// Failures of the engine.  Busts, blackjacks and ties are ordinary outcomes
/// of a round and never show up here.
#[derive(Clone, Copy, PartialEq, Eq, Structural, Debug)]
pub enum GameError {
    /// A card was taken from a stack that holds none.
    EmptyDeck,
    /// A card was needed while both the draw pile and the discard pile were empty.
    NoCardsAvailable,
    /// An answer to a prompt was none of the accepted ones.
    InvalidInput,
}

} // verus!
