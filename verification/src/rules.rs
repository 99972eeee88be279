//! The rules that decide a round: blackjack and bust, the score of a hand,
//! the winner, the difficulty presets and the dealer's policy.

use vstd::prelude::*;
use crate::card::Card;
use crate::deck::{hand_total, Deck};
use crate::error::GameError;

verus! {

/// How a round ended.
#[derive(Clone, Copy, PartialEq, Eq, Structural, Debug)]
pub enum Outcome {
    PlayerBlackjack,
    DealerBlackjack,
    PlayerBust,
    DealerBust,
    PlayerWin,
    DealerWin,
}

/// The side that won a round.
#[derive(Clone, Copy, PartialEq, Eq, Structural, Debug)]
pub enum Winner {
    Player,
    Dealer,
}

/// What the dealer does on a turn.  A hit names the card that the dealer
/// takes: the top card of the draw pile.
#[derive(Clone, Copy, PartialEq, Eq, Structural, Debug)]
pub enum DealerMove {
    Hit(Card),
    Stand,
}

/// The four levels of play, from the beginner to the dealer who always
/// knows the next card.
#[derive(Clone, Copy, PartialEq, Eq, Structural, Debug)]
pub enum Difficulty {
    Novice,
    Club,
    Casino,
    Clairvoyant,
}

/// A hand is a blackjack when it totals 21 with its aces all low or all high.
pub open spec fn is_blackjack(hand: Seq<Card>) -> bool {
    hand_total(hand, 1) == 21 || hand_total(hand, 11) == 21
}

/// A hand is bust when it exceeds 21 even with its aces low.
pub open spec fn is_bust(hand: Seq<Card>) -> bool {
    hand_total(hand, 1) > 21
}

/// The score a hand is compared by: its total with aces high, less 10 if
/// that exceeds 21.
pub open spec fn score(hand: Seq<Card>) -> int {
    if hand_total(hand, 11) > 21 {
        hand_total(hand, 11) - 10
    } else {
        hand_total(hand, 11)
    }
}

/// The outcome when both sides have stood: the dealer wins unless the
/// player's score is strictly higher.
pub open spec fn showdown(player: Seq<Card>, dealer: Seq<Card>) -> Outcome {
    if score(dealer) >= score(player) {
        Outcome::DealerWin
    } else {
        Outcome::PlayerWin
    }
}

/// The dealer's policy.  A roll that does not exceed `cheat_percent` lets
/// the dealer look at the top card of the draw pile and take it exactly
/// when the hand, aces low, stays within 21 with it; that a total which ten
/// more would bring to 31 is taken as well makes no difference, since such
/// a total is 21.  On any other roll the dealer takes a card while the
/// hand, aces low, is within `card_limit`.  A dealer who needs a card and
/// finds the pile empty has no move.
pub open spec fn dealer_decision(
    hand: Seq<Card>,
    draw_pile: Seq<Card>,
    cheat_percent: u64,
    card_limit: u64,
    roll: u64,
) -> Result<DealerMove, GameError> {
    let total = hand_total(hand, 1);
    if roll <= cheat_percent {
        if draw_pile.len() == 0 {
            Err(GameError::NoCardsAvailable)
        } else {
            let peeked = total + draw_pile.last().rank.value();
            if peeked <= 21 || peeked + 10 == 31 {
                Ok(DealerMove::Hit(draw_pile.last()))
            } else {
                Ok(DealerMove::Stand)
            }
        }
    } else if total <= card_limit {
        if draw_pile.len() == 0 {
            Err(GameError::NoCardsAvailable)
        } else {
            Ok(DealerMove::Hit(draw_pile.last()))
        }
    } else {
        Ok(DealerMove::Stand)
    }
}

/// A hand's total with aces low never exceeds its total with aces high.
pub proof fn lemma_low_total_below_high(hand: Seq<Card>)
    ensures
        0 <= hand_total(hand, 1) <= hand_total(hand, 11),
    decreases hand.len(),
{
    if hand.len() > 0 {
        lemma_low_total_below_high(hand.drop_last());
    }
}

impl Outcome {
    /// The side a round ended in favour of.
    pub open spec fn spec_winner(self) -> Winner {
        match self {
            Outcome::PlayerBlackjack | Outcome::DealerBust | Outcome::PlayerWin => Winner::Player,
            Outcome::DealerBlackjack | Outcome::PlayerBust | Outcome::DealerWin => Winner::Dealer,
        }
    }

    /// The side a round ended in favour of.
    #[verifier::when_used_as_spec(spec_winner)]
    pub fn winner(self) -> (w: Winner)
        ensures
            w == self.spec_winner(),
    {
        match self {
            Outcome::PlayerBlackjack | Outcome::DealerBust | Outcome::PlayerWin => Winner::Player,
            Outcome::DealerBlackjack | Outcome::PlayerBust | Outcome::DealerWin => Winner::Dealer,
        }
    }
}

impl Difficulty {
    /// The number a level is chosen by, from 1 to 4.
    pub open spec fn spec_level(self) -> u64 {
        match self {
            Difficulty::Novice => 1,
            Difficulty::Club => 2,
            Difficulty::Casino => 3,
            Difficulty::Clairvoyant => 4,
        }
    }

    /// Out of a hundred turns, on how many the dealer looks at the next card.
    pub open spec fn spec_cheat_percent(self) -> u64 {
        match self {
            Difficulty::Novice => 0,
            Difficulty::Club => 15,
            Difficulty::Casino => 50,
            Difficulty::Clairvoyant => 100,
        }
    }

    /// The highest total, aces low, on which an honest dealer still takes a card.
    pub open spec fn spec_card_limit(self) -> u64 {
        match self {
            Difficulty::Novice => 19,
            _ => 18,
        }
    }

    /// The level with the given number; `None` unless the number is 1, 2, 3 or 4.
    pub fn from_level(level: u64) -> (r: Option<Difficulty>)
        ensures
            r is Some <==> 1 <= level <= 4,
            r matches Some(d) ==> d.spec_level() == level,
    {
        match level {
            1 => Some(Difficulty::Novice),
            2 => Some(Difficulty::Club),
            3 => Some(Difficulty::Casino),
            4 => Some(Difficulty::Clairvoyant),
            _ => None,
        }
    }

    /// The number a level is chosen by.
    #[verifier::when_used_as_spec(spec_level)]
    pub fn level(self) -> (n: u64)
        ensures
            n == self.spec_level(),
    {
        match self {
            Difficulty::Novice => 1,
            Difficulty::Club => 2,
            Difficulty::Casino => 3,
            Difficulty::Clairvoyant => 4,
        }
    }

    /// Out of a hundred turns, on how many the dealer looks at the next card.
    #[verifier::when_used_as_spec(spec_cheat_percent)]
    pub fn cheat_percent(self) -> (p: u64)
        ensures
            p == self.spec_cheat_percent(),
    {
        match self {
            Difficulty::Novice => 0,
            Difficulty::Club => 15,
            Difficulty::Casino => 50,
            Difficulty::Clairvoyant => 100,
        }
    }

    /// The highest total, aces low, on which an honest dealer still takes a card.
    #[verifier::when_used_as_spec(spec_card_limit)]
    pub fn card_limit(self) -> (limit: u64)
        ensures
            limit == self.spec_card_limit(),
    {
        match self {
            Difficulty::Novice => 19,
            _ => 18,
        }
    }
}

impl Deck {
    /// Whether the hand totals 21 with its aces all low or all high.
    pub fn is_blackjack(&self) -> (b: bool)
        requires
            hand_total(self@, 11) <= u64::MAX,
        ensures
            b == is_blackjack(self@),
    {
        proof {
            lemma_low_total_below_high(self@);
        }
        self.count_deck(1) == 21 || self.count_deck(11) == 21
    }

    /// Whether the hand exceeds 21 even with its aces low.
    pub fn is_bust(&self) -> (b: bool)
        requires
            hand_total(self@, 1) <= u64::MAX,
        ensures
            b == is_bust(self@),
    {
        self.count_deck(1) > 21
    }

    /// The score the hand is compared by at the end of a round.
    pub fn score(&self) -> (s: u64)
        requires
            hand_total(self@, 11) <= u64::MAX,
        ensures
            s == score(self@),
    {
        let high = self.count_deck(11);
        if high > 21 {
            high - 10
        } else {
            high
        }
    }
}

/// The dealer's move for the given roll of the percentile die.
pub fn dealer_decide(
    hand: &Deck,
    draw_pile: &Deck,
    cheat_percent: u64,
    card_limit: u64,
    roll: u64,
) -> (r: Result<DealerMove, GameError>)
    requires
        hand_total(hand@, 1) <= u64::MAX,
    ensures
        r == dealer_decision(hand@, draw_pile@, cheat_percent, card_limit, roll),
{
    let dealer_value = hand.count_deck(1);
    let cards_left = draw_pile.stack.len();
    if roll <= cheat_percent {
        if cards_left == 0 {
            Err(GameError::NoCardsAvailable)
        } else {
            let next_card = draw_pile.stack[cards_left - 1];
            if dealer_value <= 21 && next_card.get_value() <= 21 - dealer_value {
                Ok(DealerMove::Hit(next_card))
            } else {
                Ok(DealerMove::Stand)
            }
        }
    } else if dealer_value <= card_limit {
        if cards_left == 0 {
            Err(GameError::NoCardsAvailable)
        } else {
            Ok(DealerMove::Hit(draw_pile.stack[cards_left - 1]))
        }
    } else {
        Ok(DealerMove::Stand)
    }
}

/// With the dealer looking at every card (`cheat_percent` 100, and so
/// whatever the roll), the dealer never stands while the top card of the
/// draw pile would keep the hand within 21: that card is taken.
pub proof fn lemma_all_seeing_dealer_takes_safe_card(
    hand: Seq<Card>,
    draw_pile: Seq<Card>,
    card_limit: u64,
    roll: u64,
)
    requires
        1 <= roll < 100,
        draw_pile.len() > 0,
        ({
            let peeked = hand_total(hand, 1) + draw_pile.last().rank.value();
            peeked <= 21 || peeked + 10 == 31
        }),
    ensures
        dealer_decision(hand, draw_pile, 100, card_limit, roll) == Ok::<DealerMove, GameError>(
            DealerMove::Hit(draw_pile.last()),
        ),
        hand_total(hand.push(draw_pile.last()), 1) <= 21,
{
    assert(hand.push(draw_pile.last()).drop_last() =~= hand);
}

/// With the dealer looking at every card, a dealer who stands would have
/// gone bust on the card that lay on top of the draw pile.
pub proof fn lemma_all_seeing_dealer_stands_only_before_bust(
    hand: Seq<Card>,
    draw_pile: Seq<Card>,
    card_limit: u64,
    roll: u64,
)
    requires
        1 <= roll < 100,
        dealer_decision(hand, draw_pile, 100, card_limit, roll) == Ok::<DealerMove, GameError>(
            DealerMove::Stand,
        ),
    ensures
        draw_pile.len() > 0,
        is_bust(hand.push(draw_pile.last())),
{
    assert(hand.push(draw_pile.last()).drop_last() =~= hand);
}

/// Equal scores go to the dealer.
pub proof fn lemma_dealer_wins_ties(player: Seq<Card>, dealer: Seq<Card>)
    requires
        score(player) == score(dealer),
    ensures
        showdown(player, dealer) == Outcome::DealerWin,
        showdown(player, dealer).spec_winner() == Winner::Dealer,
{
}

} // verus!
