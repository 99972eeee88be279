//! One round of play as a state machine.
//!
//! A round moves from the deal through the turns of player and dealer to
//! its outcome.  Player and dealer take turns one move at a time; whoever
//! stands sits out until the round ends.  The caller shows the table and
//! asks the player between the steps; every decision is taken here.

use vstd::prelude::*;
use vstd::multiset::group_multiset_axioms;
use vstd::seq_lib::to_multiset_len;
use crate::card::Card;
use crate::chance::roll_percent;
use crate::deck::{hand_total, lemma_hand_total_bounds, lemma_no_cards};
use crate::error::GameError;
use crate::rules::{
    dealer_decide, dealer_decision, is_blackjack, is_bust, lemma_low_total_below_high, showdown,
    DealerMove, Outcome, Winner,
};
use crate::table::{
    lemma_complete_table_size, lemma_took_conserves, lemma_took_one_more, replenish, replenished,
    took, Table, TableView,
};

verus! {

/// Where a round stands.
#[derive(Clone, Copy, PartialEq, Eq, Structural, Debug)]
pub enum Phase {
    /// No card has been dealt yet.
    Dealing,
    /// The player is to say hit or stand.
    PlayerTurn,
    /// The dealer is to move.
    DealerTurn,
    /// Both sides have stood and the scores are to be compared.
    Resolving,
    /// The round is over.
    Terminal(Outcome),
}

/// The player's answer on a turn.
#[derive(Clone, Copy, PartialEq, Eq, Structural, Debug)]
pub enum Choice {
    Hit,
    Stand,
}

/// A round in progress.  It owns the table for as long as it lasts.
pub struct Round {
    pub table: Table,
    /// Out of a hundred turns, on how many the dealer looks at the next card.
    pub cheat_percent: u64,
    /// The highest total, aces low, on which an honest dealer still takes a card.
    pub card_limit: u64,
    pub phase: Phase,
    /// The player has neither stood nor seen the round end.
    pub player_playing: bool,
    /// The dealer has neither stood nor seen the round end.
    pub dealer_playing: bool,
}

/// A round with its piles as sequences of cards.
pub struct RoundView {
    pub table: TableView,
    pub cheat_percent: u64,
    pub card_limit: u64,
    pub phase: Phase,
    pub player_playing: bool,
    pub dealer_playing: bool,
}

impl View for Round {
    type V = RoundView;

    open spec fn view(&self) -> RoundView {
        RoundView {
            table: self.table@,
            cheat_percent: self.cheat_percent,
            card_limit: self.card_limit,
            phase: self.phase,
            player_playing: self.player_playing,
            dealer_playing: self.dealer_playing,
        }
    }
}

impl RoundView {
    /// The table holds exactly one fresh deck, and whoever is to move is
    /// still playing, while nobody is once both have stood or the round is over.
    pub open spec fn wf(self) -> bool {
        &&& self.table.complete()
        &&& match self.phase {
            Phase::Dealing => true,
            Phase::PlayerTurn => self.player_playing,
            Phase::DealerTurn => self.dealer_playing,
            Phase::Resolving => !self.player_playing && !self.dealer_playing,
            Phase::Terminal(_) => !self.player_playing && !self.dealer_playing,
        }
    }

    /// The same round with other piles.
    pub open spec fn with_table(self, table: TableView) -> RoundView {
        RoundView { table, ..self }
    }

    /// The same round in another phase.
    pub open spec fn at(self, phase: Phase) -> RoundView {
        RoundView { phase, ..self }
    }

    /// The round with both sides playing.
    pub open spec fn opened(self) -> RoundView {
        RoundView { player_playing: true, dealer_playing: true, ..self }
    }

    /// The round, over with the given outcome.
    pub open spec fn ended(self, outcome: Outcome) -> RoundView {
        RoundView {
            phase: Phase::Terminal(outcome),
            player_playing: false,
            dealer_playing: false,
            ..self
        }
    }

    /// The check for blackjack, the player's hand first: a blackjack ends
    /// the round, otherwise play goes on in `next`.
    pub open spec fn checked(self, next: Phase) -> RoundView {
        if is_blackjack(self.table.player_hand) {
            self.ended(Outcome::PlayerBlackjack)
        } else if is_blackjack(self.table.dealer_hand) {
            self.ended(Outcome::DealerBlackjack)
        } else {
            self.at(next)
        }
    }

    /// Where the round stands once the player has moved: bust, else
    /// a blackjack on either side, else the turn of whoever still plays,
    /// the dealer first.
    pub open spec fn after_player(self) -> RoundView {
        if is_bust(self.table.player_hand) {
            self.ended(Outcome::PlayerBust)
        } else {
            self.checked(
                if self.dealer_playing {
                    Phase::DealerTurn
                } else if self.player_playing {
                    Phase::PlayerTurn
                } else {
                    Phase::Resolving
                },
            )
        }
    }

    /// Where the round stands once the dealer has moved: bust, else the
    /// comparison of scores if both have stood, else a blackjack on
    /// either side, else the turn of whoever still plays, the player first.
    pub open spec fn after_dealer(self) -> RoundView {
        if is_bust(self.table.dealer_hand) {
            self.ended(Outcome::DealerBust)
        } else if !self.player_playing && !self.dealer_playing {
            self.at(Phase::Resolving)
        } else {
            self.checked(
                if self.player_playing {
                    Phase::PlayerTurn
                } else {
                    Phase::DealerTurn
                },
            )
        }
    }

    /// The round decided by the scores.
    pub open spec fn resolved(self) -> RoundView {
        self.ended(showdown(self.table.player_hand, self.table.dealer_hand))
    }
}

/// The deal.  Four cards are taken: the first and third go to the player,
/// the second and fourth to the dealer.  Both sides are in play from then
/// on.  A blackjack ends the round at once; otherwise the player is to
/// move.  With fewer than four cards in the draw pile and the discard pile
/// together nothing is dealt.
pub open spec fn dealt(pre: RoundView, post: RoundView, r: Result<(), GameError>) -> bool {
    let m = pre.table.player_hand.len() as int;
    let n = pre.table.dealer_hand.len() as int;
    if pre.table.draw.len() + pre.table.discard.len() < 4 {
        r == Err::<(), GameError>(GameError::NoCardsAvailable) && post == pre
    } else {
        &&& r is Ok
        &&& post.table.player_hand.len() == m + 2
        &&& post.table.player_hand.take(m) == pre.table.player_hand
        &&& post.table.dealer_hand.len() == n + 2
        &&& post.table.dealer_hand.take(n) == pre.table.dealer_hand
        &&& took(
            pre.table.draw,
            pre.table.discard,
            seq![
                post.table.player_hand[m],
                post.table.dealer_hand[n],
                post.table.player_hand[m + 1],
                post.table.dealer_hand[n + 1],
            ],
            post.table.draw,
            post.table.discard,
        )
        &&& post == pre.with_table(post.table).opened().checked(Phase::PlayerTurn)
    }
}

/// The player's move.  On a stand the player sits out from now on.  On a
/// hit the player takes one card; with no card left in the draw pile and
/// the discard pile the hit fails and nothing changes.
pub open spec fn player_moved(
    pre: RoundView,
    choice: Choice,
    post: RoundView,
    r: Result<(), GameError>,
) -> bool {
    match choice {
        Choice::Stand => {
            &&& r is Ok
            &&& post == RoundView { player_playing: false, ..pre }.after_player()
        },
        Choice::Hit => if pre.table.draw.len() + pre.table.discard.len() == 0 {
            r == Err::<(), GameError>(GameError::NoCardsAvailable) && post == pre
        } else {
            &&& r is Ok
            &&& post.table.player_hand.len() == pre.table.player_hand.len() + 1
            &&& post.table.player_hand.drop_last() == pre.table.player_hand
            &&& post.table.dealer_hand == pre.table.dealer_hand
            &&& took(
                pre.table.draw,
                pre.table.discard,
                seq![post.table.player_hand.last()],
                post.table.draw,
                post.table.discard,
            )
            &&& post == pre.with_table(post.table).after_player()
        },
    }
}

/// The draw pile as the dealer found it on the move from `pre` to `post`:
/// a card that went to the dealer's hand lay on top of what is left.
pub open spec fn pile_before_move(pre: RoundView, post: RoundView) -> Seq<Card> {
    if post.table.dealer_hand.len() > pre.table.dealer_hand.len() {
        post.table.draw.push(post.table.dealer_hand.last())
    } else {
        post.table.draw
    }
}

/// The dealer's move for a given roll.  The draw pile is topped up first.
/// The dealer then decides by `dealer_decision`: a hit moves the top card
/// of the draw pile to the dealer's hand, a stand lets the dealer sit out
/// from now on.  If the dealer needs a card and there is none, the move
/// fails and nothing changes.
pub open spec fn dealer_moved(
    pre: RoundView,
    roll: u64,
    post: RoundView,
    r: Result<(), GameError>,
) -> bool {
    let pile = pile_before_move(pre, post);
    &&& replenished(pre.table.draw, pre.table.discard, pile, post.table.discard)
    &&& post.table.player_hand == pre.table.player_hand
    &&& match dealer_decision(
        pre.table.dealer_hand,
        pile,
        pre.cheat_percent,
        pre.card_limit,
        roll,
    ) {
        Err(e) => r == Err::<(), GameError>(e) && post == pre,
        Ok(DealerMove::Hit(card)) => {
            &&& r is Ok
            &&& post.table.dealer_hand == pre.table.dealer_hand.push(card)
            &&& post.table.draw == pile.drop_last()
            &&& post == pre.with_table(post.table).after_dealer()
        },
        Ok(DealerMove::Stand) => {
            &&& r is Ok
            &&& post.table.dealer_hand == pre.table.dealer_hand
            &&& post.table.draw == pile
            &&& post == RoundView { dealer_playing: false, ..pre.with_table(post.table) }.after_dealer()
        },
    }
}

/// On a complete table no hand is worth more than 52 cards of 11.
pub proof fn lemma_hands_fit(table: TableView)
    requires
        table.complete(),
    ensures
        0 <= hand_total(table.player_hand, 1) <= hand_total(table.player_hand, 11) <= 572,
        0 <= hand_total(table.dealer_hand, 1) <= hand_total(table.dealer_hand, 11) <= 572,
{
    lemma_complete_table_size(table);
    lemma_hand_total_bounds(table.player_hand, 11);
    lemma_hand_total_bounds(table.dealer_hand, 11);
    lemma_low_total_below_high(table.player_hand);
    lemma_low_total_below_high(table.dealer_hand);
}

impl Round {
    /// A round about to begin on `table`, against a dealer of the given habits.
    pub fn new(table: Table, cheat_percent: u64, card_limit: u64) -> (round: Round)
        ensures
            round@ == (RoundView {
                table: table@,
                cheat_percent,
                card_limit,
                phase: Phase::Dealing,
                player_playing: true,
                dealer_playing: true,
            }),
            round@.wf() <==> table@.complete(),
    {
        Round {
            table,
            cheat_percent,
            card_limit,
            phase: Phase::Dealing,
            player_playing: true,
            dealer_playing: true,
        }
    }

    /// Ends the round with `outcome`.
    fn end(&mut self, outcome: Outcome)
        ensures
            final(self)@ == old(self)@.ended(outcome),
    {
        self.phase = Phase::Terminal(outcome);
        self.player_playing = false;
        self.dealer_playing = false;
    }

    /// Checks both hands for blackjack and moves on to `next` if there is none.
    fn check(&mut self, next: Phase)
        requires
            old(self)@.table.complete(),
        ensures
            final(self)@ == old(self)@.checked(next),
    {
        proof {
            lemma_hands_fit(self@.table);
        }
        if self.table.player_hand.is_blackjack() {
            self.end(Outcome::PlayerBlackjack);
        } else if self.table.dealer_hand.is_blackjack() {
            self.end(Outcome::DealerBlackjack);
        } else {
            self.phase = next;
        }
    }

    /// Settles the round after a move of the player.
    fn settle_player(&mut self)
        requires
            old(self)@.table.complete(),
        ensures
            final(self)@ == old(self)@.after_player(),
    {
        proof {
            lemma_hands_fit(self@.table);
        }
        if self.table.player_hand.is_bust() {
            self.end(Outcome::PlayerBust);
        } else if self.dealer_playing {
            self.check(Phase::DealerTurn);
        } else if self.player_playing {
            self.check(Phase::PlayerTurn);
        } else {
            self.check(Phase::Resolving);
        }
    }

    /// Settles the round after a move of the dealer.
    fn settle_dealer(&mut self)
        requires
            old(self)@.table.complete(),
        ensures
            final(self)@ == old(self)@.after_dealer(),
    {
        proof {
            lemma_hands_fit(self@.table);
        }
        if self.table.dealer_hand.is_bust() {
            self.end(Outcome::DealerBust);
        } else if !self.player_playing && !self.dealer_playing {
            self.phase = Phase::Resolving;
        } else if self.player_playing {
            self.check(Phase::PlayerTurn);
        } else {
            self.check(Phase::DealerTurn);
        }
    }

    /// Deals two cards each, to player and dealer in turn, and checks for blackjack.
    pub fn deal(&mut self) -> (r: Result<(), GameError>)
        requires
            old(self)@.table.complete(),
            old(self)@.phase == Phase::Dealing,
        ensures
            final(self)@.table.complete(),
            r is Ok ==> final(self)@.wf(),
            dealt(old(self)@, final(self)@, r),
    {
        proof {
            lemma_complete_table_size(self@.table);
        }
        if self.table.draw.stack.len() + self.table.discard.stack.len() < 4 {
            return Err(GameError::NoCardsAvailable);
        }
        let ghost t0 = self@.table;
        let first = match self.table.deal_to_player() {
            Ok(card) => card,
            Err(e) => {
                return Err(e);
            },
        };
        let ghost t1 = self@.table;
        proof {
            lemma_took_conserves(t0.draw, t0.discard, seq![first], t1.draw, t1.discard);
        }
        let second = match self.table.deal_to_dealer() {
            Ok(card) => card,
            Err(e) => {
                return Err(e);
            },
        };
        let ghost t2 = self@.table;
        proof {
            lemma_took_conserves(t1.draw, t1.discard, seq![second], t2.draw, t2.discard);
        }
        let third = match self.table.deal_to_player() {
            Ok(card) => card,
            Err(e) => {
                return Err(e);
            },
        };
        let ghost t3 = self@.table;
        proof {
            lemma_took_conserves(t2.draw, t2.discard, seq![third], t3.draw, t3.discard);
        }
        let fourth = match self.table.deal_to_dealer() {
            Ok(card) => card,
            Err(e) => {
                return Err(e);
            },
        };
        proof {
            let t4 = self@.table;
            lemma_took_one_more(
                t0.draw,
                t0.discard,
                seq![first],
                t1.draw,
                t1.discard,
                second,
                t2.draw,
                t2.discard,
            );
            assert(seq![first].push(second) =~= seq![first, second]);
            lemma_took_one_more(
                t0.draw,
                t0.discard,
                seq![first, second],
                t2.draw,
                t2.discard,
                third,
                t3.draw,
                t3.discard,
            );
            assert(seq![first, second].push(third) =~= seq![first, second, third]);
            lemma_took_one_more(
                t0.draw,
                t0.discard,
                seq![first, second, third],
                t3.draw,
                t3.discard,
                fourth,
                t4.draw,
                t4.discard,
            );
            assert(seq![first, second, third].push(fourth) =~= seq![first, second, third, fourth]);
            assert(t4.player_hand.take(t0.player_hand.len() as int) =~= t0.player_hand);
            assert(t4.dealer_hand.take(t0.dealer_hand.len() as int) =~= t0.dealer_hand);
        }
        self.player_playing = true;
        self.dealer_playing = true;
        self.check(Phase::PlayerTurn);
        Ok(())
    }

    /// The player's move.
    pub fn player_turn(&mut self, choice: Choice) -> (r: Result<(), GameError>)
        requires
            old(self)@.table.complete(),
            old(self)@.phase == Phase::PlayerTurn,
        ensures
            final(self)@.table.complete(),
            r is Ok ==> final(self)@.wf(),
            player_moved(old(self)@, choice, final(self)@, r),
    {
        match choice {
            Choice::Hit => {
                let ghost hand = self@.table.player_hand;
                match self.table.deal_to_player() {
                    Ok(_) => {
                        assert(self@.table.player_hand.drop_last() =~= hand);
                    },
                    Err(e) => {
                        return Err(e);
                    },
                }
            },
            Choice::Stand => {
                self.player_playing = false;
            },
        }
        self.settle_player();
        Ok(())
    }

    /// The dealer's move for a given roll of the percentile die.
    pub fn dealer_turn_with(&mut self, roll: u64) -> (r: Result<(), GameError>)
        requires
            old(self)@.table.complete(),
            old(self)@.phase == Phase::DealerTurn,
        ensures
            final(self)@.table.complete(),
            r is Ok ==> final(self)@.wf(),
            dealer_moved(old(self)@, roll, final(self)@, r),
    {
        proof {
            lemma_hands_fit(self@.table);
        }
        replenish(&mut self.table.draw, &mut self.table.discard);
        let ghost pile = self@.table.draw;
        proof {
            lemma_replenished_conserves(old(self)@.table, self@.table);
        }
        let decision = dealer_decide(
            &self.table.dealer_hand,
            &self.table.draw,
            self.cheat_percent,
            self.card_limit,
            roll,
        );
        match decision {
            Err(e) => {
                proof {
                    assert(self@.table.draw =~= old(self)@.table.draw);
                    assert(self@.table.discard =~= old(self)@.table.discard);
                }
                return Err(e);
            },
            Ok(DealerMove::Hit(_)) => {
                match self.table.deal_to_dealer() {
                    Ok(card) => {
                        proof {
                            assert(seq![card][0] == card);
                            assert(pile =~= self@.table.draw.push(card));
                        }
                    },
                    Err(e) => {
                        return Err(e);
                    },
                }
            },
            Ok(DealerMove::Stand) => {
                self.dealer_playing = false;
            },
        }
        self.settle_dealer();
        Ok(())
    }

    /// The dealer's move: the percentile die is rolled and the dealer moves by it.
    pub fn dealer_turn(&mut self) -> (r: Result<(), GameError>)
        requires
            old(self)@.table.complete(),
            old(self)@.phase == Phase::DealerTurn,
        ensures
            final(self)@.table.complete(),
            r is Ok ==> final(self)@.wf(),
            exists|roll: u64| 1 <= roll < 100 && dealer_moved(old(self)@, roll, final(self)@, r),
    {
        let roll = roll_percent();
        self.dealer_turn_with(roll)
    }

    /// Compares the scores once both sides have stood.
    pub fn resolve(&mut self)
        requires
            old(self)@.table.complete(),
            old(self)@.phase == Phase::Resolving,
        ensures
            final(self)@.wf(),
            final(self)@ == old(self)@.resolved(),
    {
        proof {
            lemma_hands_fit(self@.table);
        }
        let player_score = self.table.player_hand.score();
        let dealer_score = self.table.dealer_hand.score();
        if dealer_score >= player_score {
            self.end(Outcome::DealerWin);
        } else {
            self.end(Outcome::PlayerWin);
        }
    }

    /// How the round ended, once it has.
    pub fn outcome(&self) -> (r: Option<Outcome>)
        ensures
            r == match self@.phase {
                Phase::Terminal(outcome) => Some(outcome),
                _ => None,
            },
    {
        match self.phase {
            Phase::Terminal(outcome) => Some(outcome),
            _ => None,
        }
    }

    /// Closes a round that is over: the hands are cleared onto the discard
    /// pile, and the table is handed back with the outcome.
    pub fn finish(self) -> (r: (Table, Outcome))
        requires
            self@.table.complete(),
            self@.phase is Terminal,
        ensures
            r.0@ == self@.table.collected(),
            r.0@.complete(),
            Phase::Terminal(r.1) == self@.phase,
    {
        let Round { table, phase, .. } = self;
        let mut table = table;
        table.collect_hands();
        match phase {
            Phase::Terminal(outcome) => (table, outcome),
            _ => unreached(),
        }
    }
}

/// A deal from a draw pile of four cards or more takes the top four: the
/// first and third lie in the player's hand, the second and fourth in the
/// dealer's, and the discard pile is not touched.  Dealt from a full pile
/// of 52 into empty hands, that leaves 48 cards to draw and two in each hand.
pub proof fn lemma_deal_from_ample_pile(pre: RoundView, post: RoundView)
    requires
        pre.table.draw.len() >= 4,
        dealt(pre, post, Ok(())),
    ensures
        post.table.draw == pre.table.draw.take(pre.table.draw.len() - 4),
        post.table.draw.len() == pre.table.draw.len() - 4,
        post.table.discard == pre.table.discard,
        post.table.player_hand == pre.table.player_hand.push(
            pre.table.draw[pre.table.draw.len() - 1],
        ).push(pre.table.draw[pre.table.draw.len() - 3]),
        post.table.player_hand.len() == pre.table.player_hand.len() + 2,
        post.table.dealer_hand == pre.table.dealer_hand.push(
            pre.table.draw[pre.table.draw.len() - 2],
        ).push(pre.table.draw[pre.table.draw.len() - 4]),
        post.table.dealer_hand.len() == pre.table.dealer_hand.len() + 2,
{
}

/// A dealer's hand that totals 21 after the deal ends the round at once
/// in the dealer's favour, before the player has a turn, unless the
/// player's hand totals 21 as well.
pub proof fn lemma_dealer_blackjack_on_deal(pre: RoundView, post: RoundView)
    requires
        dealt(pre, post, Ok(())),
        is_blackjack(post.table.dealer_hand),
        !is_blackjack(post.table.player_hand),
    ensures
        post.phase == Phase::Terminal(Outcome::DealerBlackjack),
        Outcome::DealerBlackjack.spec_winner() == Winner::Dealer,
{
}

/// A hit that takes the player's hand over 21, aces low, ends the round:
/// the player is bust and the dealer has won.
pub proof fn lemma_bust_on_hit(pre: RoundView, post: RoundView)
    requires
        player_moved(pre, Choice::Hit, post, Ok(())),
        hand_total(post.table.player_hand, 1) > 21,
    ensures
        post.phase == Phase::Terminal(Outcome::PlayerBust),
        Outcome::PlayerBust.spec_winner() == Winner::Dealer,
{
}

/// Topping up the draw pile keeps every card on the table.
proof fn lemma_replenished_conserves(pre: TableView, post: TableView)
    requires
        replenished(pre.draw, pre.discard, post.draw, post.discard),
        post.player_hand == pre.player_hand,
        post.dealer_hand == pre.dealer_hand,
    ensures
        post.cards() == pre.cards(),
        post.draw.len() + post.discard.len() == pre.draw.len() + pre.discard.len(),
{
    broadcast use {to_multiset_len, group_multiset_axioms};

    if pre.draw.len() == 0 {
        lemma_no_cards(pre.draw);
        lemma_no_cards(post.discard);
        assert(post.draw.to_multiset().len() == pre.discard.to_multiset().len());
    }
}

} // verus!
