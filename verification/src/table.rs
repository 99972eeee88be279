//! The four piles a card can lie in, and the flow of cards between them.

use vstd::prelude::*;
use vstd::multiset::*;
use vstd::seq_lib::*;
use crate::card::Card;
use crate::deck::{full_deck, lemma_full_deck_census, lemma_no_cards, place_in_full_deck, Deck};
use crate::error::GameError;

verus! {

/// The piles of a game: the pile that cards are drawn from, the two hands,
/// and the pile of cards played in earlier rounds.
pub struct Table {
    pub draw: Deck,
    pub player_hand: Deck,
    pub dealer_hand: Deck,
    pub discard: Deck,
}

/// The piles of a game as sequences of cards, each with its top last.
pub struct TableView {
    pub draw: Seq<Card>,
    pub player_hand: Seq<Card>,
    pub dealer_hand: Seq<Card>,
    pub discard: Seq<Card>,
}

impl View for Table {
    type V = TableView;

    open spec fn view(&self) -> TableView {
        TableView {
            draw: self.draw@,
            player_hand: self.player_hand@,
            dealer_hand: self.dealer_hand@,
            discard: self.discard@,
        }
    }
}

impl TableView {
    /// All cards on the table, whatever pile they lie in.
    pub open spec fn cards(self) -> Multiset<Card> {
        self.draw.to_multiset().add(self.player_hand.to_multiset()).add(
            self.dealer_hand.to_multiset(),
        ).add(self.discard.to_multiset())
    }

    /// The piles together hold exactly the cards of one fresh deck.
    pub open spec fn complete(self) -> bool {
        self.cards() == full_deck().to_multiset()
    }

    /// The table with its hands cleared: the player's cards lie on the
    /// discard pile in the order in which they leave the top of the hand,
    /// the dealer's likewise above them.
    pub open spec fn collected(self) -> TableView {
        TableView {
            draw: self.draw,
            player_hand: Seq::empty(),
            dealer_hand: Seq::empty(),
            discard: self.discard + self.player_hand.reverse() + self.dealer_hand.reverse(),
        }
    }
}

/// What topping up the draw pile does: a pile that holds cards is left as
/// it is; an empty one receives the whole discard pile in some order.
pub open spec fn replenished(
    draw0: Seq<Card>,
    discard0: Seq<Card>,
    draw1: Seq<Card>,
    discard1: Seq<Card>,
) -> bool {
    if draw0.len() > 0 {
        draw1 == draw0 && discard1 == discard0
    } else {
        draw1.to_multiset() == discard0.to_multiset() && discard1.len() == 0
    }
}

/// What taking the cards `taken` one after the other does to the draw pile
/// and the discard pile.  While the draw pile lasts the cards come off its
/// top.  If it runs out, the discard pile is shuffled into its place: from
/// then on all that is fixed is that the cards still to be taken and the
/// cards left in the draw pile are the cards of the old discard pile.
pub open spec fn took(
    draw0: Seq<Card>,
    discard0: Seq<Card>,
    taken: Seq<Card>,
    draw1: Seq<Card>,
    discard1: Seq<Card>,
) -> bool {
    let n = draw0.len();
    let k = taken.len();
    if k <= n {
        &&& draw1 == draw0.take(n - k)
        &&& discard1 == discard0
        &&& forall|i: int| 0 <= i < k ==> taken[i] == draw0[n - 1 - i]
    } else {
        &&& forall|i: int| 0 <= i < n ==> taken[i] == draw0[n - 1 - i]
        &&& discard1.len() == 0
        &&& (draw1 + taken.skip(n as int)).to_multiset() == discard0.to_multiset()
    }
}

/// Tops up the draw pile: if it is empty, every card of the discard pile
/// moves into it and the pile is shuffled.
pub fn replenish(draw_pile: &mut Deck, discard_pile: &mut Deck)
    ensures
        replenished(old(draw_pile)@, old(discard_pile)@, final(draw_pile)@, final(discard_pile)@),
{
    if draw_pile.stack.len() == 0 {
        draw_pile.stack.append(&mut discard_pile.stack);
        draw_pile.shuffle();
    }
}

/// Takes the next card for play.  It comes off the top of the draw pile;
/// an empty draw pile is first topped up from the discard pile.  With both
/// piles empty there is no card to take.
pub fn draw_card(draw_pile: &mut Deck, discard_pile: &mut Deck) -> (r: Result<Card, GameError>)
    ensures
        r is Ok <==> old(draw_pile)@.len() + old(discard_pile)@.len() > 0,
        r matches Ok(card) ==> took(
            old(draw_pile)@,
            old(discard_pile)@,
            seq![card],
            final(draw_pile)@,
            final(discard_pile)@,
        ),
        r matches Ok(card) ==> final(draw_pile)@.to_multiset().add(
            final(discard_pile)@.to_multiset(),
        ).insert(card) == old(draw_pile)@.to_multiset().add(old(discard_pile)@.to_multiset()),
        r matches Ok(card) ==> old(draw_pile)@.len() > 0 ==> {
            &&& card == old(draw_pile)@.last()
            &&& final(draw_pile)@ == old(draw_pile)@.drop_last()
            &&& final(discard_pile)@ == old(discard_pile)@
        },
        r matches Ok(card) ==> old(draw_pile)@.len() == 0 ==> {
            &&& final(draw_pile)@.len() == old(discard_pile)@.len() - 1
            &&& final(discard_pile)@.len() == 0
            &&& final(draw_pile)@.to_multiset().insert(card) == old(discard_pile)@.to_multiset()
        },
        r matches Err(e) ==> {
            &&& e == GameError::NoCardsAvailable
            &&& final(draw_pile)@ == old(draw_pile)@
            &&& final(discard_pile)@ == old(discard_pile)@
        },
{
    broadcast use {
        lemma_multiset_commutative,
        to_multiset_len,
        to_multiset_build,
        group_multiset_axioms,
    };

    replenish(draw_pile, discard_pile);
    let ghost pile = draw_pile@;
    match draw_pile.draw() {
        Ok(card) => {
            proof {
                assert(pile =~= draw_pile@.push(card));
                if old(draw_pile)@.len() == 0 {
                    assert(seq![card].skip(0) =~= seq![card]);
                    assert(draw_pile@ + seq![card] =~= pile);
                }
                lemma_took_conserves(
                    old(draw_pile)@,
                    old(discard_pile)@,
                    seq![card],
                    draw_pile@,
                    discard_pile@,
                );
            }
            Ok(card)
        },
        Err(_) => {
            proof {
                assert(pile.to_multiset().len() == 0);
            }
            Err(GameError::NoCardsAvailable)
        },
    }
}

impl Table {
    /// A table set for the first round: a shuffled fresh deck to draw from,
    /// and nothing in the hands or the discard pile.
    pub fn new() -> (table: Table)
        ensures
            table@.complete(),
            table@.draw.len() == 52,
            table@.draw.to_multiset() == full_deck().to_multiset(),
            table@.player_hand.len() == 0,
            table@.dealer_hand.len() == 0,
            table@.discard.len() == 0,
    {
        let mut draw = Deck::new();
        draw.populate();
        draw.shuffle();
        let table = Table {
            draw,
            player_hand: Deck::new(),
            dealer_hand: Deck::new(),
            discard: Deck::new(),
        };
        proof {
            broadcast use group_multiset_axioms;

            lemma_no_cards(table@.player_hand);
            lemma_no_cards(table@.dealer_hand);
            lemma_no_cards(table@.discard);
            assert(table@.cards() =~= table@.draw.to_multiset());
        }
        table
    }

    /// Whether the piles together hold exactly the cards of one fresh deck.
    pub fn is_complete(&self) -> (b: bool)
        ensures
            b == self@.complete(),
    {
        let mut fresh = Deck::new();
        fresh.populate();
        proof {
            lemma_full_deck_census();
        }
        let mut i: usize = 0;
        while i < 52
            invariant
                i <= 52,
                fresh@ == full_deck(),
                forall|j: int| 0 <= j < i ==> self@.cards().count(#[trigger] full_deck()[j]) == 1,
            decreases 52 - i,
        {
            broadcast use group_multiset_axioms;

            proof {
                lemma_full_deck_census();
            }
            let card = fresh.stack[i];
            let in_draw = self.draw.count_card(card);
            let in_player = self.player_hand.count_card(card);
            let in_dealer = self.dealer_hand.count_card(card);
            let in_discard = self.discard.count_card(card);
            if in_draw > 1 || in_player > 1 || in_dealer > 1 || in_discard > 1 {
                assert(self@.cards().count(card) > 1);
                return false;
            }
            if in_draw + in_player + in_dealer + in_discard != 1 {
                return false;
            }
            i += 1;
        }
        proof {
            assert forall|c: Card| self@.cards().count(c) == full_deck().to_multiset().count(
                c,
            ) by {
                assert(full_deck()[place_in_full_deck(c)] == c);
            }
            assert(self@.cards() =~= full_deck().to_multiset());
        }
        true
    }

    /// Clears the hands at the end of a round: the player's cards go onto
    /// the discard pile from the top of the hand down, then the dealer's.
    pub fn collect_hands(&mut self)
        ensures
            final(self)@ == old(self)@.collected(),
            final(self)@.cards() == old(self)@.cards(),
    {
        self.player_hand.pour_into(&mut self.discard);
        self.dealer_hand.pour_into(&mut self.discard);
        proof {
            broadcast use {lemma_multiset_commutative, group_multiset_axioms};

            old(self)@.player_hand.lemma_reverse_to_multiset();
            old(self)@.dealer_hand.lemma_reverse_to_multiset();
            lemma_no_cards(self@.player_hand);
            lemma_no_cards(self@.dealer_hand);
            assert(self@.player_hand =~= Seq::<Card>::empty());
            assert(self@.dealer_hand =~= Seq::<Card>::empty());
        }
    }

    /// Deals the next card to the player.
    pub fn deal_to_player(&mut self) -> (r: Result<Card, GameError>)
        ensures
            r is Ok <==> old(self)@.draw.len() + old(self)@.discard.len() > 0,
            r matches Ok(card) ==> {
                &&& took(
                    old(self)@.draw,
                    old(self)@.discard,
                    seq![card],
                    final(self)@.draw,
                    final(self)@.discard,
                )
                &&& final(self)@.player_hand == old(self)@.player_hand.push(card)
                &&& final(self)@.dealer_hand == old(self)@.dealer_hand
                &&& final(self)@.cards() == old(self)@.cards()
            },
            r matches Err(e) ==> e == GameError::NoCardsAvailable && final(self)@ == old(self)@,
    {
        match draw_card(&mut self.draw, &mut self.discard) {
            Ok(card) => {
                self.player_hand.add(card);
                proof {
                    lemma_card_dealt(old(self)@, self@, card);
                }
                Ok(card)
            },
            Err(e) => Err(e),
        }
    }

    /// Deals the next card to the dealer.
    pub fn deal_to_dealer(&mut self) -> (r: Result<Card, GameError>)
        ensures
            r is Ok <==> old(self)@.draw.len() + old(self)@.discard.len() > 0,
            r matches Ok(card) ==> {
                &&& took(
                    old(self)@.draw,
                    old(self)@.discard,
                    seq![card],
                    final(self)@.draw,
                    final(self)@.discard,
                )
                &&& final(self)@.player_hand == old(self)@.player_hand
                &&& final(self)@.dealer_hand == old(self)@.dealer_hand.push(card)
                &&& final(self)@.cards() == old(self)@.cards()
            },
            r matches Err(e) ==> e == GameError::NoCardsAvailable && final(self)@ == old(self)@,
    {
        match draw_card(&mut self.draw, &mut self.discard) {
            Ok(card) => {
                self.dealer_hand.add(card);
                proof {
                    lemma_card_dealt(old(self)@, self@, card);
                }
                Ok(card)
            },
            Err(e) => Err(e),
        }
    }
}

/// Taking cards moves them out of the two piles and changes nothing else:
/// the cards taken and the cards left are the cards that were there.
pub proof fn lemma_took_conserves(
    draw0: Seq<Card>,
    discard0: Seq<Card>,
    taken: Seq<Card>,
    draw1: Seq<Card>,
    discard1: Seq<Card>,
)
    requires
        took(draw0, discard0, taken, draw1, discard1),
    ensures
        draw1.to_multiset().add(discard1.to_multiset()).add(taken.to_multiset())
            == draw0.to_multiset().add(discard0.to_multiset()),
        draw1.len() + discard1.len() + taken.len() == draw0.len() + discard0.len(),
{
    broadcast use {lemma_multiset_commutative, to_multiset_len, group_multiset_axioms};

    let n = draw0.len() as int;
    let k = taken.len() as int;
    if k <= n {
        let top = draw0.skip(n - k);
        assert(draw0 =~= draw1 + top);
        assert(taken =~= top.reverse());
        top.lemma_reverse_to_multiset();
    } else {
        assert(taken =~= taken.take(n) + taken.skip(n));
        assert(taken.take(n) =~= draw0.reverse());
        draw0.lemma_reverse_to_multiset();
    }
    assert(draw1.to_multiset().add(discard1.to_multiset()).add(taken.to_multiset()).len()
        == draw0.to_multiset().add(discard0.to_multiset()).len());
}

/// Taking one more card after some cards is taking all of them in a row.
pub proof fn lemma_took_one_more(
    draw0: Seq<Card>,
    discard0: Seq<Card>,
    taken: Seq<Card>,
    draw1: Seq<Card>,
    discard1: Seq<Card>,
    card: Card,
    draw2: Seq<Card>,
    discard2: Seq<Card>,
)
    requires
        took(draw0, discard0, taken, draw1, discard1),
        took(draw1, discard1, seq![card], draw2, discard2),
    ensures
        took(draw0, discard0, taken.push(card), draw2, discard2),
{
    broadcast use {
        lemma_multiset_commutative,
        to_multiset_len,
        to_multiset_build,
        group_multiset_axioms,
    };

    let n = draw0.len() as int;
    let k = taken.len() as int;
    let all = taken.push(card);
    assert(seq![card][0] == card);
    if k < n {
        assert(draw2 =~= draw0.take(n - k - 1));
    } else if k == n {
        assert(all.skip(n) =~= seq![card]);
        assert(seq![card].skip(0) =~= seq![card]);
    } else {
        assert(draw1.len() > 0) by {
            if draw1.len() == 0 {
                assert((draw2 + seq![card].skip(0)).to_multiset().len()
                    == discard1.to_multiset().len());
            }
        }
        assert(draw1 =~= draw2.push(card));
        assert(draw2 + all.skip(n) =~= (draw2 + taken.skip(n)).push(card));
        assert((draw2 + all.skip(n)).to_multiset() =~= (draw1 + taken.skip(n)).to_multiset());
    }
}

/// A complete table holds 52 cards.
pub proof fn lemma_complete_table_size(table: TableView)
    requires
        table.complete(),
    ensures
        table.draw.len() + table.player_hand.len() + table.dealer_hand.len()
            + table.discard.len() == 52,
{
    broadcast use {to_multiset_len, group_multiset_axioms};

    assert(table.cards().len() == full_deck().to_multiset().len());
}

/// A card that moves from the two piles into a hand stays on the table.
proof fn lemma_card_dealt(pre: TableView, post: TableView, card: Card)
    requires
        post.draw.to_multiset().add(post.discard.to_multiset()).insert(card)
            == pre.draw.to_multiset().add(pre.discard.to_multiset()),
        ({
            ||| post.player_hand == pre.player_hand.push(card) && post.dealer_hand
                == pre.dealer_hand
            ||| post.dealer_hand == pre.dealer_hand.push(card) && post.player_hand
                == pre.player_hand
        }),
    ensures
        post.cards() == pre.cards(),
{
    broadcast use {to_multiset_build, group_multiset_axioms};

    let in_hands = pre.player_hand.to_multiset().add(pre.dealer_hand.to_multiset());
    assert(post.cards() =~= post.draw.to_multiset().add(post.discard.to_multiset()).insert(
        card,
    ).add(in_hands));
}

} // verus!
