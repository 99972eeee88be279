//! An ordered stack of cards: the fresh deck, hand totals, rendering and
//! shuffling.

use vstd::prelude::*;
use vstd::multiset::*;
use vstd::string::*;
use vstd::seq_lib::*;
use crate::card::{Card, Rank, Suit};
use crate::chance::flip_coins;
use crate::error::GameError;

verus! {

/// A stack of cards.  The last card of `stack` is the top of the stack.
pub struct Deck {
    pub stack: Vec<Card>,
}

impl View for Deck {
    type V = Seq<Card>;

    open spec fn view(&self) -> Seq<Card> {
        self.stack@
    }
}

/// The 52 cards of a fresh deck: the suits one after the other, each from
/// ace to king.
pub open spec fn full_deck() -> Seq<Card> {
    Seq::new(52, |i: int| Card { rank: Rank::at(i % 13), suit: Suit::at(i / 13) })
}

/// Sum of the cards' values, an ace counting as `ace_value`.
pub open spec fn hand_total(cards: Seq<Card>, ace_value: int) -> int
    decreases cards.len(),
{
    if cards.len() == 0 {
        0
    } else {
        hand_total(cards.drop_last(), ace_value) + cards.last().points(ace_value)
    }
}

/// A hand is worth no more than its size times the dearest card, and no
/// less than nothing.
pub proof fn lemma_hand_total_bounds(cards: Seq<Card>, ace_value: int)
    requires
        0 <= ace_value,
    ensures
        0 <= hand_total(cards, ace_value),
        ace_value <= 10 ==> hand_total(cards, ace_value) <= 10 * cards.len(),
        ace_value >= 10 ==> hand_total(cards, ace_value) <= ace_value * cards.len(),
    decreases cards.len(),
{
    if cards.len() > 0 {
        lemma_hand_total_bounds(cards.drop_last(), ace_value);
        assert(ace_value >= 10 ==> ace_value * cards.len() == ace_value * cards.drop_last().len()
            + ace_value) by (nonlinear_arith)
            requires
                cards.len() == cards.drop_last().len() + 1,
        ;
    }
}

/// The total of the first cards of a hand never exceeds that of the whole hand.
pub proof fn lemma_hand_total_prefix(cards: Seq<Card>, n: int, ace_value: int)
    requires
        0 <= ace_value,
        0 <= n <= cards.len(),
    ensures
        hand_total(cards.take(n), ace_value) <= hand_total(cards, ace_value),
    decreases cards.len(),
{
    if n == cards.len() {
        assert(cards.take(n) =~= cards);
    } else {
        lemma_hand_total_prefix(cards.drop_last(), n, ace_value);
        assert(cards.drop_last().take(n) =~= cards.take(n));
    }
}

/// A sequence without cards holds no card.
pub proof fn lemma_no_cards(cards: Seq<Card>)
    requires
        cards.len() == 0,
    ensures
        cards.to_multiset() =~= Multiset::empty(),
{
    to_multiset_len(cards);
}

/// How many cards of a stack are of the given suit.
pub open spec fn count_suit(cards: Seq<Card>, suit: Suit) -> nat
    decreases cards.len(),
{
    if cards.len() == 0 {
        0
    } else if cards.last().suit == suit {
        count_suit(cards.drop_last(), suit) + 1
    } else {
        count_suit(cards.drop_last(), suit)
    }
}

/// How many cards of a stack are of the given rank.
pub open spec fn count_rank(cards: Seq<Card>, rank: Rank) -> nat
    decreases cards.len(),
{
    if cards.len() == 0 {
        0
    } else if cards.last().rank == rank {
        count_rank(cards.drop_last(), rank) + 1
    } else {
        count_rank(cards.drop_last(), rank)
    }
}

/// The place of a card in a fresh deck.
pub open spec fn place_in_full_deck(card: Card) -> int {
    13 * card.suit.ordinal() + card.rank.ordinal()
}

/// Among the first `n` cards of a fresh deck, the cards of a suit are those
/// of its run of thirteen.
proof fn lemma_full_deck_suit_prefix(n: nat, suit: Suit)
    requires
        n <= 52,
    ensures
        count_suit(full_deck().take(n as int), suit) == if n <= 13 * suit.ordinal() {
            0
        } else if n <= 13 * suit.ordinal() + 13 {
            n - 13 * suit.ordinal()
        } else {
            13
        },
    decreases n,
{
    if n > 0 {
        lemma_full_deck_suit_prefix((n - 1) as nat, suit);
        assert(full_deck().take(n as int).drop_last() =~= full_deck().take(n - 1));
    }
}

/// Among the first `n` cards of a fresh deck, a rank occurs once in every
/// run of thirteen that has reached it.
proof fn lemma_full_deck_rank_prefix(n: nat, rank: Rank)
    requires
        n <= 52,
    ensures
        count_rank(full_deck().take(n as int), rank) == (n + 12 - rank.ordinal()) / 13,
    decreases n,
{
    if n > 0 {
        lemma_full_deck_rank_prefix((n - 1) as nat, rank);
        assert(full_deck().take(n as int).drop_last() =~= full_deck().take(n - 1));
    }
}

/// A fresh deck holds 52 cards: each combination of rank and suit exactly
/// once, hence thirteen cards of every suit and four of every rank.
pub proof fn lemma_full_deck_census()
    ensures
        full_deck().len() == 52,
        full_deck().no_duplicates(),
        forall|c: Card| #[trigger] full_deck().to_multiset().count(c) == 1,
        forall|suit: Suit| #[trigger] count_suit(full_deck(), suit) == 13,
        forall|rank: Rank| #[trigger] count_rank(full_deck(), rank) == 4,
{
    assert(full_deck().take(52) =~= full_deck());
    assert forall|suit: Suit| #[trigger] count_suit(full_deck(), suit) == 13 by {
        lemma_full_deck_suit_prefix(52, suit);
    }
    assert forall|rank: Rank| #[trigger] count_rank(full_deck(), rank) == 4 by {
        lemma_full_deck_rank_prefix(52, rank);
    }
    full_deck().lemma_multiset_has_no_duplicates();
    assert forall|c: Card| #[trigger] full_deck().to_multiset().count(c) == 1 by {
        assert(full_deck()[place_in_full_deck(c)] == c);
        to_multiset_contains(full_deck(), c);
    }
}

/// The text a stack is shown as: each card's rank and suit followed by one
/// space, in the order of the stack.
pub open spec fn rendering(cards: Seq<Card>) -> Seq<char>
    decreases cards.len(),
{
    if cards.len() == 0 {
        Seq::empty()
    } else {
        rendering(cards.drop_last()) + cards.last().symbol() + seq![' ']
    }
}

/// The placeholder shown for each of `n` cards that lie face down.
pub open spec fn face_down(n: nat) -> Seq<char>
    decreases n,
{
    if n == 0 {
        Seq::empty()
    } else {
        face_down((n - 1) as nat) + seq!['*', '*', ' ']
    }
}

/// The text a hand is shown as while only its first card lies face up.
pub open spec fn masked_rendering(cards: Seq<Card>) -> Seq<char> {
    cards[0].symbol() + seq![' '] + face_down((cards.len() - 1) as nat)
}

/// Whether the coin of card `i` came up heads.  A card without a coin counts as tails.
pub open spec fn heads_at(flips: Seq<bool>, i: int) -> bool {
    0 <= i < flips.len() && flips[i]
}

/// The cards whose coin fell on `side`, in the order in which the stack holds them.
pub open spec fn cut(cards: Seq<Card>, flips: Seq<bool>, side: bool) -> Seq<Card>
    decreases cards.len(),
{
    if cards.len() == 0 {
        Seq::empty()
    } else if heads_at(flips, cards.len() - 1) == side {
        cut(cards.drop_last(), flips, side).push(cards.last())
    } else {
        cut(cards.drop_last(), flips, side)
    }
}

/// One pass of the shuffle: the cards that drew heads, then those that drew tails.
pub open spec fn riffled(cards: Seq<Card>, flips: Seq<bool>) -> Seq<Card> {
    cut(cards, flips, true) + cut(cards, flips, false)
}

/// The stack after one pass for each row of coins, the first row first.
pub open spec fn riffled_by_all(cards: Seq<Card>, coins: Seq<Seq<bool>>) -> Seq<Card>
    decreases coins.len(),
{
    if coins.len() == 0 {
        cards
    } else {
        riffled(riffled_by_all(cards, coins.drop_last()), coins.last())
    }
}

/// A pass of the shuffle rearranges the cards and neither adds nor loses one.
pub proof fn lemma_riffled_permutes(cards: Seq<Card>, flips: Seq<bool>)
    ensures
        riffled(cards, flips).to_multiset() == cards.to_multiset(),
        riffled(cards, flips).len() == cards.len(),
    decreases cards.len(),
{
    broadcast use {to_multiset_build, lemma_multiset_commutative, to_multiset_len};

    if cards.len() == 0 {
        assert(riffled(cards, flips) =~= cards);
    } else {
        lemma_riffled_permutes(cards.drop_last(), flips);
        assert(cards =~= cards.drop_last().push(cards.last()));
    }
}

impl Deck {
    /// An empty stack.
    pub fn new() -> (deck: Deck)
        ensures
            deck@ == Seq::<Card>::empty(),
    {
        Deck { stack: Vec::new() }
    }

    /// Replaces the stack by the 52 cards of a fresh deck in their fixed order.
    pub fn populate(&mut self)
        ensures
            final(self)@ == full_deck(),
    {
        let ranks: [Rank; 13] = [
            Rank::Ace,
            Rank::Two,
            Rank::Three,
            Rank::Four,
            Rank::Five,
            Rank::Six,
            Rank::Seven,
            Rank::Eight,
            Rank::Nine,
            Rank::Ten,
            Rank::Jack,
            Rank::Queen,
            Rank::King,
        ];
        let suits: [Suit; 4] = [Suit::Spades, Suit::Hearts, Suit::Diamonds, Suit::Clubs];
        let mut stack: Vec<Card> = Vec::new();
        let mut i: usize = 0;
        while i < 4
            invariant
                i <= 4,
                stack@ == full_deck().take(13 * i),
                forall|k: int| 0 <= k < 13 ==> ranks[k] == Rank::at(k),
                forall|k: int| 0 <= k < 4 ==> suits[k] == Suit::at(k),
            decreases 4 - i,
        {
            let mut j: usize = 0;
            while j < 13
                invariant
                    i < 4,
                    j <= 13,
                    stack@ == full_deck().take(13 * i + j),
                    forall|k: int| 0 <= k < 13 ==> ranks[k] == Rank::at(k),
                    forall|k: int| 0 <= k < 4 ==> suits[k] == Suit::at(k),
                decreases 13 - j,
            {
                stack.push(Card::new(ranks[j], suits[i]));
                j += 1;
            }
            i += 1;
        }
        self.stack = stack;
    }

    /// Total of the stack, an ace counting as `ace_value`.
    pub fn count_deck(&self, ace_value: u64) -> (total: u64)
        requires
            hand_total(self@, ace_value as int) <= u64::MAX,
        ensures
            total == hand_total(self@, ace_value as int),
    {
        let mut total: u64 = 0;
        let mut i: usize = 0;
        while i < self.stack.len()
            invariant
                i <= self.stack.len(),
                total == hand_total(self@.take(i as int), ace_value as int),
                hand_total(self@, ace_value as int) <= u64::MAX,
            decreases self.stack.len() - i,
        {
            proof {
                lemma_hand_total_prefix(self@, i + 1, ace_value as int);
                assert(self@.take(i + 1).drop_last() =~= self@.take(i as int));
            }
            let card_value = self.stack[i].get_value();
            if card_value == 1 {
                total += ace_value;
            } else {
                total += card_value;
            }
            i += 1;
        }
        assert(self@.take(i as int) =~= self@);
        total
    }

    /// How often `card` lies in the stack.
    pub fn count_card(&self, card: Card) -> (n: usize)
        ensures
            n == self@.to_multiset().count(card),
    {
        let mut n: usize = 0;
        let mut i: usize = 0;
        proof {
            lemma_no_cards(self@.take(0));
        }
        while i < self.stack.len()
            invariant
                i <= self.stack.len(),
                n <= i,
                n == self@.take(i as int).to_multiset().count(card),
            decreases self.stack.len() - i,
        {
            proof {
                assert(self@.take(i + 1) =~= self@.take(i as int).push(self@[i as int]));
                to_multiset_build(self@.take(i as int), self@[i as int]);
            }
            if self.stack[i] == card {
                n += 1;
            }
            i += 1;
        }
        assert(self@.take(i as int) =~= self@);
        n
    }

    /// Moves every card onto `other`, from the top of this stack down.
    pub fn pour_into(&mut self, other: &mut Deck)
        ensures
            final(self)@.len() == 0,
            final(other)@ == old(other)@ + old(self)@.reverse(),
    {
        while self.stack.len() > 0
            invariant
                self@.len() <= old(self)@.len(),
                self@ == old(self)@.take(self@.len() as int),
                other@ == old(other)@ + old(self)@.skip(self@.len() as int).reverse(),
            decreases self@.len(),
        {
            match self.stack.pop() {
                Some(card) => {
                    other.stack.push(card);
                },
                None => {},
            }
        }
    }

    /// Takes the top card off the stack.
    pub fn draw(&mut self) -> (r: Result<Card, GameError>)
        ensures
            old(self)@.len() == 0 ==> r == Err::<Card, GameError>(GameError::EmptyDeck),
            old(self)@.len() == 0 ==> final(self)@ == old(self)@,
            old(self)@.len() > 0 ==> r == Ok::<Card, GameError>(old(self)@.last()),
            old(self)@.len() > 0 ==> final(self)@ == old(self)@.drop_last(),
    {
        match self.stack.pop() {
            Some(card) => Ok(card),
            None => Err(GameError::EmptyDeck),
        }
    }

    /// Puts a card on top of the stack.
    pub fn add(&mut self, card: Card)
        ensures
            final(self)@ == old(self)@.push(card),
    {
        self.stack.push(card);
    }

    /// The stack as text: every card followed by one space.
    pub fn print_deck(&self) -> (message: String)
        ensures
            message@ == rendering(self@),
    {
        let mut message = String::new();
        let mut i: usize = 0;
        while i < self.stack.len()
            invariant
                i <= self.stack.len(),
                message@ == rendering(self@.take(i as int)),
            decreases self.stack.len() - i,
        {
            proof {
                reveal_strlit(" ");
                assert(self@.take(i + 1).drop_last() =~= self@.take(i as int));
            }
            let card = self.stack[i];
            message.append(card.rank.text());
            message.append(card.suit.text());
            message.append(" ");
            i += 1;
        }
        assert(self@.take(i as int) =~= self@);
        message
    }

    /// The stack as text with only its first card showing: that card and
    /// one space, then a placeholder for every other card.
    pub fn print_masked(&self) -> (message: String)
        requires
            self@.len() > 0,
        ensures
            message@ == masked_rendering(self@),
    {
        let mut message = String::new();
        let card = self.stack[0];
        message.append(card.rank.text());
        message.append(card.suit.text());
        message.append(" ");
        proof {
            reveal_strlit(" ");
            reveal_strlit("** ");
        }
        let mut i: usize = 1;
        while i < self.stack.len()
            invariant
                1 <= i <= self.stack.len(),
                "** "@ == seq!['*', '*', ' '],
                message@ == self@[0].symbol() + seq![' '] + face_down((i - 1) as nat),
            decreases self.stack.len() - i,
        {
            message.append("** ");
            i += 1;
        }
        message
    }

    /// One pass of the shuffle over `stack`: the cards whose coin in `flips`
    /// shows heads keep their order and come first, the others keep theirs
    /// and follow.
    pub fn riffle(stack: &Vec<Card>, flips: &Vec<bool>) -> (mixed: Vec<Card>)
        ensures
            mixed@ == riffled(stack@, flips@),
    {
        let mut heads: Vec<Card> = Vec::new();
        let mut tails: Vec<Card> = Vec::new();
        let mut i: usize = 0;
        while i < stack.len()
            invariant
                i <= stack.len(),
                heads@ == cut(stack@.take(i as int), flips@, true),
                tails@ == cut(stack@.take(i as int), flips@, false),
            decreases stack.len() - i,
        {
            proof {
                assert(stack@.take(i + 1).drop_last() =~= stack@.take(i as int));
            }
            if i < flips.len() && flips[i] {
                heads.push(stack[i]);
            } else {
                tails.push(stack[i]);
            }
            i += 1;
        }
        assert(stack@.take(i as int) =~= stack@);
        heads.append(&mut tails);
        heads
    }

    /// Shuffles the stack: a hundred passes, each cutting the stack in two
    /// by a coin flip per card and putting the halves back together.  The
    /// result holds the cards that were there, in the order that the passes
    /// give for the coins that fell.
    pub fn shuffle(&mut self)
        ensures
            final(self)@.to_multiset() == old(self)@.to_multiset(),
            final(self)@.len() == old(self)@.len(),
            exists|coins: Seq<Seq<bool>>|
                coins.len() == 100 && final(self)@ == #[trigger] riffled_by_all(old(self)@, coins),
    {
        let ghost mut coins: Seq<Seq<bool>> = Seq::empty();
        let mut pass: u32 = 0;
        while pass < 100
            invariant
                pass <= 100,
                coins.len() == pass,
                self@ == riffled_by_all(old(self)@, coins),
                self@.to_multiset() == old(self)@.to_multiset(),
                self@.len() == old(self)@.len(),
            decreases 100 - pass,
        {
            let flips = flip_coins(self.stack.len());
            proof {
                lemma_riffled_permutes(self@, flips@);
                assert(coins.push(flips@).drop_last() =~= coins);
                coins = coins.push(flips@);
            }
            self.stack = Deck::riffle(&self.stack, &flips);
            pass += 1;
        }
    }
}

} // verus!
