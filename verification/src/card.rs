//! Ranks, suits, cards and the value a card contributes to a hand.

use vstd::prelude::*;
use vstd::string::*;

verus! {

/// The thirteen ranks, in the order in which a fresh deck lists them.
#[derive(Clone, Copy, PartialEq, Eq, Structural, Debug)]
pub enum Rank {
    Ace,
    Two,
    Three,
    Four,
    Five,
    Six,
    Seven,
    Eight,
    Nine,
    Ten,
    Jack,
    Queen,
    King,
}

/// The four suits, in the order in which a fresh deck lists them.
#[derive(Clone, Copy, PartialEq, Eq, Structural, Debug)]
pub enum Suit {
    Spades,
    Hearts,
    Diamonds,
    Clubs,
}

/// One playing card.
#[derive(Clone, Copy, PartialEq, Eq, Structural, Debug)]
pub struct Card {
    pub rank: Rank,
    pub suit: Suit,
}

impl Rank {
    /// Position of the rank in a suit of a fresh deck: 0 for the ace, 12 for the king.
    pub open spec fn ordinal(self) -> int {
        match self {
            Rank::Ace => 0,
            Rank::Two => 1,
            Rank::Three => 2,
            Rank::Four => 3,
            Rank::Five => 4,
            Rank::Six => 5,
            Rank::Seven => 6,
            Rank::Eight => 7,
            Rank::Nine => 8,
            Rank::Ten => 9,
            Rank::Jack => 10,
            Rank::Queen => 11,
            Rank::King => 12,
        }
    }

    /// The rank at a position; positions outside `0..13` fall on the king.
    pub open spec fn at(i: int) -> Rank {
        if i == 0 {
            Rank::Ace
        } else if i == 1 {
            Rank::Two
        } else if i == 2 {
            Rank::Three
        } else if i == 3 {
            Rank::Four
        } else if i == 4 {
            Rank::Five
        } else if i == 5 {
            Rank::Six
        } else if i == 6 {
            Rank::Seven
        } else if i == 7 {
            Rank::Eight
        } else if i == 8 {
            Rank::Nine
        } else if i == 9 {
            Rank::Ten
        } else if i == 10 {
            Rank::Jack
        } else if i == 11 {
            Rank::Queen
        } else {
            Rank::King
        }
    }

    /// Value of the rank with the ace counted low: 1 for the ace, the pip
    /// count for two to ten, and 10 for jack, queen and king.
    pub open spec fn value(self) -> int {
        if self.ordinal() < 10 {
            self.ordinal() + 1
        } else {
            10
        }
    }

    /// The text a rank is shown as.
    pub open spec fn symbol(self) -> Seq<char> {
        match self {
            Rank::Ace => seq!['A'],
            Rank::Two => seq!['2'],
            Rank::Three => seq!['3'],
            Rank::Four => seq!['4'],
            Rank::Five => seq!['5'],
            Rank::Six => seq!['6'],
            Rank::Seven => seq!['7'],
            Rank::Eight => seq!['8'],
            Rank::Nine => seq!['9'],
            Rank::Ten => seq!['1', '0'],
            Rank::Jack => seq!['J'],
            Rank::Queen => seq!['Q'],
            Rank::King => seq!['K'],
        }
    }

    /// Value of the rank with the ace counted low.
    pub fn get_value(&self) -> (v: u64)
        ensures
            v == self.value(),
            1 <= v <= 10,
    {
        match self {
            Rank::Ace => 1,
            Rank::Two => 2,
            Rank::Three => 3,
            Rank::Four => 4,
            Rank::Five => 5,
            Rank::Six => 6,
            Rank::Seven => 7,
            Rank::Eight => 8,
            Rank::Nine => 9,
            Rank::Ten => 10,
            Rank::Jack => 10,
            Rank::Queen => 10,
            Rank::King => 10,
        }
    }

    /// The rank that is shown as `text`, if there is one.
    pub fn from_text(text: &str) -> (r: Option<Rank>)
        ensures
            r matches Some(rank) ==> rank.symbol() == text@,
            r is None ==> forall|rank: Rank| #[trigger] rank.symbol() != text@,
    {
        let n = text.unicode_len();
        if n == 1 {
            match text.get_char(0) {
                'A' => Some(Rank::Ace),
                '2' => Some(Rank::Two),
                '3' => Some(Rank::Three),
                '4' => Some(Rank::Four),
                '5' => Some(Rank::Five),
                '6' => Some(Rank::Six),
                '7' => Some(Rank::Seven),
                '8' => Some(Rank::Eight),
                '9' => Some(Rank::Nine),
                'J' => Some(Rank::Jack),
                'Q' => Some(Rank::Queen),
                'K' => Some(Rank::King),
                _ => None,
            }
        } else if n == 2 && text.get_char(0) == '1' && text.get_char(1) == '0' {
            Some(Rank::Ten)
        } else {
            None
        }
    }

    /// The text a rank is shown as.
    pub fn text(&self) -> (s: &'static str)
        ensures
            s@ == self.symbol(),
    {
        proof {
            reveal_strlit("A");
            reveal_strlit("2");
            reveal_strlit("3");
            reveal_strlit("4");
            reveal_strlit("5");
            reveal_strlit("6");
            reveal_strlit("7");
            reveal_strlit("8");
            reveal_strlit("9");
            reveal_strlit("10");
            reveal_strlit("J");
            reveal_strlit("Q");
            reveal_strlit("K");
        }
        match self {
            Rank::Ace => "A",
            Rank::Two => "2",
            Rank::Three => "3",
            Rank::Four => "4",
            Rank::Five => "5",
            Rank::Six => "6",
            Rank::Seven => "7",
            Rank::Eight => "8",
            Rank::Nine => "9",
            Rank::Ten => "10",
            Rank::Jack => "J",
            Rank::Queen => "Q",
            Rank::King => "K",
        }
    }
}

impl Suit {
    /// Position of the suit in a fresh deck: 0 for spades, 3 for clubs.
    pub open spec fn ordinal(self) -> int {
        match self {
            Suit::Spades => 0,
            Suit::Hearts => 1,
            Suit::Diamonds => 2,
            Suit::Clubs => 3,
        }
    }

    /// The suit at a position; positions outside `0..4` fall on clubs.
    pub open spec fn at(i: int) -> Suit {
        if i == 0 {
            Suit::Spades
        } else if i == 1 {
            Suit::Hearts
        } else if i == 2 {
            Suit::Diamonds
        } else {
            Suit::Clubs
        }
    }

    /// The sign a suit is shown as.
    pub open spec fn symbol(self) -> Seq<char> {
        match self {
            Suit::Spades => seq!['♠'],
            Suit::Hearts => seq!['♥'],
            Suit::Diamonds => seq!['♦'],
            Suit::Clubs => seq!['♣'],
        }
    }

    /// The suit that is shown as `text`, if there is one.
    pub fn from_text(text: &str) -> (r: Option<Suit>)
        ensures
            r matches Some(suit) ==> suit.symbol() == text@,
            r is None ==> forall|suit: Suit| #[trigger] suit.symbol() != text@,
    {
        if text.unicode_len() == 1 {
            match text.get_char(0) {
                '♠' => Some(Suit::Spades),
                '♥' => Some(Suit::Hearts),
                '♦' => Some(Suit::Diamonds),
                '♣' => Some(Suit::Clubs),
                _ => None,
            }
        } else {
            None
        }
    }

    /// The sign a suit is shown as.
    pub fn text(&self) -> (s: &'static str)
        ensures
            s@ == self.symbol(),
    {
        proof {
            reveal_strlit("♠");
            reveal_strlit("♥");
            reveal_strlit("♦");
            reveal_strlit("♣");
        }
        match self {
            Suit::Spades => "♠",
            Suit::Hearts => "♥",
            Suit::Diamonds => "♦",
            Suit::Clubs => "♣",
        }
    }
}

impl Card {
    /// What the card adds to a hand when an ace counts as `ace_value`.
    pub open spec fn points(self, ace_value: int) -> int {
        if self.rank.value() == 1 {
            ace_value
        } else {
            self.rank.value()
        }
    }

    /// The text a card is shown as: rank, then suit.
    pub open spec fn symbol(self) -> Seq<char> {
        self.rank.symbol() + self.suit.symbol()
    }

    /// The card of the given rank and suit.
    pub fn new(rank: Rank, suit: Suit) -> (card: Card)
        ensures
            card == (Card { rank, suit }),
    {
        Card { rank, suit }
    }

    /// The card whose rank is shown as `rank` and whose suit is shown as
    /// `suit`, if both name one.
    pub fn from_text(rank: &str, suit: &str) -> (r: Option<Card>)
        ensures
            r matches Some(card) ==> card.rank.symbol() == rank@ && card.suit.symbol() == suit@,
            r is None ==> forall|card: Card|
                #![trigger card.rank.symbol(), card.suit.symbol()]
                card.rank.symbol() != rank@ || card.suit.symbol() != suit@,
    {
        match (Rank::from_text(rank), Suit::from_text(suit)) {
            (Some(rank), Some(suit)) => Some(Card { rank, suit }),
            _ => None,
        }
    }

    /// Value of the card with the ace counted low.
    pub fn get_value(&self) -> (v: u64)
        ensures
            v == self.rank.value(),
            1 <= v <= 10,
    {
        self.rank.get_value()
    }
}

} // verus!
