use blackjack::card::{Card, Rank, Suit};

const RANKS: [(Rank, &str, u64); 13] = [
    (Rank::Ace, "A", 1),
    (Rank::Two, "2", 2),
    (Rank::Three, "3", 3),
    (Rank::Four, "4", 4),
    (Rank::Five, "5", 5),
    (Rank::Six, "6", 6),
    (Rank::Seven, "7", 7),
    (Rank::Eight, "8", 8),
    (Rank::Nine, "9", 9),
    (Rank::Ten, "10", 10),
    (Rank::Jack, "J", 10),
    (Rank::Queen, "Q", 10),
    (Rank::King, "K", 10),
];

const SUITS: [(Suit, &str); 4] = [
    (Suit::Spades, "♠"),
    (Suit::Hearts, "♥"),
    (Suit::Diamonds, "♦"),
    (Suit::Clubs, "♣"),
];

#[test]
fn rank_values() {
    for (rank, _, value) in RANKS {
        assert_eq!(rank.get_value(), value);
        assert_eq!(Card::new(rank, Suit::Hearts).get_value(), value);
    }
}

#[test]
fn rank_and_suit_texts() {
    for (rank, text, _) in RANKS {
        assert_eq!(rank.text(), text);
        assert_eq!(Rank::from_text(text), Some(rank));
    }
    for (suit, text) in SUITS {
        assert_eq!(suit.text(), text);
        assert_eq!(Suit::from_text(text), Some(suit));
    }
}

#[test]
fn unknown_texts_name_no_card() {
    for text in ["", "1", "0", "11", "100", "a", "j", "B", "A ", " A", "♠", "10 "] {
        assert_eq!(Rank::from_text(text), None);
    }
    for text in ["", "S", "♠♠", "A", "♤", " ♠"] {
        assert_eq!(Suit::from_text(text), None);
    }
    assert_eq!(Card::from_text("A", "x"), None);
    assert_eq!(Card::from_text("x", "♠"), None);
    assert_eq!(Card::from_text("♠", "A"), None);
}

#[test]
fn card_from_text_names_every_card() {
    for (rank, rank_text, _) in RANKS {
        for (suit, suit_text) in SUITS {
            assert_eq!(Card::from_text(rank_text, suit_text), Some(Card { rank, suit }));
            assert_eq!(Card::new(rank, suit), Card { rank, suit });
        }
    }
}
