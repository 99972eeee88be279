use blackjack::card::Card;
use blackjack::chance::roll_percent;
use blackjack::deck::Deck;
use blackjack::error::GameError;
use blackjack::round::{Choice, Phase, Round};
use blackjack::rules::{Outcome, Winner};
use blackjack::table::Table;

fn c(text: &str) -> Card {
    let split = text.len() - "♠".len();
    Card::from_text(&text[..split], &text[split..]).unwrap()
}

fn cards(texts: &[&str]) -> Vec<Card> {
    texts.iter().map(|t| c(t)).collect()
}

/// A complete table: the given hands and discard pile, and every other
/// card in the draw pile, with `next` on top so that it is drawn in order.
fn table(next: &[&str], player: &[&str], dealer: &[&str], discard: &[&str]) -> Table {
    let mut fresh = Deck::new();
    fresh.populate();
    let named: Vec<Card> = [next, player, dealer, discard]
        .concat()
        .iter()
        .map(|t| c(t))
        .collect();
    let mut draw = Deck::new();
    for card in fresh.stack {
        if !named.contains(&card) {
            draw.add(card);
        }
    }
    for text in next.iter().rev() {
        draw.add(c(text));
    }
    let table = Table {
        draw,
        player_hand: Deck { stack: cards(player) },
        dealer_hand: Deck { stack: cards(dealer) },
        discard: Deck { stack: cards(discard) },
    };
    assert!(table.is_complete());
    table
}

/// A round at the player's turn with the given hands.
fn at_player_turn(next: &[&str], player: &[&str], dealer: &[&str]) -> Round {
    let mut round = Round::new(table(next, player, dealer, &[]), 0, 18);
    round.phase = Phase::PlayerTurn;
    round
}

/// A round at the dealer's turn with the given hands, the player having stood.
fn at_dealer_turn(
    next: &[&str],
    player: &[&str],
    dealer: &[&str],
    cheat_percent: u64,
    card_limit: u64,
) -> Round {
    let mut round = Round::new(table(next, player, dealer, &[]), cheat_percent, card_limit);
    round.phase = Phase::DealerTurn;
    round.player_playing = false;
    round
}

#[test]
fn new_round_waits_for_the_deal() {
    let round = Round::new(Table::new(), 15, 18);
    assert_eq!(round.phase, Phase::Dealing);
    assert!(round.player_playing);
    assert!(round.dealer_playing);
    assert_eq!(round.cheat_percent, 15);
    assert_eq!(round.card_limit, 18);
    assert_eq!(round.outcome(), None);
    assert_eq!(round.table.draw.stack.len(), 52);
}

#[test]
fn first_deal_leaves_48_cards_and_two_in_each_hand() {
    for _ in 0..20 {
        let mut round = Round::new(Table::new(), 0, 19);
        let before = round.table.draw.stack.clone();
        assert_eq!(round.deal(), Ok(()));
        assert_eq!(round.table.draw.stack.len(), 48);
        assert_eq!(round.table.player_hand.stack.len(), 2);
        assert_eq!(round.table.dealer_hand.stack.len(), 2);
        assert!(round.table.discard.stack.is_empty());
        assert_eq!(round.table.draw.stack[..], before[..48]);
        assert_eq!(round.table.player_hand.stack, vec![before[51], before[49]]);
        assert_eq!(round.table.dealer_hand.stack, vec![before[50], before[48]]);
        assert!(round.table.is_complete());
    }
}

#[test]
fn deal_without_blackjack_gives_the_player_the_turn() {
    let mut round = Round::new(table(&["5♠", "7♥", "6♠", "K♥"], &[], &[], &[]), 0, 18);
    assert_eq!(round.deal(), Ok(()));
    assert_eq!(round.table.player_hand.stack, cards(&["5♠", "6♠"]));
    assert_eq!(round.table.dealer_hand.stack, cards(&["7♥", "K♥"]));
    assert_eq!(round.phase, Phase::PlayerTurn);
    assert!(round.player_playing);
    assert!(round.dealer_playing);
    assert_eq!(round.outcome(), None);
}

#[test]
fn dealer_blackjack_on_the_deal_ends_the_round() {
    let mut round = Round::new(table(&["5♠", "A♥", "6♠", "K♥"], &[], &[], &[]), 0, 18);
    assert_eq!(round.deal(), Ok(()));
    assert_eq!(round.table.dealer_hand.count_deck(11), 21);
    assert_eq!(round.phase, Phase::Terminal(Outcome::DealerBlackjack));
    assert_eq!(round.outcome(), Some(Outcome::DealerBlackjack));
    assert_eq!(Outcome::DealerBlackjack.winner(), Winner::Dealer);
    assert!(!round.player_playing);
    assert!(!round.dealer_playing);
    assert_eq!(round.table.player_hand.stack.len(), 2);
    assert_eq!(round.table.draw.stack.len(), 48);
}

#[test]
fn dealer_blackjack_with_aces_low_ends_the_round() {
    let mut round = Round::new(
        table(&["5♠", "A♥", "6♠", "A♦"], &[], &["10♣", "9♣"], &[]),
        0,
        18,
    );
    assert_eq!(round.deal(), Ok(()));
    assert_eq!(round.table.dealer_hand.count_deck(1), 21);
    assert_eq!(round.phase, Phase::Terminal(Outcome::DealerBlackjack));
}

#[test]
fn player_blackjack_on_the_deal_ends_the_round() {
    let mut round = Round::new(table(&["A♠", "7♥", "Q♠", "K♥"], &[], &[], &[]), 0, 18);
    assert_eq!(round.deal(), Ok(()));
    assert_eq!(round.phase, Phase::Terminal(Outcome::PlayerBlackjack));
    assert_eq!(Outcome::PlayerBlackjack.winner(), Winner::Player);
}

#[test]
fn player_blackjack_comes_before_dealer_blackjack() {
    let mut round = Round::new(table(&["A♠", "A♥", "Q♠", "K♥"], &[], &[], &[]), 0, 18);
    assert_eq!(round.deal(), Ok(()));
    assert_eq!(round.table.dealer_hand.count_deck(11), 21);
    assert_eq!(round.phase, Phase::Terminal(Outcome::PlayerBlackjack));
}

#[test]
fn deal_recycles_the_discard_pile_when_the_draw_pile_runs_out() {
    let mut fresh = Deck::new();
    fresh.populate();
    let mut table = Table {
        draw: Deck::new(),
        player_hand: Deck::new(),
        dealer_hand: Deck::new(),
        discard: Deck::new(),
    };
    for card in &fresh.stack[..50] {
        table.discard.add(*card);
    }
    table.draw.add(fresh.stack[50]);
    table.draw.add(fresh.stack[51]);
    let mut round = Round::new(table, 0, 18);
    assert_eq!(round.deal(), Ok(()));
    assert_eq!(round.table.player_hand.stack[0], fresh.stack[51]);
    assert_eq!(round.table.dealer_hand.stack[0], fresh.stack[50]);
    assert_eq!(round.table.player_hand.stack.len(), 2);
    assert_eq!(round.table.dealer_hand.stack.len(), 2);
    assert_eq!(round.table.draw.stack.len(), 48);
    assert!(round.table.discard.stack.is_empty());
    assert!(round.table.is_complete());
}

#[test]
fn deal_with_fewer_than_four_cards_fails_and_changes_nothing() {
    let mut fresh = Deck::new();
    fresh.populate();
    let mut table = Table {
        draw: Deck::new(),
        player_hand: Deck::new(),
        dealer_hand: Deck::new(),
        discard: Deck::new(),
    };
    for card in &fresh.stack[..49] {
        table.player_hand.add(*card);
    }
    table.draw.add(fresh.stack[49]);
    table.draw.add(fresh.stack[50]);
    table.discard.add(fresh.stack[51]);
    assert!(table.is_complete());
    let mut round = Round::new(table, 0, 18);
    assert_eq!(round.deal(), Err(GameError::NoCardsAvailable));
    assert_eq!(round.phase, Phase::Dealing);
    assert_eq!(round.table.draw.stack.len(), 2);
    assert_eq!(round.table.discard.stack.len(), 1);
    assert_eq!(round.table.player_hand.stack.len(), 49);
    assert!(round.table.dealer_hand.stack.is_empty());
}

#[test]
fn hit_that_takes_the_player_to_25_is_a_bust() {
    let mut round = at_player_turn(&["6♦"], &["10♠", "9♥"], &["7♣", "8♣"]);
    assert_eq!(round.player_turn(Choice::Hit), Ok(()));
    assert_eq!(round.table.player_hand.stack, cards(&["10♠", "9♥", "6♦"]));
    assert_eq!(round.table.player_hand.count_deck(1), 25);
    assert_eq!(round.phase, Phase::Terminal(Outcome::PlayerBust));
    assert_eq!(round.outcome(), Some(Outcome::PlayerBust));
    assert_eq!(Outcome::PlayerBust.winner(), Winner::Dealer);
    assert!(!round.player_playing);
    assert!(!round.dealer_playing);
}

#[test]
fn hit_from_the_deal_to_a_bust() {
    let mut round = Round::new(
        table(&["10♠", "7♣", "9♥", "8♣", "6♦"], &[], &[], &[]),
        0,
        18,
    );
    assert_eq!(round.deal(), Ok(()));
    assert_eq!(round.table.player_hand.stack, cards(&["10♠", "9♥"]));
    assert_eq!(round.phase, Phase::PlayerTurn);
    assert_eq!(round.player_turn(Choice::Hit), Ok(()));
    assert_eq!(round.table.player_hand.count_deck(1), 25);
    assert_eq!(round.outcome(), Some(Outcome::PlayerBust));
    assert_eq!(round.outcome().unwrap().winner(), Winner::Dealer);
}

#[test]
fn hit_to_22_with_aces_low_is_a_bust_and_22_with_an_ace_high_is_not() {
    let mut round = at_player_turn(&["2♦"], &["10♠", "K♥"], &["7♣", "8♣"]);
    assert_eq!(round.player_turn(Choice::Hit), Ok(()));
    assert_eq!(round.phase, Phase::Terminal(Outcome::PlayerBust));
    let mut round = at_player_turn(&["A♦"], &["5♠", "6♥"], &["7♣", "8♣"]);
    assert_eq!(round.player_turn(Choice::Hit), Ok(()));
    assert_eq!(round.table.player_hand.count_deck(11), 22);
    assert_eq!(round.phase, Phase::DealerTurn);
}

#[test]
fn hit_to_exactly_21_is_a_blackjack() {
    let mut round = at_player_turn(&["6♦"], &["10♠", "5♥"], &["7♣", "8♣"]);
    assert_eq!(round.player_turn(Choice::Hit), Ok(()));
    assert_eq!(round.phase, Phase::Terminal(Outcome::PlayerBlackjack));
    let mut round = at_player_turn(&["A♦"], &["4♠", "6♥"], &["7♣", "8♣"]);
    assert_eq!(round.player_turn(Choice::Hit), Ok(()));
    assert_eq!(round.table.player_hand.count_deck(1), 11);
    assert_eq!(round.phase, Phase::Terminal(Outcome::PlayerBlackjack));
}

#[test]
fn hit_below_21_hands_the_turn_to_the_dealer() {
    let mut round = at_player_turn(&["2♦"], &["10♠", "5♥"], &["7♣", "8♣"]);
    assert_eq!(round.player_turn(Choice::Hit), Ok(()));
    assert_eq!(round.phase, Phase::DealerTurn);
    assert!(round.player_playing);
    assert!(round.dealer_playing);
    assert_eq!(round.table.dealer_hand.stack, cards(&["7♣", "8♣"]));
    assert!(round.table.is_complete());
}

#[test]
fn hit_keeps_the_turn_when_the_dealer_has_stood() {
    let mut round = at_player_turn(&["2♦", "3♦"], &["10♠", "5♥"], &["10♣", "9♣"]);
    round.dealer_playing = false;
    assert_eq!(round.player_turn(Choice::Hit), Ok(()));
    assert_eq!(round.phase, Phase::PlayerTurn);
    assert_eq!(round.player_turn(Choice::Hit), Ok(()));
    assert_eq!(round.table.player_hand.count_deck(1), 20);
    assert_eq!(round.phase, Phase::PlayerTurn);
    assert_eq!(round.player_turn(Choice::Stand), Ok(()));
    assert_eq!(round.phase, Phase::Resolving);
    round.resolve();
    assert_eq!(round.outcome(), Some(Outcome::PlayerWin));
}

#[test]
fn stand_hands_the_turn_to_the_dealer_and_moves_no_card() {
    let mut round = at_player_turn(&["2♦"], &["10♠", "5♥"], &["7♣", "8♣"]);
    let draw = round.table.draw.stack.clone();
    assert_eq!(round.player_turn(Choice::Stand), Ok(()));
    assert_eq!(round.phase, Phase::DealerTurn);
    assert!(!round.player_playing);
    assert!(round.dealer_playing);
    assert_eq!(round.table.draw.stack, draw);
    assert_eq!(round.table.player_hand.stack, cards(&["10♠", "5♥"]));
}

#[test]
fn hit_without_cards_fails_and_changes_nothing() {
    let mut fresh = Deck::new();
    fresh.populate();
    let table = Table {
        draw: Deck::new(),
        player_hand: Deck { stack: fresh.stack[2..].to_vec() },
        dealer_hand: Deck { stack: fresh.stack[..2].to_vec() },
        discard: Deck::new(),
    };
    assert!(table.is_complete());
    let mut round = Round::new(table, 0, 18);
    round.phase = Phase::PlayerTurn;
    assert_eq!(round.player_turn(Choice::Hit), Err(GameError::NoCardsAvailable));
    assert_eq!(round.phase, Phase::PlayerTurn);
    assert_eq!(round.table.player_hand.stack.len(), 50);
    round.phase = Phase::DealerTurn;
    assert_eq!(round.dealer_turn_with(1), Err(GameError::NoCardsAvailable));
    round.cheat_percent = 100;
    assert_eq!(round.dealer_turn_with(99), Err(GameError::NoCardsAvailable));
    assert_eq!(round.dealer_turn(), Err(GameError::NoCardsAvailable));
    assert_eq!(round.phase, Phase::DealerTurn);
    assert!(round.dealer_playing);
    assert_eq!(round.table.dealer_hand.stack, cards(&["A♠", "2♠"]));
}

#[test]
fn honest_dealer_over_the_limit_stands_even_without_cards() {
    let mut fresh = Deck::new();
    fresh.populate();
    let table = Table {
        draw: Deck::new(),
        player_hand: Deck { stack: fresh.stack[..26].to_vec() },
        dealer_hand: Deck { stack: fresh.stack[26..].to_vec() },
        discard: Deck::new(),
    };
    assert!(table.is_complete());
    let mut round = Round::new(table, 15, 18);
    round.phase = Phase::DealerTurn;
    assert_eq!(round.dealer_turn_with(16), Ok(()));
    assert_eq!(round.phase, Phase::Terminal(Outcome::DealerBust));
}

#[test]
fn hit_recycles_the_discard_pile() {
    let mut fresh = Deck::new();
    fresh.populate();
    let hands = cards(&["2♠", "3♠", "4♠", "5♠"]);
    let table = Table {
        draw: Deck::new(),
        player_hand: Deck { stack: cards(&["2♠", "3♠"]) },
        dealer_hand: Deck { stack: cards(&["4♠", "5♠"]) },
        discard: Deck {
            stack: fresh.stack.iter().copied().filter(|card| !hands.contains(card)).collect(),
        },
    };
    assert!(table.is_complete());
    let mut round = Round::new(table, 0, 18);
    round.phase = Phase::PlayerTurn;
    assert_eq!(round.player_turn(Choice::Hit), Ok(()));
    assert_eq!(round.table.player_hand.stack.len(), 3);
    assert_eq!(round.table.draw.stack.len(), 47);
    assert!(round.table.discard.stack.is_empty());
    assert!(round.table.is_complete());
}

#[test]
fn tie_at_20_goes_to_the_dealer() {
    let mut round = at_player_turn(&["2♦"], &["K♠", "Q♥"], &["J♣", "10♣"]);
    assert_eq!(round.player_turn(Choice::Stand), Ok(()));
    assert_eq!(round.phase, Phase::DealerTurn);
    assert_eq!(round.dealer_turn_with(50), Ok(()));
    assert_eq!(round.phase, Phase::Resolving);
    assert!(!round.dealer_playing);
    round.resolve();
    assert_eq!(round.table.player_hand.score(), 20);
    assert_eq!(round.table.dealer_hand.score(), 20);
    assert_eq!(round.phase, Phase::Terminal(Outcome::DealerWin));
    assert_eq!(Outcome::DealerWin.winner(), Winner::Dealer);
}

#[test]
fn tie_between_a_soft_and_a_hard_20_goes_to_the_dealer() {
    let mut round = at_dealer_turn(&["2♦"], &["A♠", "9♥"], &["J♣", "10♣"], 0, 18);
    assert_eq!(round.dealer_turn_with(1), Ok(()));
    round.resolve();
    assert_eq!(round.outcome(), Some(Outcome::DealerWin));
    let mut round = at_dealer_turn(&["2♦"], &["J♣", "10♣"], &["A♠", "9♥", "K♥"], 0, 18);
    assert_eq!(round.dealer_turn_with(1), Ok(()));
    round.resolve();
    assert_eq!(round.table.dealer_hand.score(), 20);
    assert_eq!(round.outcome(), Some(Outcome::DealerWin));
}

#[test]
fn higher_score_wins() {
    let mut round = at_dealer_turn(&["2♦"], &["K♠", "Q♥"], &["J♣", "9♣"], 0, 18);
    assert_eq!(round.dealer_turn_with(1), Ok(()));
    assert_eq!(round.phase, Phase::Resolving);
    round.resolve();
    assert_eq!(round.outcome(), Some(Outcome::PlayerWin));
    assert_eq!(Outcome::PlayerWin.winner(), Winner::Player);
    let mut round = at_dealer_turn(&["2♦"], &["K♠", "8♥"], &["J♣", "9♣"], 0, 18);
    assert_eq!(round.dealer_turn_with(1), Ok(()));
    round.resolve();
    assert_eq!(round.outcome(), Some(Outcome::DealerWin));
}

#[test]
fn honest_dealer_hits_up_to_the_limit() {
    let mut round = at_dealer_turn(&["2♦"], &["K♠", "8♥"], &["J♣", "8♣"], 0, 18);
    assert_eq!(round.dealer_turn_with(1), Ok(()));
    assert_eq!(round.table.dealer_hand.stack, cards(&["J♣", "8♣", "2♦"]));
    assert_eq!(round.phase, Phase::DealerTurn);
    assert_eq!(round.dealer_turn_with(1), Ok(()));
    assert_eq!(round.table.dealer_hand.stack.len(), 3);
    assert_eq!(round.phase, Phase::Resolving);
    let mut round = at_dealer_turn(&["2♦"], &["K♠", "8♥"], &["J♣", "9♣"], 0, 19);
    assert_eq!(round.dealer_turn_with(1), Ok(()));
    assert_eq!(round.table.dealer_hand.stack, cards(&["J♣", "9♣", "2♦"]));
    assert_eq!(round.phase, Phase::Terminal(Outcome::DealerBlackjack));
}

#[test]
fn honest_dealer_goes_bust() {
    let mut round = at_dealer_turn(&["K♦"], &["K♠", "8♥"], &["J♣", "6♣"], 0, 18);
    assert_eq!(round.dealer_turn_with(99), Ok(()));
    assert_eq!(round.table.dealer_hand.count_deck(1), 26);
    assert_eq!(round.phase, Phase::Terminal(Outcome::DealerBust));
    assert_eq!(Outcome::DealerBust.winner(), Winner::Player);
    assert!(!round.dealer_playing);
}

#[test]
fn peeking_dealer_stands_on_a_card_that_would_bust() {
    let mut round = at_dealer_turn(&["K♦"], &["K♠", "8♥"], &["J♣", "6♣"], 100, 18);
    let draw = round.table.draw.stack.clone();
    assert_eq!(round.dealer_turn_with(99), Ok(()));
    assert_eq!(round.table.dealer_hand.stack, cards(&["J♣", "6♣"]));
    assert_eq!(round.table.draw.stack, draw);
    assert_eq!(round.table.draw.stack.last(), Some(&c("K♦")));
    assert!(!round.dealer_playing);
    assert_eq!(round.phase, Phase::Resolving);
    round.resolve();
    assert_eq!(round.outcome(), Some(Outcome::PlayerWin));
}

#[test]
fn peeking_dealer_takes_a_card_that_fits() {
    let mut round = at_dealer_turn(&["5♦", "K♦"], &["K♠", "8♥"], &["J♣", "6♣"], 100, 18);
    assert_eq!(round.dealer_turn_with(99), Ok(()));
    assert_eq!(round.table.dealer_hand.stack, cards(&["J♣", "6♣", "5♦"]));
    assert_eq!(round.phase, Phase::Terminal(Outcome::DealerBlackjack));
    let mut round = at_dealer_turn(&["4♦", "K♦"], &["K♠", "8♥"], &["J♣", "6♣"], 100, 18);
    assert_eq!(round.dealer_turn_with(1), Ok(()));
    assert_eq!(round.table.dealer_hand.count_deck(1), 20);
    assert_eq!(round.phase, Phase::DealerTurn);
    assert_eq!(round.dealer_turn_with(1), Ok(()));
    assert_eq!(round.table.dealer_hand.count_deck(1), 20);
    assert_eq!(round.phase, Phase::Resolving);
    round.resolve();
    assert_eq!(round.outcome(), Some(Outcome::DealerWin));
}

#[test]
fn roll_decides_whether_the_dealer_peeks() {
    let mut round = at_dealer_turn(&["K♦"], &["K♠", "8♥"], &["J♣", "6♣"], 15, 18);
    assert_eq!(round.dealer_turn_with(15), Ok(()));
    assert_eq!(round.phase, Phase::Resolving);
    let mut round = at_dealer_turn(&["K♦"], &["K♠", "8♥"], &["J♣", "6♣"], 15, 18);
    assert_eq!(round.dealer_turn_with(16), Ok(()));
    assert_eq!(round.phase, Phase::Terminal(Outcome::DealerBust));
}

#[test]
fn dealer_move_lets_the_player_go_on() {
    let mut round = at_dealer_turn(&["2♦"], &["K♠", "5♥"], &["J♣", "6♣"], 0, 18);
    round.player_playing = true;
    assert_eq!(round.dealer_turn_with(1), Ok(()));
    assert_eq!(round.phase, Phase::PlayerTurn);
    assert!(round.dealer_playing);
    let mut round = at_dealer_turn(&["2♦"], &["K♠", "5♥"], &["J♣", "9♣"], 0, 18);
    round.player_playing = true;
    assert_eq!(round.dealer_turn_with(1), Ok(()));
    assert_eq!(round.phase, Phase::PlayerTurn);
    assert!(!round.dealer_playing);
}

#[test]
fn dealer_turn_recycles_the_discard_pile_before_looking() {
    let mut fresh = Deck::new();
    fresh.populate();
    let hands = cards(&["K♠", "8♥", "J♣", "6♣"]);
    let table = Table {
        draw: Deck::new(),
        player_hand: Deck { stack: cards(&["K♠", "8♥"]) },
        dealer_hand: Deck { stack: cards(&["J♣", "6♣"]) },
        discard: Deck {
            stack: fresh.stack.iter().copied().filter(|card| !hands.contains(card)).collect(),
        },
    };
    assert!(table.is_complete());
    let mut round = Round::new(table, 100, 18);
    round.phase = Phase::DealerTurn;
    round.player_playing = false;
    assert_eq!(round.dealer_turn_with(1), Ok(()));
    assert!(round.table.discard.stack.is_empty());
    assert!(round.table.is_complete());
    assert!(round.table.dealer_hand.count_deck(1) <= 21);
    if round.table.dealer_hand.stack.len() == 2 {
        assert_eq!(round.table.draw.stack.len(), 48);
        assert!(round.table.draw.stack.last().unwrap().get_value() > 5);
        assert_eq!(round.phase, Phase::Resolving);
    } else {
        assert_eq!(round.table.draw.stack.len(), 47);
        assert!(round.table.dealer_hand.stack[2].get_value() <= 5);
    }
}

#[test]
fn dealer_turn_rolls_for_itself() {
    for _ in 0..200 {
        let mut round = at_dealer_turn(&["K♦"], &["K♠", "8♥"], &["J♣", "6♣"], 100, 18);
        assert_eq!(round.dealer_turn(), Ok(()));
        assert_eq!(round.phase, Phase::Resolving);
        let mut round = at_dealer_turn(&["K♦"], &["K♠", "8♥"], &["J♣", "6♣"], 0, 18);
        assert_eq!(round.dealer_turn(), Ok(()));
        assert_eq!(round.phase, Phase::Terminal(Outcome::DealerBust));
    }
    let mut peeked = 0;
    for _ in 0..400 {
        let mut round = at_dealer_turn(&["K♦"], &["K♠", "8♥"], &["J♣", "6♣"], 50, 18);
        assert_eq!(round.dealer_turn(), Ok(()));
        if round.phase == Phase::Resolving {
            peeked += 1;
        } else {
            assert_eq!(round.phase, Phase::Terminal(Outcome::DealerBust));
        }
    }
    assert!(peeked > 0 && peeked < 400);
}

#[test]
fn resolve_counts_one_ace_down_at_most() {
    let mut round = at_dealer_turn(&[], &["A♠", "A♥", "9♦"], &["K♣", "J♣"], 0, 18);
    round.phase = Phase::Resolving;
    round.dealer_playing = false;
    assert_eq!(round.table.player_hand.score(), 21);
    round.resolve();
    assert_eq!(round.outcome(), Some(Outcome::PlayerWin));
    let mut round = at_dealer_turn(&[], &["A♠", "A♥", "A♦", "8♦"], &["K♣", "J♣"], 0, 18);
    round.phase = Phase::Resolving;
    round.dealer_playing = false;
    assert_eq!(round.table.player_hand.score(), 31);
    round.resolve();
    assert_eq!(round.outcome(), Some(Outcome::PlayerWin));
}

#[test]
fn finish_clears_the_hands_onto_the_discard_pile() {
    let mut table = table(&["6♦"], &["10♠", "9♥"], &["7♣", "8♣"], &["2♥", "3♥"]);
    table.draw.stack.truncate(0);
    table.draw.add(c("6♦"));
    let mut round = Round::new(table, 0, 18);
    round.phase = Phase::PlayerTurn;
    assert_eq!(round.player_turn(Choice::Hit), Ok(()));
    let (table, outcome) = round.finish();
    assert_eq!(outcome, Outcome::PlayerBust);
    assert!(table.draw.stack.is_empty());
    assert!(table.player_hand.stack.is_empty());
    assert!(table.dealer_hand.stack.is_empty());
    assert_eq!(
        table.discard.stack,
        cards(&["2♥", "3♥", "6♦", "9♥", "10♠", "8♣", "7♣"])
    );
}

#[test]
fn games_keep_the_deck_whole() {
    let mut table = Table::new();
    let mut seen = [0usize; 6];
    for game in 0..300u64 {
        let level = game % 4;
        let (cheat_percent, card_limit) = [(0, 19), (15, 18), (50, 18), (100, 18)][level as usize];
        let mut round = Round::new(table, cheat_percent, card_limit);
        assert_eq!(round.deal(), Ok(()));
        assert_eq!(round.table.player_hand.stack.len(), 2);
        assert_eq!(round.table.dealer_hand.stack.len(), 2);
        let mut steps = 0;
        let outcome = loop {
            assert!(round.table.is_complete());
            steps += 1;
            assert!(steps < 60);
            match round.phase {
                Phase::Dealing => panic!("dealt twice"),
                Phase::PlayerTurn => {
                    assert!(round.player_playing);
                    let choice = if round.table.player_hand.count_deck(1) < 12 + roll_percent() % 8 {
                        Choice::Hit
                    } else {
                        Choice::Stand
                    };
                    assert_eq!(round.player_turn(choice), Ok(()));
                }
                Phase::DealerTurn => {
                    assert!(round.dealer_playing);
                    assert_eq!(round.dealer_turn(), Ok(()));
                }
                Phase::Resolving => {
                    assert!(!round.player_playing && !round.dealer_playing);
                    round.resolve();
                }
                Phase::Terminal(outcome) => break outcome,
            }
        };
        let player = round.table.player_hand.count_deck(1);
        let dealer = round.table.dealer_hand.count_deck(1);
        match outcome {
            Outcome::PlayerBust => assert!(player > 21),
            Outcome::DealerBust => assert!(dealer > 21 && player <= 21),
            Outcome::PlayerBlackjack => {
                assert!(player == 21 || round.table.player_hand.count_deck(11) == 21)
            }
            Outcome::DealerBlackjack => {
                assert!(dealer == 21 || round.table.dealer_hand.count_deck(11) == 21)
            }
            Outcome::PlayerWin => {
                assert!(round.table.player_hand.score() > round.table.dealer_hand.score())
            }
            Outcome::DealerWin => {
                assert!(round.table.dealer_hand.score() >= round.table.player_hand.score())
            }
        }
        if level == 3 {
            assert!(outcome != Outcome::DealerBust);
        }
        seen[outcome as usize] += 1;
        let (cleared, told) = round.finish();
        assert_eq!(told, outcome);
        assert!(cleared.is_complete());
        assert!(cleared.player_hand.stack.is_empty());
        assert!(cleared.dealer_hand.stack.is_empty());
        table = cleared;
    }
    assert_eq!(seen.iter().sum::<usize>(), 300);
}
