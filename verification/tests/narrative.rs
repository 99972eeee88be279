use blackjack::narrative::Message;
use blackjack::rules::{Difficulty, Outcome};

const MESSAGES: [Message; 8] = [
    Message::Intro,
    Message::YouBust,
    Message::TheyBust,
    Message::YouBlackjack,
    Message::TheyBlackjack,
    Message::YouWin,
    Message::TheyWin,
    Message::Quit,
];

const LEVELS: [Difficulty; 4] = [
    Difficulty::Novice,
    Difficulty::Club,
    Difficulty::Casino,
    Difficulty::Clairvoyant,
];

#[test]
fn messages_go_by_their_names() {
    let names = [
        "intro",
        "youbust",
        "theybust",
        "youblackjack",
        "theyblackjack",
        "youwin",
        "theywin",
        "quit",
    ];
    for (message, name) in MESSAGES.iter().zip(names) {
        assert_eq!(message.tag(), name);
    }
}

#[test]
fn outcomes_are_told_by_their_messages() {
    assert_eq!(Outcome::PlayerBlackjack.message(), Message::YouBlackjack);
    assert_eq!(Outcome::DealerBlackjack.message(), Message::TheyBlackjack);
    assert_eq!(Outcome::PlayerBust.message(), Message::YouBust);
    assert_eq!(Outcome::DealerBust.message(), Message::TheyBust);
    assert_eq!(Outcome::PlayerWin.message(), Message::YouWin);
    assert_eq!(Outcome::DealerWin.message(), Message::TheyWin);
    assert_eq!(Outcome::PlayerBust.message().tag(), "youbust");
    assert_eq!(Outcome::DealerWin.message().tag(), "theywin");
}

#[test]
fn lines_differ_by_message_and_level() {
    let mut lines = Vec::new();
    for message in MESSAGES {
        for level in LEVELS {
            let line = message.line(level);
            assert!(!line.is_empty());
            assert!(!lines.contains(&line));
            lines.push(line);
        }
    }
    assert_eq!(lines.len(), 32);
}

#[test]
fn some_lines_word_for_word() {
    assert_eq!(
        Message::Intro.line(Difficulty::Casino),
        "The dealer quietly and professionally hands out four cards each."
    );
    assert_eq!(
        Message::TheyBust.line(Difficulty::Casino),
        "The dealer turns over his bust deck. \"I bust.\""
    );
    assert_eq!(
        Message::YouBust.line(Difficulty::Clairvoyant),
        "You turn over your bust deck, and Madam Lulu nods her head. \"As I foresaw.\""
    );
    assert_eq!(
        Message::TheyBlackjack.line(Difficulty::Club),
        "Wilma turns over her blackjack. \"Blackjack. One more game?\""
    );
    assert_eq!(
        Message::Quit.line(Difficulty::Novice),
        "Lenny looks disappointed. \"Done for now? Okay, we can continue this tomorrow.\""
    );
    assert_eq!(
        Message::YouWin.line(Difficulty::Casino),
        "The dealer counts the two sets of cards, nodding his head. \"You win.\""
    );
    assert_eq!(
        Message::TheyWin.line(Difficulty::Clairvoyant),
        "Madam Lulu counts the two sets of cards, nodding her head. \"My victory was fate.\""
    );
    assert_eq!(
        Message::YouBlackjack.line(Difficulty::Novice),
        "You flourish your blackjack, and Lenny looks confused. \"That means... you won? Darnit, one more time, I swear I'll win!\""
    );
}
