//! The messages of a game and the lines they are told in.
//!
//! The engine names what happened; the line that is shown for it depends
//! on the company the player keeps at the chosen level.

use vstd::prelude::*;
use crate::rules::{Difficulty, Outcome};

verus! {

/// What there is to tell: the start of a game, each way a round can end,
/// and the end of the game.
#[derive(Clone, Copy, PartialEq, Eq, Structural, Debug)]
pub enum Message {
    Intro,
    YouBust,
    TheyBust,
    YouBlackjack,
    TheyBlackjack,
    YouWin,
    TheyWin,
    Quit,
}

pub const INTRO_NOVICE: &'static str =
    "\"Oh, man, so I just hand out one--no, two cards to each of us, right? This is so cool, thanks for letting me play with you! I hope I win!\"";

pub const INTRO_CLUB: &'static str =
    "You'd sit down across from a redhead named Wilma, and she'd smile, starting to pass out the four cards. \"Good luck.\"";

pub const INTRO_CASINO: &'static str =
    "The dealer quietly and professionally hands out four cards each.";

pub const INTRO_CLAIRVOYANT: &'static str =
    "\"Welcome to Madam Lulu's fortune telling. This... card game idea intrigues me, if you are absolutely positive you wish someone who can see the future as an opponent, then let the whims of fate decide the winner.\"";

pub const YOU_BUST_NOVICE: &'static str =
    "You turn over your bust deck, and Lenny laughs. \"Haha! I won! Let's do it again, let's do it again!\"";

pub const YOU_BUST_CLUB: &'static str =
    "You turn over your bust deck, and Wilma shakes her head. \"Bad luck. Happens to the best of us.\"";

pub const YOU_BUST_CASINO: &'static str =
    "You turn over your bust deck, and the dealer shrugs. \"Happens.\"";

pub const YOU_BUST_CLAIRVOYANT: &'static str =
    "You turn over your bust deck, and Madam Lulu nods her head. \"As I foresaw.\"";

pub const THEY_BUST_NOVICE: &'static str =
    "Lenny looks disappointed as he shows you his bust deck. \"That's... over 21. Does that mean I win? I lose? Aww.\"";

pub const THEY_BUST_CLUB: &'static str =
    "Wilma turns over her bust deck. \"Darn. One more game?\"";

pub const THEY_BUST_CASINO: &'static str =
    "The dealer turns over his bust deck. \"I bust.\"";

pub const THEY_BUST_CLAIRVOYANT: &'static str =
    "Madam Lulu tilts her head, looking over her bust deck. \"This literally shouldn't be possible. This is a bug in this program, you'd better tell someone about it.\"";

pub const YOU_BLACKJACK_NOVICE: &'static str =
    "You flourish your blackjack, and Lenny looks confused. \"That means... you won? Darnit, one more time, I swear I'll win!\"";

pub const YOU_BLACKJACK_CLUB: &'static str =
    "You flourish your blackjack, and Wilma smiles. \"Good bit of luck there. One more?\"";

pub const YOU_BLACKJACK_CASINO: &'static str =
    "You flourish your blackjack, and the dealer just gives you a look and a sarcastic, \"Congratulations.\"";

pub const YOU_BLACKJACK_CLAIRVOYANT: &'static str =
    "You flourish your blackjack, and Madam Lulu nods her head approvingly, \"Seems the spirits were on your side this time.\"";

pub const THEY_BLACKJACK_NOVICE: &'static str =
    "Lenny shows you his blackjack. \"This is 21. That's the... goal, right? I won? Woo!\"";

pub const THEY_BLACKJACK_CLUB: &'static str =
    "Wilma turns over her blackjack. \"Blackjack. One more game?\"";

pub const THEY_BLACKJACK_CASINO: &'static str =
    "The dealer gives you a smug look as he reveals his blackjack. \"Bad luck.\"";

pub const THEY_BLACKJACK_CLAIRVOYANT: &'static str =
    "Madam Lulu shows you her blackjack, \"Fate meant this to happen.\"";

pub const YOU_WIN_NOVICE: &'static str =
    "Lenny doublechecks the count of the cards on his fingers. \"You got higher than me? Aww. One more time, I think I'm getting the hang of this!\"";

pub const YOU_WIN_CLUB: &'static str =
    "Wilma nods her head. \"Congratulations, you knew when to hold.\"";

pub const YOU_WIN_CASINO: &'static str =
    "The dealer counts the two sets of cards, nodding his head. \"You win.\"";

pub const YOU_WIN_CLAIRVOYANT: &'static str =
    "Madam Lulu smiles, looking over the two sets of cards. \"I predicted your win this time, you know. I just didn't say it.\"";

pub const THEY_WIN_NOVICE: &'static str =
    "Lenny is practically beaming. \"Mine's bigger than yours, mine's bigger than yours! One more time, I'm on a roll!\"";

pub const THEY_WIN_CLUB: &'static str =
    "Wilma smiles, looking over her larger cards. \"Can't win them all. Want to play again?\"";

pub const THEY_WIN_CASINO: &'static str =
    "The dealer counts the two sets of cards, smirking. \"I win.\"";

pub const THEY_WIN_CLAIRVOYANT: &'static str =
    "Madam Lulu counts the two sets of cards, nodding her head. \"My victory was fate.\"";

pub const QUIT_NOVICE: &'static str =
    "Lenny looks disappointed. \"Done for now? Okay, we can continue this tomorrow.\"";

pub const QUIT_CLUB: &'static str =
    "Wilma nods. \"Thanks for dropping by the club, I'll see you later.\"";

pub const QUIT_CASINO: &'static str =
    "The dealer merely gives you a nod and moves on to the next player.";

pub const QUIT_CLAIRVOYANT: &'static str =
    "\"This was... enlightening. Drop by anytime you wish to test fate.\"";

impl Message {
    /// The name a message goes by.
    pub open spec fn spec_tag(self) -> Seq<char> {
        match self {
            Message::Intro => "intro"@,
            Message::YouBust => "youbust"@,
            Message::TheyBust => "theybust"@,
            Message::YouBlackjack => "youblackjack"@,
            Message::TheyBlackjack => "theyblackjack"@,
            Message::YouWin => "youwin"@,
            Message::TheyWin => "theywin"@,
            Message::Quit => "quit"@,
        }
    }

    /// The line a message is told in at a level of play.
    pub open spec fn spec_line(self, difficulty: Difficulty) -> Seq<char> {
        match (self, difficulty) {
            (Message::Intro, Difficulty::Novice) => INTRO_NOVICE@,
            (Message::Intro, Difficulty::Club) => INTRO_CLUB@,
            (Message::Intro, Difficulty::Casino) => INTRO_CASINO@,
            (Message::Intro, Difficulty::Clairvoyant) => INTRO_CLAIRVOYANT@,
            (Message::YouBust, Difficulty::Novice) => YOU_BUST_NOVICE@,
            (Message::YouBust, Difficulty::Club) => YOU_BUST_CLUB@,
            (Message::YouBust, Difficulty::Casino) => YOU_BUST_CASINO@,
            (Message::YouBust, Difficulty::Clairvoyant) => YOU_BUST_CLAIRVOYANT@,
            (Message::TheyBust, Difficulty::Novice) => THEY_BUST_NOVICE@,
            (Message::TheyBust, Difficulty::Club) => THEY_BUST_CLUB@,
            (Message::TheyBust, Difficulty::Casino) => THEY_BUST_CASINO@,
            (Message::TheyBust, Difficulty::Clairvoyant) => THEY_BUST_CLAIRVOYANT@,
            (Message::YouBlackjack, Difficulty::Novice) => YOU_BLACKJACK_NOVICE@,
            (Message::YouBlackjack, Difficulty::Club) => YOU_BLACKJACK_CLUB@,
            (Message::YouBlackjack, Difficulty::Casino) => YOU_BLACKJACK_CASINO@,
            (Message::YouBlackjack, Difficulty::Clairvoyant) => YOU_BLACKJACK_CLAIRVOYANT@,
            (Message::TheyBlackjack, Difficulty::Novice) => THEY_BLACKJACK_NOVICE@,
            (Message::TheyBlackjack, Difficulty::Club) => THEY_BLACKJACK_CLUB@,
            (Message::TheyBlackjack, Difficulty::Casino) => THEY_BLACKJACK_CASINO@,
            (Message::TheyBlackjack, Difficulty::Clairvoyant) => THEY_BLACKJACK_CLAIRVOYANT@,
            (Message::YouWin, Difficulty::Novice) => YOU_WIN_NOVICE@,
            (Message::YouWin, Difficulty::Club) => YOU_WIN_CLUB@,
            (Message::YouWin, Difficulty::Casino) => YOU_WIN_CASINO@,
            (Message::YouWin, Difficulty::Clairvoyant) => YOU_WIN_CLAIRVOYANT@,
            (Message::TheyWin, Difficulty::Novice) => THEY_WIN_NOVICE@,
            (Message::TheyWin, Difficulty::Club) => THEY_WIN_CLUB@,
            (Message::TheyWin, Difficulty::Casino) => THEY_WIN_CASINO@,
            (Message::TheyWin, Difficulty::Clairvoyant) => THEY_WIN_CLAIRVOYANT@,
            (Message::Quit, Difficulty::Novice) => QUIT_NOVICE@,
            (Message::Quit, Difficulty::Club) => QUIT_CLUB@,
            (Message::Quit, Difficulty::Casino) => QUIT_CASINO@,
            (Message::Quit, Difficulty::Clairvoyant) => QUIT_CLAIRVOYANT@,
        }
    }

    /// The name a message goes by.
    pub fn tag(self) -> (name: &'static str)
        ensures
            name@ == self.spec_tag(),
    {
        match self {
            Message::Intro => "intro",
            Message::YouBust => "youbust",
            Message::TheyBust => "theybust",
            Message::YouBlackjack => "youblackjack",
            Message::TheyBlackjack => "theyblackjack",
            Message::YouWin => "youwin",
            Message::TheyWin => "theywin",
            Message::Quit => "quit",
        }
    }

    /// The line a message is told in at a level of play.
    pub fn line(self, difficulty: Difficulty) -> (text: &'static str)
        ensures
            text@ == self.spec_line(difficulty),
    {
        match (self, difficulty) {
            (Message::Intro, Difficulty::Novice) => INTRO_NOVICE,
            (Message::Intro, Difficulty::Club) => INTRO_CLUB,
            (Message::Intro, Difficulty::Casino) => INTRO_CASINO,
            (Message::Intro, Difficulty::Clairvoyant) => INTRO_CLAIRVOYANT,
            (Message::YouBust, Difficulty::Novice) => YOU_BUST_NOVICE,
            (Message::YouBust, Difficulty::Club) => YOU_BUST_CLUB,
            (Message::YouBust, Difficulty::Casino) => YOU_BUST_CASINO,
            (Message::YouBust, Difficulty::Clairvoyant) => YOU_BUST_CLAIRVOYANT,
            (Message::TheyBust, Difficulty::Novice) => THEY_BUST_NOVICE,
            (Message::TheyBust, Difficulty::Club) => THEY_BUST_CLUB,
            (Message::TheyBust, Difficulty::Casino) => THEY_BUST_CASINO,
            (Message::TheyBust, Difficulty::Clairvoyant) => THEY_BUST_CLAIRVOYANT,
            (Message::YouBlackjack, Difficulty::Novice) => YOU_BLACKJACK_NOVICE,
            (Message::YouBlackjack, Difficulty::Club) => YOU_BLACKJACK_CLUB,
            (Message::YouBlackjack, Difficulty::Casino) => YOU_BLACKJACK_CASINO,
            (Message::YouBlackjack, Difficulty::Clairvoyant) => YOU_BLACKJACK_CLAIRVOYANT,
            (Message::TheyBlackjack, Difficulty::Novice) => THEY_BLACKJACK_NOVICE,
            (Message::TheyBlackjack, Difficulty::Club) => THEY_BLACKJACK_CLUB,
            (Message::TheyBlackjack, Difficulty::Casino) => THEY_BLACKJACK_CASINO,
            (Message::TheyBlackjack, Difficulty::Clairvoyant) => THEY_BLACKJACK_CLAIRVOYANT,
            (Message::YouWin, Difficulty::Novice) => YOU_WIN_NOVICE,
            (Message::YouWin, Difficulty::Club) => YOU_WIN_CLUB,
            (Message::YouWin, Difficulty::Casino) => YOU_WIN_CASINO,
            (Message::YouWin, Difficulty::Clairvoyant) => YOU_WIN_CLAIRVOYANT,
            (Message::TheyWin, Difficulty::Novice) => THEY_WIN_NOVICE,
            (Message::TheyWin, Difficulty::Club) => THEY_WIN_CLUB,
            (Message::TheyWin, Difficulty::Casino) => THEY_WIN_CASINO,
            (Message::TheyWin, Difficulty::Clairvoyant) => THEY_WIN_CLAIRVOYANT,
            (Message::Quit, Difficulty::Novice) => QUIT_NOVICE,
            (Message::Quit, Difficulty::Club) => QUIT_CLUB,
            (Message::Quit, Difficulty::Casino) => QUIT_CASINO,
            (Message::Quit, Difficulty::Clairvoyant) => QUIT_CLAIRVOYANT,
        }
    }
}

impl Outcome {
    /// The message that tells of an outcome.
    pub open spec fn spec_message(self) -> Message {
        match self {
            Outcome::PlayerBlackjack => Message::YouBlackjack,
            Outcome::DealerBlackjack => Message::TheyBlackjack,
            Outcome::PlayerBust => Message::YouBust,
            Outcome::DealerBust => Message::TheyBust,
            Outcome::PlayerWin => Message::YouWin,
            Outcome::DealerWin => Message::TheyWin,
        }
    }

    /// The message that tells of an outcome.
    #[verifier::when_used_as_spec(spec_message)]
    pub fn message(self) -> (m: Message)
        ensures
            m == self.spec_message(),
    {
        match self {
            Outcome::PlayerBlackjack => Message::YouBlackjack,
            Outcome::DealerBlackjack => Message::TheyBlackjack,
            Outcome::PlayerBust => Message::YouBust,
            Outcome::DealerBust => Message::TheyBust,
            Outcome::PlayerWin => Message::YouWin,
            Outcome::DealerWin => Message::TheyWin,
        }
    }
}

} // verus!
