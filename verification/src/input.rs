//! The answers the engine accepts to its three questions.
//!
//! An answer is the text of a line without the surrounding white space.
//! Anything that is not accepted is `InvalidInput`, on which the caller
//! asks again.

use vstd::prelude::*;
use vstd::string::*;
use crate::error::GameError;
use crate::round::Choice;
use crate::rules::Difficulty;

verus! {

/// The level chosen by an answer: one of the digits 1 to 4.
pub open spec fn difficulty_named(answer: Seq<char>) -> Option<Difficulty> {
    if answer == seq!['1'] {
        Some(Difficulty::Novice)
    } else if answer == seq!['2'] {
        Some(Difficulty::Club)
    } else if answer == seq!['3'] {
        Some(Difficulty::Casino)
    } else if answer == seq!['4'] {
        Some(Difficulty::Clairvoyant)
    } else {
        None
    }
}

/// The move chosen by an answer: the letter h to hit or s to stand, in
/// either case.
pub open spec fn choice_named(answer: Seq<char>) -> Option<Choice> {
    if answer == seq!['h'] || answer == seq!['H'] {
        Some(Choice::Hit)
    } else if answer == seq!['s'] || answer == seq!['S'] {
        Some(Choice::Stand)
    } else {
        None
    }
}

/// Whether an answer asks for another round: the letter y for yes or n for no.
pub open spec fn replay_named(answer: Seq<char>) -> Option<bool> {
    if answer == seq!['y'] {
        Some(true)
    } else if answer == seq!['n'] {
        Some(false)
    } else {
        None
    }
}

/// Texts of one character each are equal only if the characters are.
proof fn lemma_one_char_texts_differ()
    ensures
        forall|a: char, b: char| #[trigger] seq![a] == #[trigger] seq![b] ==> a == b,
{
    assert forall|a: char, b: char| #[trigger] seq![a] == #[trigger] seq![b] implies a == b by {
        assert(seq![a][0] == a);
    }
}

/// The only character of an answer that has exactly one.
fn single_char(answer: &str) -> (r: Option<char>)
    ensures
        r matches Some(c) ==> answer@ == seq![c],
        r is None ==> forall|c: char| answer@ != #[trigger] seq![c],
{
    if answer.unicode_len() == 1 {
        let c = answer.get_char(0);
        Some(c)
    } else {
        None
    }
}

/// Reads the answer to the question of the level of play.
pub fn parse_difficulty(answer: &str) -> (r: Result<Difficulty, GameError>)
    ensures
        r == match difficulty_named(answer@) {
            Some(difficulty) => Ok::<Difficulty, GameError>(difficulty),
            None => Err(GameError::InvalidInput),
        },
{
    proof {
        lemma_one_char_texts_differ();
    }
    match single_char(answer) {
        Some('1') => Ok(Difficulty::Novice),
        Some('2') => Ok(Difficulty::Club),
        Some('3') => Ok(Difficulty::Casino),
        Some('4') => Ok(Difficulty::Clairvoyant),
        _ => Err(GameError::InvalidInput),
    }
}

/// Reads the answer to the question of hit or stand.
pub fn parse_choice(answer: &str) -> (r: Result<Choice, GameError>)
    ensures
        r == match choice_named(answer@) {
            Some(choice) => Ok::<Choice, GameError>(choice),
            None => Err(GameError::InvalidInput),
        },
{
    proof {
        lemma_one_char_texts_differ();
    }
    match single_char(answer) {
        Some('h') | Some('H') => Ok(Choice::Hit),
        Some('s') | Some('S') => Ok(Choice::Stand),
        _ => Err(GameError::InvalidInput),
    }
}

/// Reads the answer to the question of another round.
pub fn parse_replay(answer: &str) -> (r: Result<bool, GameError>)
    ensures
        r == match replay_named(answer@) {
            Some(again) => Ok::<bool, GameError>(again),
            None => Err(GameError::InvalidInput),
        },
{
    proof {
        lemma_one_char_texts_differ();
    }
    match single_char(answer) {
        Some('y') => Ok(true),
        Some('n') => Ok(false),
        _ => Err(GameError::InvalidInput),
    }
}

} // verus!
