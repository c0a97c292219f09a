//! The mathematical model of a round and the rules that move it forward.

use vstd::prelude::*;
use crate::text::is_white_space;

verus! {

/// The difficulty a round falls back to when none was chosen.
pub const NORMAL: u32 = 6;

/// The placeholder that stands for a character not yet revealed.
pub const PLACEHOLDER: char = '_';

/// The difficulties a player may choose: hard, normal, easy and very easy.
pub open spec fn is_valid_difficulty(d: nat) -> bool {
    d == 4 || d == 6 || d == 8 || d == 10
}

/// The difficulty that governs a guess: the chosen one, or normal when unset.
pub open spec fn effective_difficulty(d: nat) -> nat {
    if d == 0 { NORMAL as nat } else { d }
}

/// How a character of the phrase is shown: whitespace and guessed characters as
/// themselves, every other character as the placeholder.
pub open spec fn shown(c: char, guessed: Seq<char>) -> char {
    if is_white_space(c) || guessed.contains(c) { c } else { PLACEHOLDER }
}

/// The obfuscated display: one character per position of the phrase.
pub open spec fn display_of(phrase: Seq<char>, guessed: Seq<char>) -> Seq<char> {
    Seq::new(phrase.len(), |i: int| shown(phrase[i], guessed))
}

/// Every character of the phrase that is not whitespace has been guessed.
pub open spec fn all_revealed(phrase: Seq<char>, guessed: Seq<char>) -> bool {
    forall|i: int| 0 <= i < phrase.len() && !is_white_space(#[trigger] phrase[i])
        ==> guessed.contains(phrase[i])
}

/// The phrase holds at least one character that is not whitespace.
pub open spec fn has_letters(phrase: Seq<char>) -> bool {
    exists|i: int| 0 <= i < phrase.len() && !is_white_space(#[trigger] phrase[i])
}

/// The guessed characters that do not occur in the phrase.
pub open spec fn misses(phrase: Seq<char>, guessed: Seq<char>) -> Seq<char> {
    guessed.filter(|c: char| !phrase.contains(c))
}

/// The state of a round as the player sees it.
pub ghost struct GameModel {
    pub phrase: Seq<char>,
    pub guessed: Seq<char>,
    pub incorrect: nat,
    pub difficulty: nat,
    pub game_over: bool,
    pub win: bool,
}

impl GameModel {
    /// The obfuscated display of this state.
    pub open spec fn display(self) -> Seq<char> {
        display_of(self.phrase, self.guessed)
    }

    /// A round on `phrase` that has seen no guess yet.
    pub open spec fn is_fresh(self) -> bool {
        &&& self.guessed.len() == 0
        &&& self.incorrect == 0
        &&& !self.game_over
        &&& !self.win
    }

    /// A guess of `c` on a round whose phrase and difficulty are set.
    pub open spec fn guess_step(self, c: char) -> GameModel {
        if self.game_over || self.guessed.contains(c) {
            self
        } else if self.phrase.contains(c) {
            let guessed = self.guessed.push(c);
            let won = all_revealed(self.phrase, guessed);
            GameModel { guessed, game_over: won, win: won, ..self }
        } else {
            let incorrect = self.incorrect + 1;
            GameModel {
                guessed: self.guessed.push(c),
                incorrect,
                game_over: incorrect >= self.difficulty,
                ..self
            }
        }
    }

    /// The state after guessing each of `letters` in turn.
    pub open spec fn play(self, letters: Seq<char>) -> GameModel
        decreases letters.len(),
    {
        if letters.len() == 0 {
            self
        } else {
            self.play(letters.drop_last()).guess_step(letters.last())
        }
    }
}

} // verus!
