//! The executable game state and its operations.

use vstd::prelude::*;
use crate::model::{
    GameModel, NORMAL, PLACEHOLDER, all_revealed, display_of, effective_difficulty,
    is_valid_difficulty,
};
use crate::text::{chars_of, contains_char, is_whitespace, push_char, to_upper, upper_of};
use crate::words::{
    candidates, lemma_candidate_length, lines_of, random_index, split_lines, words_of_length,
};

verus! {

/// Why an operation on a round could not be carried out.
#[derive(Clone, Copy, Debug, PartialEq, Eq, Structural)]
pub enum GameError {
    /// The word source holds no word of the requested length.
    NotFound,
    /// The round is over and takes no more guesses.
    RoundClosed,
}

/// Where a round stands.
#[derive(Clone, Copy, Debug, PartialEq, Eq, Structural)]
pub enum Outcome {
    InProgress,
    Won,
    Lost,
}

/// The state of one round of the guessing game.
pub struct HangmanGameState {
    /// The phrase to guess, in upper case.
    phrase_to_guess: String,
    /// The phrase with every hidden character replaced by the placeholder.
    obfuscated_phrase: String,
    /// The characters of the phrase, in order.
    chars_to_guess: Vec<char>,
    /// The distinct letters guessed so far, in the order they came.
    guessed_letters: Vec<char>,
    /// The number of guessed letters that do not occur in the phrase.
    incorrect_guess_count: u32,
    /// The number of incorrect guesses that ends the round; 0 while unset.
    difficulty: u32,
    /// Whether the round is decided.
    game_over: bool,
    /// Whether the round was won.
    win: bool,
}

impl View for HangmanGameState {
    type V = GameModel;

    closed spec fn view(&self) -> GameModel {
        GameModel {
            phrase: self.chars_to_guess@,
            guessed: self.guessed_letters@,
            incorrect: self.incorrect_guess_count as nat,
            difficulty: self.difficulty as nat,
            game_over: self.game_over,
            win: self.win,
        }
    }
}

impl HangmanGameState {
    /// The rules that every state of a round keeps, the display aside.
    pub closed spec fn rules_hold(&self) -> bool {
        let m = self@;
        &&& self.chars_to_guess@ == self.phrase_to_guess@
        &&& m.difficulty == 0 || is_valid_difficulty(m.difficulty)
        &&& m.difficulty == 0 ==> m.guessed.len() == 0
        &&& m.guessed.len() == 0 ==> m.is_fresh()
        &&& m.guessed.len() > 0 ==> m.phrase.len() > 0
        &&& m.incorrect <= m.difficulty
        &&& !m.game_over && m.difficulty > 0 ==> m.incorrect < m.difficulty
        &&& m.win ==> m.game_over
    }

    /// The stored display matches the phrase and the guesses.
    pub closed spec fn display_current(&self) -> bool {
        self.obfuscated_phrase@ == self@.display()
    }

    pub open spec fn wf(&self) -> bool {
        self.rules_hold() && self.display_current()
    }

    /// A round on `phrase_to_guess`, in upper case, with no guess and no difficulty.
    pub fn new(phrase_to_guess: String) -> (r: Self)
        ensures
            r.wf(),
            r@ == (GameModel {
                phrase: upper_of(phrase_to_guess@),
                guessed: Seq::empty(),
                incorrect: 0,
                difficulty: 0,
                game_over: false,
                win: false,
            }),
    {
        let phrase = to_upper(phrase_to_guess.as_str());
        let chars = chars_of(phrase.as_str());
        let mut r = HangmanGameState {
            phrase_to_guess: phrase,
            obfuscated_phrase: String::new(),
            chars_to_guess: chars,
            guessed_letters: Vec::new(),
            incorrect_guess_count: 0,
            difficulty: 0,
            game_over: false,
            win: false,
        };
        r.obfuscate_phrase();
        r
    }

    /// Recomputes the obfuscated display from the phrase and the guesses.
    pub fn obfuscate_phrase(&mut self)
        requires
            old(self).rules_hold(),
        ensures
            final(self).wf(),
            final(self)@ == old(self)@,
    {
        let mut out = String::new();
        let n = self.chars_to_guess.len();
        for i in 0..n
            invariant
                n == self.chars_to_guess.len(),
                out@ == display_of(self.chars_to_guess@, self.guessed_letters@).take(i as int),
        {
            let c = self.chars_to_guess[i];
            let ghost before = out@;
            if is_whitespace(c) || contains_char(&self.guessed_letters, c) {
                push_char(&mut out, c);
            } else {
                push_char(&mut out, PLACEHOLDER);
            }
            proof {
                assert(out@ =~= display_of(self.chars_to_guess@, self.guessed_letters@).take(
                    i + 1,
                ));
            }
        }
        proof {
            assert(out@ =~= display_of(self.chars_to_guess@, self.guessed_letters@));
        }
        self.obfuscated_phrase = out;
    }

    /// A word drawn at random from the lines of `word_list` that are exactly
    /// `length` characters long, or `NotFound` when there is none.
    pub fn random_word_from_file(&mut self, word_list: &str, length: u32) -> (r: Result<
        String,
        GameError,
    >)
        ensures
            *final(self) == *old(self),
            r is Ok <==> candidates(lines_of(word_list@), length as nat).len() > 0,
            match r {
                Ok(w) => candidates(lines_of(word_list@), length as nat).contains(w@) && w@.len()
                    == length,
                Err(e) => e == GameError::NotFound,
            },
    {
        let lines = split_lines(word_list);
        let words = words_of_length(&lines, length);
        if words.len() == 0 {
            return Err(GameError::NotFound);
        }
        let i = random_index(words.len());
        let w = words[i].clone();
        proof {
            assert(crate::words::views_of(words@)[i as int] == w@);
            lemma_candidate_length(lines_of(word_list@), length as nat, w@);
        }
        Ok(w)
    }

    /// Sets the phrase to `phrase`, in upper case, before the first guess.
    fn set_phrase(&mut self, phrase: &str)
        requires
            old(self).wf(),
            old(self)@.guessed.len() == 0,
        ensures
            final(self).wf(),
            final(self)@ == (GameModel { phrase: upper_of(phrase@), ..old(self)@ }),
            final(self)@.phrase.len() >= phrase@.len(),
    {
        let upper = to_upper(phrase);
        self.chars_to_guess = chars_of(upper.as_str());
        self.phrase_to_guess = upper;
        self.obfuscate_phrase();
    }

    /// Draws the phrase at random from the words of `word_list` that are `length`
    /// characters long; before the first guess only.
    pub fn random_phrase_to_guess(&mut self, word_list: &str, length: u32) -> (r: Result<
        (),
        GameError,
    >)
        requires
            old(self).wf(),
            old(self)@.guessed.len() == 0,
        ensures
            final(self).wf(),
            r is Ok <==> candidates(lines_of(word_list@), length as nat).len() > 0,
            match r {
                Ok(_) => exists|w: Seq<char>|
                    candidates(lines_of(word_list@), length as nat).contains(w)
                        && final(self)@ == (GameModel { phrase: upper_of(w), ..old(self)@ }),
                Err(e) => e == GameError::NotFound && final(self)@ == old(self)@,
            },
            r is Ok ==> final(self)@.phrase.len() >= length,
    {
        let word = self.random_word_from_file(word_list, length)?;
        proof {
            lemma_candidate_length(lines_of(word_list@), length as nat, word@);
        }
        self.set_phrase(word.as_str());
        Ok(())
    }

    /// Replaces the phrase with `phrase`, in upper case; before the first guess only.
    pub fn update_guess_phrase(&mut self, phrase: String)
        requires
            old(self).wf(),
            old(self)@.guessed.len() == 0,
        ensures
            final(self).wf(),
            final(self)@ == (GameModel { phrase: upper_of(phrase@), ..old(self)@ }),
    {
        self.set_phrase(phrase.as_str());
    }

    /// Whether every character of the phrase that is not whitespace has been guessed.
    fn reveals_all(&self) -> (r: bool)
        ensures
            r == all_revealed(self@.phrase, self@.guessed),
    {
        let n = self.chars_to_guess.len();
        for i in 0..n
            invariant
                n == self.chars_to_guess.len(),
                forall|j: int|
                    0 <= j < i && !crate::text::is_white_space(#[trigger] self@.phrase[j])
                        ==> self@.guessed.contains(self@.phrase[j]),
        {
            let c = self.chars_to_guess[i];
            if !is_whitespace(c) && !contains_char(&self.guessed_letters, c) {
                return false;
            }
        }
        true
    }

    /// Chooses the difficulty before the first guess. It is taken, and `true`
    /// returned, when it is one of 4, 6, 8 and 10 and no guess has been made;
    /// otherwise nothing changes.
    pub fn set_difficulty(&mut self, difficulty: u32) -> (r: bool)
        requires
            old(self).wf(),
        ensures
            final(self).wf(),
            r == (is_valid_difficulty(difficulty as nat) && old(self)@.guessed.len() == 0),
            r ==> final(self)@ == (GameModel { difficulty: difficulty as nat, ..old(self)@ }),
            !r ==> final(self)@ == old(self)@,
    {
        if (difficulty == 4 || difficulty == 6 || difficulty == 8 || difficulty == 10)
            && self.guessed_letters.len() == 0 {
            self.difficulty = difficulty;
            true
        } else {
            false
        }
    }

    /// Guesses the letter `guess`.
    ///
    /// A round that is over refuses it with `RoundClosed`. Otherwise an unset
    /// difficulty becomes normal, and a round without a phrase draws one from
    /// `word_list` whose length is the difficulty (`NotFound` when there is
    /// none). A letter guessed before changes nothing more. A new letter is
    /// recorded; if it occurs in the phrase and every character of the phrase
    /// that is not whitespace is now guessed, the round is won; if it does not
    /// occur, it counts as incorrect, and the round is lost once the count
    /// reaches the difficulty.
    pub fn guess_letter(&mut self, word_list: &str, guess: char) -> (r: Result<(), GameError>)
        requires
            old(self).wf(),
        ensures
            final(self).wf(),
            old(self)@.game_over ==> r == Err::<(), GameError>(GameError::RoundClosed)
                && final(self)@ == old(self)@,
            ({
                let prepared = GameModel {
                    difficulty: effective_difficulty(old(self)@.difficulty),
                    ..old(self)@
                };
                let found = candidates(
                    lines_of(word_list@),
                    implied_word_length_of(prepared.difficulty),
                );
                !old(self)@.game_over ==> if old(self)@.phrase.len() > 0 {
                    r is Ok && final(self)@ == prepared.guess_step(guess)
                } else if found.len() == 0 {
                    r == Err::<(), GameError>(GameError::NotFound) && final(self)@ == prepared
                } else {
                    r is Ok && exists|w: Seq<char>|
                        found.contains(w) && final(self)@ == (GameModel {
                            phrase: upper_of(w),
                            ..prepared
                        }).guess_step(guess)
                }
            }),
    {
        if self.game_over {
            return Err(GameError::RoundClosed);
        }
        if self.difficulty == 0 {
            self.difficulty = NORMAL;
        }
        if self.chars_to_guess.len() == 0 {
            let length = implied_word_length(self.difficulty);
            self.random_phrase_to_guess(word_list, length)?;
        }
        let ghost mid = self@;
        if contains_char(&self.guessed_letters, guess) {
            return Ok(());
        }
        self.guessed_letters.push(guess);
        self.obfuscate_phrase();
        if contains_char(&self.chars_to_guess, guess) {
            if self.reveals_all() {
                self.win = true;
                self.game_over = true;
            }
        } else {
            self.incorrect_guess_count = self.incorrect_guess_count + 1;
            if self.incorrect_guess_count >= self.difficulty {
                self.game_over = true;
            }
        }
        assert(self@ == mid.guess_step(guess));
        Ok(())
    }

    /// The phrase to guess.
    pub fn phrase_to_guess(&self) -> (r: &str)
        requires
            self.wf(),
        ensures
            r@ == self@.phrase,
    {
        self.phrase_to_guess.as_str()
    }

    /// The obfuscated display of the phrase.
    pub fn obfuscated_phrase(&self) -> (r: &str)
        requires
            self.wf(),
        ensures
            r@ == self@.display(),
    {
        self.obfuscated_phrase.as_str()
    }

    /// The characters of the phrase, in order.
    pub fn chars_to_guess(&self) -> (r: &Vec<char>)
        ensures
            r@ == self@.phrase,
    {
        &self.chars_to_guess
    }

    /// The distinct letters guessed so far, in the order they came.
    pub fn guessed_letters(&self) -> (r: &Vec<char>)
        ensures
            r@ == self@.guessed,
    {
        &self.guessed_letters
    }

    /// The number of guessed letters that do not occur in the phrase.
    pub fn incorrect_guess_count(&self) -> (r: u32)
        ensures
            r as nat == self@.incorrect,
    {
        self.incorrect_guess_count
    }

    /// The difficulty; 0 while unset.
    pub fn difficulty(&self) -> (r: u32)
        ensures
            r as nat == self@.difficulty,
    {
        self.difficulty
    }

    /// Whether the round is decided.
    pub fn game_over(&self) -> (r: bool)
        ensures
            r == self@.game_over,
    {
        self.game_over
    }

    /// Whether the round was won.
    pub fn win(&self) -> (r: bool)
        ensures
            r == self@.win,
    {
        self.win
    }

    /// Where the round stands.
    pub fn current_outcome(&self) -> (r: Outcome)
        ensures
            r == outcome_of(self@),
    {
        if !self.game_over {
            Outcome::InProgress
        } else if self.win {
            Outcome::Won
        } else {
            Outcome::Lost
        }
    }
}

/// Where a round in state `m` stands.
pub open spec fn outcome_of(m: GameModel) -> Outcome {
    if !m.game_over {
        Outcome::InProgress
    } else if m.win {
        Outcome::Won
    } else {
        Outcome::Lost
    }
}

/// The word length that a difficulty asks for when a phrase is drawn.
pub open spec fn implied_word_length_of(difficulty: nat) -> nat {
    difficulty
}

/// The word length that `difficulty` asks for when a phrase is drawn: the
/// difficulty itself.
pub fn implied_word_length(difficulty: u32) -> (r: u32)
    ensures
        r as nat == implied_word_length_of(difficulty as nat),
{
    difficulty
}

impl Default for HangmanGameState {
    /// A round with no phrase, no guess and no difficulty.
    fn default() -> (r: Self)
        ensures
            r.wf(),
            r@ == (GameModel {
                phrase: Seq::empty(),
                guessed: Seq::empty(),
                incorrect: 0,
                difficulty: 0,
                game_over: false,
                win: false,
            }),
    {
        let r = HangmanGameState {
            phrase_to_guess: String::new(),
            obfuscated_phrase: String::new(),
            chars_to_guess: Vec::new(),
            guessed_letters: Vec::new(),
            incorrect_guess_count: 0,
            difficulty: 0,
            game_over: false,
            win: false,
        };
        proof {
            assert(r.chars_to_guess@ =~= r.phrase_to_guess@);
            assert(r.obfuscated_phrase@ =~= r@.display());
        }
        r
    }
}

} // verus!
