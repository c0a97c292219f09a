use hangman_game::{
    implied_word_length, normalize_guess, words_of_length, GameError, HangmanGameState, Outcome,
};

const NO_WORDS: &str = "";

fn round(phrase: &str, difficulty: u32) -> HangmanGameState {
    let mut g = HangmanGameState::new(phrase.to_string());
    if difficulty != 0 {
        assert!(g.set_difficulty(difficulty));
    }
    g
}

#[test]
fn display_round_trip_cat() {
    let mut g = round("CAT", 0);
    assert_eq!(g.obfuscated_phrase(), "___");
    g.guess_letter(NO_WORDS, 'A').unwrap();
    assert_eq!(g.obfuscated_phrase(), "_A_");
    g.guess_letter(NO_WORDS, 'T').unwrap();
    g.guess_letter(NO_WORDS, 'C').unwrap();
    assert_eq!(g.obfuscated_phrase(), "CAT");
}

#[test]
fn hard_round_lost_after_four_misses() {
    let mut g = round("DOG", 4);
    for c in ['X', 'Q', 'Z'] {
        g.guess_letter(NO_WORDS, c).unwrap();
        assert!(!g.game_over());
    }
    g.guess_letter(NO_WORDS, 'W').unwrap();
    assert_eq!(g.incorrect_guess_count(), 4);
    assert!(g.game_over());
    assert!(!g.win());
    assert_eq!(g.current_outcome(), Outcome::Lost);
}

#[test]
fn normal_round_won_without_misses() {
    let mut g = round("CAT", 6);
    g.guess_letter(NO_WORDS, 'C').unwrap();
    g.guess_letter(NO_WORDS, 'A').unwrap();
    assert!(!g.win());
    assert_eq!(g.current_outcome(), Outcome::InProgress);
    g.guess_letter(NO_WORDS, 'T').unwrap();
    assert!(g.win());
    assert!(g.game_over());
    assert_eq!(g.incorrect_guess_count(), 0);
    assert_eq!(g.current_outcome(), Outcome::Won);
}

#[test]
fn whitespace_is_always_revealed() {
    let mut g = round("A B", 6);
    assert_eq!(g.obfuscated_phrase(), "_ _");
    g.guess_letter(NO_WORDS, 'A').unwrap();
    assert_eq!(g.obfuscated_phrase(), "A _");
    assert!(!g.win());
    g.guess_letter(NO_WORDS, 'B').unwrap();
    assert_eq!(g.obfuscated_phrase(), "A B");
    assert!(g.win());
    assert!(g.game_over());
}

#[test]
fn tab_is_whitespace_too() {
    let g = round("A\tB", 6);
    assert_eq!(g.obfuscated_phrase(), "_\t_");
}

#[test]
fn repeated_guesses_count_once() {
    let mut g = round("DOG", 6);
    g.guess_letter(NO_WORDS, 'X').unwrap();
    g.guess_letter(NO_WORDS, 'X').unwrap();
    g.guess_letter(NO_WORDS, 'D').unwrap();
    g.guess_letter(NO_WORDS, 'D').unwrap();
    assert_eq!(g.incorrect_guess_count(), 1);
    assert_eq!(g.guessed_letters(), &vec!['X', 'D']);
    assert!(!g.game_over());
    assert!(!g.win());
}

#[test]
fn incorrect_count_is_distinct_misses() {
    let mut g = round("HOUSE", 10);
    for c in ['A', 'H', 'B', 'A', 'C', 'O', 'B'] {
        g.guess_letter(NO_WORDS, c).unwrap();
    }
    assert_eq!(g.incorrect_guess_count(), 3);
}

#[test]
fn closed_round_refuses_guesses() {
    let mut g = round("DOG", 4);
    for c in ['X', 'Q', 'Z', 'W'] {
        g.guess_letter(NO_WORDS, c).unwrap();
    }
    let guessed = g.guessed_letters().clone();
    let display = g.obfuscated_phrase().to_string();
    assert_eq!(g.guess_letter(NO_WORDS, 'D'), Err(GameError::RoundClosed));
    assert_eq!(g.guess_letter(NO_WORDS, 'Y'), Err(GameError::RoundClosed));
    assert_eq!(g.guessed_letters(), &guessed);
    assert_eq!(g.obfuscated_phrase(), display);
    assert_eq!(g.incorrect_guess_count(), 4);
    assert!(!g.win());
}

#[test]
fn win_needs_every_letter() {
    let mut g = round("ABBA", 6);
    g.guess_letter(NO_WORDS, 'B').unwrap();
    assert!(!g.win());
    g.guess_letter(NO_WORDS, 'A').unwrap();
    assert!(g.win());
}

#[test]
fn random_word_has_requested_length() {
    let words = "cat\ndog\nhorse\nmouse\n";
    let mut g = HangmanGameState::default();
    for _ in 0..20 {
        let w = g.random_word_from_file(words, 3).unwrap();
        assert!(w == "cat" || w == "dog");
        let w = g.random_word_from_file(words, 5).unwrap();
        assert!(w == "horse" || w == "mouse");
    }
}

#[test]
fn random_word_not_found() {
    let mut g = HangmanGameState::default();
    assert_eq!(g.random_word_from_file("cat\ndog", 7), Err(GameError::NotFound));
    assert_eq!(g.random_word_from_file("", 3), Err(GameError::NotFound));
}

#[test]
fn random_phrase_is_upper_case() {
    let mut g = HangmanGameState::default();
    g.random_phrase_to_guess("horse\ncat", 5).unwrap();
    assert_eq!(g.phrase_to_guess(), "HORSE");
    assert_eq!(g.chars_to_guess(), &vec!['H', 'O', 'R', 'S', 'E']);
    assert_eq!(g.obfuscated_phrase(), "_____");
}

#[test]
fn random_phrase_not_found_keeps_state() {
    let mut g = round("CAT", 0);
    assert_eq!(g.random_phrase_to_guess("horse", 3), Err(GameError::NotFound));
    assert_eq!(g.phrase_to_guess(), "CAT");
}

#[test]
fn first_guess_draws_phrase_of_difficulty_length() {
    let mut g = HangmanGameState::default();
    assert_eq!(g.difficulty(), 0);
    g.guess_letter("apple\nplanet\nbanana\nkiwi", 'A').unwrap();
    assert_eq!(g.difficulty(), 6);
    let p = g.phrase_to_guess().to_string();
    assert!(p == "PLANET" || p == "BANANA");
    assert_eq!(g.guessed_letters(), &vec!['A']);
}

#[test]
fn first_guess_with_chosen_difficulty() {
    let mut g = HangmanGameState::default();
    assert!(g.set_difficulty(4));
    g.guess_letter("apple\nkiwi\nbanana", 'K').unwrap();
    assert_eq!(g.phrase_to_guess(), "KIWI");
    assert_eq!(g.obfuscated_phrase(), "K___");
}

#[test]
fn first_guess_without_fitting_word() {
    let mut g = HangmanGameState::default();
    assert_eq!(g.guess_letter("cat\ndog", 'A'), Err(GameError::NotFound));
    assert_eq!(g.difficulty(), 6);
    assert_eq!(g.phrase_to_guess(), "");
    assert!(g.guessed_letters().is_empty());
}

#[test]
fn new_round_is_upper_case_and_fresh() {
    let g = HangmanGameState::new("cat".to_string());
    assert_eq!(g.phrase_to_guess(), "CAT");
    assert_eq!(g.chars_to_guess(), &vec!['C', 'A', 'T']);
    assert_eq!(g.incorrect_guess_count(), 0);
    assert_eq!(g.difficulty(), 0);
    assert!(!g.game_over());
    assert!(!g.win());
    assert_eq!(g.current_outcome(), Outcome::InProgress);
}

#[test]
fn default_round_is_empty() {
    let g = HangmanGameState::default();
    assert_eq!(g.phrase_to_guess(), "");
    assert_eq!(g.obfuscated_phrase(), "");
    assert!(g.guessed_letters().is_empty());
}

#[test]
fn update_phrase_before_guessing() {
    let mut g = HangmanGameState::default();
    g.update_guess_phrase("to be".to_string());
    assert_eq!(g.phrase_to_guess(), "TO BE");
    assert_eq!(g.obfuscated_phrase(), "__ __");
}

#[test]
fn difficulty_choices() {
    let mut g = round("CAT", 0);
    assert!(!g.set_difficulty(5));
    assert!(!g.set_difficulty(0));
    assert_eq!(g.difficulty(), 0);
    assert!(g.set_difficulty(10));
    assert!(g.set_difficulty(8));
    assert_eq!(g.difficulty(), 8);
    g.guess_letter(NO_WORDS, 'C').unwrap();
    assert!(!g.set_difficulty(4));
    assert_eq!(g.difficulty(), 8);
}

#[test]
fn unset_difficulty_becomes_normal() {
    let mut g = round("DOG", 0);
    for c in ['A', 'B', 'C', 'E', 'F'] {
        g.guess_letter(NO_WORDS, c).unwrap();
    }
    assert_eq!(g.difficulty(), 6);
    assert!(!g.game_over());
    g.guess_letter(NO_WORDS, 'H').unwrap();
    assert!(g.game_over());
    assert!(!g.win());
}

#[test]
fn normalize_guess_upper_cases() {
    assert_eq!(normalize_guess("a"), Some('A'));
    assert_eq!(normalize_guess("Z"), Some('Z'));
    assert_eq!(normalize_guess("bc"), Some('B'));
    assert_eq!(normalize_guess(""), None);
}

#[test]
fn words_of_length_filters_in_order() {
    let lines: Vec<String> = ["tree", "ox", "bird", "", "héro"].iter().map(|s| s.to_string()).collect();
    let four = words_of_length(&lines, 4);
    assert_eq!(four, vec!["tree".to_string(), "bird".to_string(), "héro".to_string()]);
    assert!(words_of_length(&lines, 3).is_empty());
    assert_eq!(words_of_length(&lines, 0), vec![String::new()]);
}

#[test]
fn implied_length_is_difficulty() {
    assert_eq!(implied_word_length(4), 4);
    assert_eq!(implied_word_length(10), 10);
}
