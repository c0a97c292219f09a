//! Laws that hold of every round, whatever letters are guessed.

use vstd::prelude::*;
use vstd::set_lib::lemma_len_subset;
use vstd::seq_lib::seq_to_set_is_finite;
use crate::model::{GameModel, all_revealed, has_letters, misses};
use crate::text::is_white_space;

verus! {

/// What every state reached from a fresh round keeps: each letter is recorded
/// once, the incorrect count is the number of recorded misses, and (on a phrase
/// with letters) the round is won exactly when the phrase is revealed, and still
/// open only while it is not.
pub open spec fn is_consistent(m: GameModel) -> bool {
    &&& m.guessed.no_duplicates()
    &&& m.incorrect == misses(m.phrase, m.guessed).len()
    &&& m.win ==> m.game_over
    &&& has_letters(m.phrase) ==> (m.win <==> all_revealed(m.phrase, m.guessed))
    &&& has_letters(m.phrase) && !m.game_over ==> !all_revealed(m.phrase, m.guessed)
}

proof fn lemma_misses_push(phrase: Seq<char>, guessed: Seq<char>, c: char)
    ensures
        misses(phrase, guessed.push(c)) == if phrase.contains(c) {
            misses(phrase, guessed)
        } else {
            misses(phrase, guessed).push(c)
        },
{
    reveal(Seq::filter);
    assert(guessed.push(c).drop_last() =~= guessed);
}

proof fn lemma_fresh_consistent(m: GameModel)
    requires
        m.is_fresh(),
    ensures
        is_consistent(m),
{
    reveal(Seq::filter);
    if has_letters(m.phrase) {
        let i = choose|i: int| 0 <= i < m.phrase.len() && !is_white_space(#[trigger] m.phrase[i]);
        assert(!m.guessed.contains(m.phrase[i]));
    }
}

proof fn lemma_step_consistent(m: GameModel, c: char)
    requires
        is_consistent(m),
    ensures
        is_consistent(m.guess_step(c)),
        m.guess_step(c).phrase == m.phrase,
{
    if !m.game_over && !m.guessed.contains(c) {
        let g = m.guessed.push(c);
        lemma_misses_push(m.phrase, m.guessed, c);
        if !m.phrase.contains(c) {
            assert forall|i: int|
                0 <= i < m.phrase.len() && !is_white_space(#[trigger] m.phrase[i])
                    && g.contains(m.phrase[i]) implies m.guessed.contains(m.phrase[i]) by {
                let k = choose|k: int| 0 <= k < g.len() && g[k] == m.phrase[i];
                if k == m.guessed.len() {
                    assert(m.phrase.contains(c));
                } else {
                    assert(m.guessed[k] == g[k]);
                }
            }
            if has_letters(m.phrase) {
                assert(!all_revealed(m.phrase, g));
            }
        }
    }
}

proof fn lemma_play_consistent(m: GameModel, letters: Seq<char>)
    requires
        is_consistent(m),
    ensures
        is_consistent(m.play(letters)),
        m.play(letters).phrase == m.phrase,
    decreases letters.len(),
{
    if letters.len() > 0 {
        lemma_play_consistent(m, letters.drop_last());
        lemma_step_consistent(m.play(letters.drop_last()), letters.last());
    }
}

proof fn lemma_play_guessed_from_letters(m: GameModel, letters: Seq<char>)
    requires
        m.guessed.len() == 0,
    ensures
        forall|x: char| #[trigger] m.play(letters).guessed.contains(x) ==> letters.contains(x),
    decreases letters.len(),
{
    if letters.len() > 0 {
        let prev = letters.drop_last();
        lemma_play_guessed_from_letters(m, prev);
        let before = m.play(prev);
        let after = m.play(letters);
        assert forall|x: char| #[trigger] after.guessed.contains(x) implies letters.contains(x) by {
            if before.guessed.contains(x) {
                let k = choose|k: int| 0 <= k < prev.len() && prev[k] == x;
                assert(letters[k] == x);
            } else {
                let k = choose|k: int| 0 <= k < after.guessed.len() && after.guessed[k] == x;
                assert(k == before.guessed.len());
                assert(letters[letters.len() - 1] == x);
            }
        }
    }
}

/// Whatever letters are guessed from a fresh round, the incorrect count never
/// exceeds the number of distinct guessed letters that are absent from the phrase.
pub proof fn law_incorrect_within_distinct_misses(m: GameModel, letters: Seq<char>)
    requires
        m.is_fresh(),
    ensures
        m.play(letters).incorrect <= letters.to_set().filter(|c: char| !m.phrase.contains(c)).len(),
{
    let end = m.play(letters);
    let absent = |c: char| !m.phrase.contains(c);
    lemma_fresh_consistent(m);
    lemma_play_consistent(m, letters);
    lemma_play_guessed_from_letters(m, letters);
    let ms = misses(m.phrase, end.guessed);
    end.guessed.filter_lemma(absent);
    assert(ms.no_duplicates()) by {
        reveal(Seq::filter);
        lemma_filter_no_duplicates(end.guessed, absent);
    }
    ms.unique_seq_to_set();
    seq_to_set_is_finite(letters);
    letters.to_set().lemma_len_filter(absent);
    assert forall|x: char| ms.to_set().contains(x) implies
        #[trigger] letters.to_set().filter(absent).contains(x) by {
        assert(ms.contains(x));
        let k = choose|k: int| 0 <= k < ms.len() && ms[k] == x;
        assert(absent(ms[k]));
        end.guessed.lemma_filter_contains_rev(absent, x);
    }
    lemma_len_subset(ms.to_set(), letters.to_set().filter(absent));
}

proof fn lemma_filter_no_duplicates(s: Seq<char>, p: spec_fn(char) -> bool)
    requires
        s.no_duplicates(),
    ensures
        s.filter(p).no_duplicates(),
    decreases s.len(),
{
    reveal(Seq::filter);
    if s.len() > 0 {
        let rest = s.drop_last();
        assert(rest.no_duplicates());
        lemma_filter_no_duplicates(rest, p);
        if p(s.last()) {
            if rest.filter(p).contains(s.last()) {
                rest.lemma_filter_contains_rev(p, s.last());
                let k = choose|k: int| 0 <= k < rest.len() && rest[k] == s.last();
                assert(s[k] == s[s.len() - 1]);
            }
        }
    }
}

/// Guessing a letter that was guessed before changes nothing: not the incorrect
/// count, not the outcome, not anything else.
pub proof fn law_repeat_guess_changes_nothing(m: GameModel, c: char)
    requires
        m.guessed.contains(c),
    ensures
        m.guess_step(c) == m,
{
}

/// Once the round is over, no sequence of further guesses changes it: the
/// guessed letters, the incorrect count, the outcome and the display stay.
pub proof fn law_closed_round_is_frozen(m: GameModel, letters: Seq<char>)
    requires
        m.game_over,
    ensures
        m.play(letters) == m,
        m.play(letters).display() == m.display(),
    decreases letters.len(),
{
    if letters.len() > 0 {
        law_closed_round_is_frozen(m, letters.drop_last());
    }
}

/// From a fresh round on a phrase with at least one character that is not
/// whitespace, whatever letters are guessed, the round is won exactly when every
/// such character has been guessed.
pub proof fn law_win_iff_revealed(m: GameModel, letters: Seq<char>)
    requires
        m.is_fresh(),
        has_letters(m.phrase),
    ensures
        m.play(letters).win <==> all_revealed(m.phrase, m.play(letters).guessed),
{
    lemma_fresh_consistent(m);
    lemma_play_consistent(m, letters);
}

} // verus!
