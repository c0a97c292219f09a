//! The word source: a line-delimited list of candidate words.

use vstd::prelude::*;
use rand::Rng;
use crate::text::chars_of;

verus! {

/// The lines that `str::lines` finds in a text.
pub uninterp spec fn lines_of(text: Seq<char>) -> Seq<Seq<char>>;

/// The characters of each string of a sequence.
pub open spec fn views_of(v: Seq<String>) -> Seq<Seq<char>> {
    v.map_values(|w: String| w@)
}

/// The entries of `lines` that are exactly `n` characters long, in order.
pub open spec fn candidates(lines: Seq<Seq<char>>, n: nat) -> Seq<Seq<char>> {
    lines.filter(|w: Seq<char>| w.len() == n)
}

/// Every candidate has the length it was chosen for.
pub proof fn lemma_candidate_length(lines: Seq<Seq<char>>, n: nat, w: Seq<char>)
    requires
        candidates(lines, n).contains(w),
    ensures
        w.len() == n,
{
    let found = candidates(lines, n);
    let j = choose|j: int| 0 <= j < found.len() && found[j] == w;
    lines.lemma_filter_pred(|w: Seq<char>| w.len() == n, j);
}

/// Relies on `str::lines`: the result depends on the text alone.
#[verifier::external_body]
pub(crate) fn split_lines(text: &str) -> (r: Vec<String>)
    ensures
        views_of(r@) == lines_of(text@),
{
    text.lines().map(|l| l.to_string()).collect()
}

/// Relies on `Rng::gen_range` over `thread_rng`: a value in `0..n`, which it
/// draws from a range that is not empty.
#[verifier::external_body]
pub(crate) fn random_index(n: usize) -> (r: usize)
    requires
        n > 0,
    ensures
        r < n,
{
    rand::thread_rng().gen_range(0..n)
}

/// The entries of `lines` whose character count is `length`, in their order.
pub fn words_of_length(lines: &Vec<String>, length: u32) -> (r: Vec<String>)
    ensures
        views_of(r@) == candidates(views_of(lines@), length as nat),
{
    let ghost all = views_of(lines@);
    let ghost pred = |w: Seq<char>| w.len() == length as nat;
    let mut r: Vec<String> = Vec::new();
    let mut i: usize = 0;
    while i < lines.len()
        invariant
            i <= lines.len(),
            all == views_of(lines@),
            pred == (|w: Seq<char>| w.len() == length as nat),
            views_of(r@) == all.take(i as int).filter(pred),
        decreases lines.len() - i,
    {
        let line = &lines[i];
        let n = chars_of(line.as_str()).len();
        proof {
            reveal(Seq::filter);
            assert(all.take(i + 1).drop_last() =~= all.take(i as int));
            assert(all.take(i + 1).last() == line@);
        }
        if n as u64 == length as u64 {
            let ghost before = r@;
            r.push(line.clone());
            proof {
                assert(views_of(r@) =~= views_of(before).push(line@));
            }
        }
        i = i + 1;
    }
    proof {
        assert(all.take(lines.len() as int) =~= all);
    }
    r
}

} // verus!
