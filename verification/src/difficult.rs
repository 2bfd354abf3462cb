//! The rule of difficult mode: a guess keeps every green letter of the
//! previous guess at its position, and uses every yellow letter of the
//! previous guess somewhere.
use vstd::prelude::*;
use crate::score::count_char;

verus! {

/// Greens stay in place (marks beyond the previous guess's letters are
/// ignored).
pub open spec fn greens_kept(last: Seq<char>, input: Seq<char>, result: Seq<char>) -> bool {
    forall|i: int|
        0 <= i < result.len() && i < last.len() && result[i] == 'G' ==> i < input.len()
            && input[i] == last[i]
}

/// Every yellow letter of the previous guess appears in the input.
pub open spec fn yellows_used(last: Seq<char>, input: Seq<char>, result: Seq<char>) -> bool {
    forall|i: int|
        0 <= i < result.len() && i < last.len() && result[i] == 'Y' ==> input.contains(
            #[trigger] last[i],
        )
}

/// Whether `input` may follow the guess `last` whose result was `result`.
pub open spec fn difficult_ok(last: Seq<char>, input: Seq<char>, result: Seq<char>) -> bool {
    greens_kept(last, input, result) && yellows_used(last, input, result)
}

/// Whether `c` occurs in `s`.
fn has_char(s: &Vec<char>, c: char) -> (r: bool)
    ensures
        r == s@.contains(c),
{
    let n = count_char(s, c);
    proof {
        lemma_count_contains(s@, c, s@.len() as int);
    }
    n > 0
}

proof fn lemma_count_contains(s: Seq<char>, c: char, n: int)
    requires
        0 <= n <= s.len(),
    ensures
        (crate::score::occurrences(s, c, n) > 0) == (exists|i: int| 0 <= i < n && s[i] == c),
    decreases n,
{
    if n > 0 {
        lemma_count_contains(s, c, n - 1);
        if s[n - 1] == c {
            assert(exists|i: int| 0 <= i < n && s[i] == c) by {
                assert(s[n - 1] == c);
            }
        } else {
            if exists|i: int| 0 <= i < n && s[i] == c {
                let i = choose|i: int| 0 <= i < n && s[i] == c;
                assert(i < n - 1);
            }
        }
    }
}

/// Whether `input` obeys difficult mode after the guess `last` scored
/// `result` (the marks `G`, `Y`, ... of the previous result line). Before the
/// first guess `last` and `result` are empty and every input passes.
pub fn difficult_check(last: &Vec<char>, input: &Vec<char>, result: &Vec<char>) -> (r: bool)
    ensures
        r == difficult_ok(last@, input@, result@),
{
    let mut i: usize = 0;
    while i < result.len()
        invariant
            i <= result.len(),
            forall|j: int|
                0 <= j < i && j < last.len() && result@[j] == 'G' ==> j < input.len() && input@[j]
                    == last@[j],
            forall|j: int|
                0 <= j < i && j < last.len() && result@[j] == 'Y' ==> input@.contains(
                    #[trigger] last@[j],
                ),
        decreases result.len() - i,
    {
        if i < last.len() && result[i] == 'G' {
            if !(i < input.len() && input[i] == last[i]) {
                return false;
            }
        }
        if i < last.len() && result[i] == 'Y' {
            if !has_char(input, last[i]) {
                return false;
            }
        }
        i = i + 1;
    }
    true
}

} // verus!
