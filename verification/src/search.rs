//! Plain substring search over `&str`, counted in characters.
//!
//! Paths and filenames in this library are searched for fixed tokens (the
//! cloud-sync prefix, the title/artist separator, a bracketed id). These
//! helpers give those searches exact character-level contracts.

use vstd::prelude::*;
use vstd::string::*;

verus! {

/// `pat` occurs in `s` starting at character index `i`.
pub open spec fn matches_at(s: Seq<char>, pat: Seq<char>, i: int) -> bool {
    0 <= i && i + pat.len() <= s.len() && s.subrange(i, i + pat.len()) == pat
}

/// The first index `>= i` at which `pat` occurs in `s`, or `-1` when there is
/// none.
pub open spec fn first_match_from(s: Seq<char>, pat: Seq<char>, i: int) -> int
    decreases s.len() + 1 - i,
{
    if i < 0 || i + pat.len() > s.len() {
        -1
    } else if matches_at(s, pat, i) {
        i
    } else {
        first_match_from(s, pat, i + 1)
    }
}

/// When `pat` occurs anywhere in `s`, the first-occurrence search succeeds.
pub proof fn lemma_found_when_occurs(s: Seq<char>, pat: Seq<char>)
    ensures
        (exists|i: int| matches_at(s, pat, i)) ==> first_match_from(s, pat, 0) >= 0,
{
    if exists|i: int| matches_at(s, pat, i) {
        let i = choose|i: int| matches_at(s, pat, i);
        lemma_first_match_le(s, pat, 0, i);
    }
}

/// The first-occurrence search started at or before a known occurrence finds
/// an occurrence (at or before it).
pub proof fn lemma_first_match_le(s: Seq<char>, pat: Seq<char>, from: int, i: int)
    requires
        matches_at(s, pat, i),
        0 <= from <= i,
    ensures
        0 <= first_match_from(s, pat, from) <= i,
    decreases i - from,
{
    if from < i && !matches_at(s, pat, from) {
        lemma_first_match_le(s, pat, from + 1, i);
    }
}

/// Compares the characters of `s` starting at `i` with `pat`.
pub fn match_at(s: &str, pat: &str, i: usize) -> (b: bool)
    requires
        i + pat@.len() <= s@.len(),
    ensures
        b == matches_at(s@, pat@, i as int),
{
    let n = s.unicode_len();
    let m = pat.unicode_len();
    let mut j: usize = 0;
    while j < m
        invariant
            n == s@.len(),
            m == pat@.len(),
            j <= m,
            i + m <= n,
            forall|k: int| 0 <= k < j ==> s@[i + k] == pat@[k],
        decreases m - j,
    {
        if s.get_char(i + j) != pat.get_char(j) {
            assert(s@.subrange(i as int, i + m) != pat@) by {
                assert(s@.subrange(i as int, i + m)[j as int] == s@[i + j]);
            }
            return false;
        }
        j += 1;
    }
    assert(s@.subrange(i as int, i + m) =~= pat@);
    true
}

/// Finds the first occurrence of `pat` in `s`, as a character index.
pub fn find_first(s: &str, pat: &str) -> (r: Option<usize>)
    ensures
        match r {
            Some(i) => first_match_from(s@, pat@, 0) == i && matches_at(s@, pat@, i as int),
            None => first_match_from(s@, pat@, 0) == -1,
        },
{
    let n = s.unicode_len();
    let m = pat.unicode_len();
    if m > n {
        return None;
    }
    if m == 0 {
        assert(s@.subrange(0, 0) =~= pat@);
        return Some(0);
    }
    let mut i: usize = 0;
    while i <= n - m
        invariant
            n == s@.len(),
            m == pat@.len(),
            1 <= m <= n,
            i <= n - m + 1,
            first_match_from(s@, pat@, 0) == first_match_from(s@, pat@, i as int),
        decreases n - i,
    {
        if match_at(s, pat, i) {
            return Some(i);
        }
        i += 1;
    }
    assert(first_match_from(s@, pat@, i as int) == -1);
    None
}

} // verus!
