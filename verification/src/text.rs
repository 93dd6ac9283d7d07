//! Verified character-level string utilities: equality, substring search,
//! and trailing-character trimming, all specified over `Seq<char>` views.

use vstd::prelude::*;
use vstd::string::StrSliceExecFns;

verus! {

/// The pattern `pat` occurs in `s` starting at position `i`.
pub open spec fn match_at(s: Seq<char>, pat: Seq<char>, i: int) -> bool {
    0 <= i && i + pat.len() <= s.len() && s.subrange(i, i + pat.len() as int) == pat
}

/// The first position at or after `i` where `pat` occurs in `s`, if any.
pub open spec fn first_match_from(s: Seq<char>, pat: Seq<char>, i: int) -> Option<int>
    decreases s.len() - i,
{
    if pat.len() == 0 || i < 0 || i + pat.len() > s.len() {
        None
    } else if match_at(s, pat, i) {
        Some(i)
    } else {
        first_match_from(s, pat, i + 1)
    }
}

/// The first position where `pat` occurs in `s`, if any.
pub open spec fn find_sub(s: Seq<char>, pat: Seq<char>) -> Option<int> {
    first_match_from(s, pat, 0)
}

/// `pat` occurs somewhere in `s`.
pub open spec fn contains_sub(s: Seq<char>, pat: Seq<char>) -> bool {
    find_sub(s, pat) is Some
}

/// Searching from `lo` and searching from `i` agree when no match sits
/// in between.
proof fn lemma_first_match_from_skip(s: Seq<char>, pat: Seq<char>, lo: int, i: int)
    requires
        0 <= lo <= i,
        forall|k: int| lo <= k < i ==> !match_at(s, pat, k),
    ensures
        first_match_from(s, pat, lo) == first_match_from(s, pat, i),
    decreases i - lo,
{
    if lo < i {
        lemma_first_match_from_skip(s, pat, lo + 1, i);
    }
}

/// A match at `i` with no match before it pins the result of `find_sub`.
pub proof fn lemma_find_sub_at(s: Seq<char>, pat: Seq<char>, i: int)
    requires
        pat.len() >= 1,
        match_at(s, pat, i),
        forall|k: int| 0 <= k < i ==> !match_at(s, pat, k),
    ensures
        find_sub(s, pat) == Some(i),
{
    lemma_first_match_from_skip(s, pat, 0, i);
}

/// With no match anywhere, `find_sub` finds nothing.
pub proof fn lemma_find_sub_none(s: Seq<char>, pat: Seq<char>)
    requires
        forall|k: int| 0 <= k <= s.len() - pat.len() ==> !match_at(s, pat, k),
    ensures
        find_sub(s, pat) is None,
{
    assert forall|k: int| !match_at(s, pat, k) by {
        if 0 <= k <= s.len() - pat.len() {
            assert(!match_at(s, pat, k));
        }
    }
    if s.len() >= pat.len() {
        lemma_first_match_from_skip(s, pat, 0, s.len() - pat.len() as int + 1);
    }
}

/// Character-by-character string equality, pinned to view equality.
pub fn str_eq(a: &str, b: &str) -> (r: bool)
    ensures
        r == (a@ == b@),
{
    let n: usize = a.unicode_len();
    let m: usize = b.unicode_len();
    if n != m {
        return false;
    }
    for i in 0..n
        invariant
            n == a@.len(),
            n == b@.len(),
            forall|k: int| 0 <= k < i ==> a@[k] == b@[k],
    {
        if a.get_char(i) != b.get_char(i) {
            assert(a@ != b@);
            return false;
        }
    }
    assert(a@ =~= b@);
    true
}

/// Does `pat` occur in `s` at position `i`?
fn match_at_exec(s: &str, pat: &str, i: usize, m: usize) -> (r: bool)
    requires
        m == pat@.len(),
        i + m <= s@.len() <= usize::MAX,
    ensures
        r == match_at(s@, pat@, i as int),
{
    for j in 0..m
        invariant
            m == pat@.len(),
            i + m <= s@.len() <= usize::MAX,
            forall|k: int| 0 <= k < j ==> s@[i + k] == pat@[k],
    {
        if s.get_char(i + j) != pat.get_char(j) {
            assert(!match_at(s@, pat@, i as int)) by {
                if match_at(s@, pat@, i as int) {
                    assert(s@.subrange(i as int, i + m as int)[j as int] == pat@[j as int]);
                }
            }
            return false;
        }
    }
    assert(s@.subrange(i as int, i + m as int) =~= pat@);
    true
}

/// Does `pat` occur in `s` at position `i`?
pub fn occurs_at(s: &str, pat: &str, i: usize) -> (r: bool)
    requires
        i + pat@.len() <= s@.len() <= usize::MAX,
    ensures
        r == match_at(s@, pat@, i as int),
{
    let m: usize = pat.unicode_len();
    match_at_exec(s, pat, i, m)
}

/// The position of the first occurrence of `pat` in `s`, if any.
pub fn find_substring(s: &str, pat: &str) -> (r: Option<usize>)
    requires
        pat@.len() >= 1,
    ensures
        match r {
            Some(i) => find_sub(s@, pat@) == Some(i as int) && match_at(s@, pat@, i as int),
            None => find_sub(s@, pat@) is None,
        },
{
    let n: usize = s.unicode_len();
    let m: usize = pat.unicode_len();
    if m > n {
        proof {
            lemma_find_sub_none(s@, pat@);
        }
        return None;
    }
    let mut i: usize = 0;
    while i <= n - m
        invariant
            n == s@.len(),
            m == pat@.len(),
            1 <= m <= n,
            i <= n - m + 1,
            forall|k: int| 0 <= k < i ==> !match_at(s@, pat@, k),
        decreases n - m - i + 1,
    {
        if match_at_exec(s, pat, i, m) {
            proof {
                lemma_find_sub_at(s@, pat@, i as int);
            }
            return Some(i);
        }
        i = i + 1;
    }
    proof {
        lemma_find_sub_none(s@, pat@);
    }
    None
}

/// `s` with every trailing occurrence of `c` removed.
pub open spec fn trim_trailing(s: Seq<char>, c: char) -> Seq<char>
    decreases s.len(),
{
    if s.len() > 0 && s.last() == c {
        trim_trailing(s.drop_last(), c)
    } else {
        s
    }
}

/// Executable trimming of trailing occurrences of `c`.
pub fn trim_trailing_char<'a>(s: &'a str, c: char) -> (r: &'a str)
    ensures
        r@ == trim_trailing(s@, c),
{
    let n: usize = s.unicode_len();
    proof {
        assert(s@.subrange(0, n as int) =~= s@);
    }
    let mut end: usize = n;
    while end > 0 && s.get_char(end - 1) == c
        invariant
            n == s@.len(),
            end <= n,
            trim_trailing(s@, c) == trim_trailing(s@.subrange(0, end as int), c),
        decreases end,
    {
        proof {
            let t = s@.subrange(0, end as int);
            assert(t.last() == c);
            assert(t.drop_last() =~= s@.subrange(0, end - 1));
        }
        end = end - 1;
    }
    proof {
        assert(s@.subrange(0, n as int) =~= s@);
        let t = s@.subrange(0, end as int);
        assert(trim_trailing(t, c) == t);
    }
    s.substring_char(0, end)
}

/// Appending only copies of `c` leaves the trimmed value unchanged.
pub proof fn lemma_trim_of_padded(s: Seq<char>, pad: Seq<char>, c: char)
    requires
        s.len() == 0 || s.last() != c,
        forall|k: int| 0 <= k < pad.len() ==> pad[k] == c,
    ensures
        trim_trailing(s + pad, c) == s,
    decreases pad.len(),
{
    if pad.len() == 0 {
        assert(s + pad =~= s);
    } else {
        let t = s + pad;
        assert(t.last() == c);
        assert(t.drop_last() =~= s + pad.drop_last());
        lemma_trim_of_padded(s, pad.drop_last(), c);
    }
}

} // verus!
