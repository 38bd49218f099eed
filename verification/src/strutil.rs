//! Character-level string utilities: substring search, prefix/suffix tests,
//! and path base names, with full functional specifications.

use vstd::prelude::*;
use vstd::string::StrSliceExecFns;

verus! {

/// `p` occurs in `s` starting at index `i`.
pub open spec fn match_at(s: Seq<char>, p: Seq<char>, i: int) -> bool {
    &&& 0 <= i
    &&& i + p.len() <= s.len()
    &&& s.subrange(i, i + p.len() as int) == p
}

/// Index of the first occurrence of `p` in `s` at or after `i`;
/// `None` when there is none or `p` is empty.
pub open spec fn first_match_from(s: Seq<char>, p: Seq<char>, i: int) -> Option<int>
    decreases s.len() - i,
{
    if i < 0 || p.len() == 0 || i + p.len() > s.len() {
        None
    } else if match_at(s, p, i) {
        Some(i)
    } else {
        first_match_from(s, p, i + 1)
    }
}

/// `p` occurs somewhere in `s`.
pub open spec fn contains_sub(s: Seq<char>, p: Seq<char>) -> bool {
    first_match_from(s, p, 0) is Some
}

/// The first character of `p` occurs nowhere else in `p`. A pattern with
/// this shape cannot overlap itself, so an occurrence of `p` cannot start
/// strictly inside another occurrence.
pub open spec fn unique_head(p: Seq<char>) -> bool {
    &&& p.len() > 0
    &&& forall|k: int| 0 < k < p.len() ==> #[trigger] p[k] != p[0]
}

/// Compare `s[i .. i + p.len()]` with `p`.
pub fn chars_eq_at(s: &str, i: usize, p: &str) -> (r: bool)
    requires
        i + p@.len() <= s@.len(),
    ensures
        r == match_at(s@, p@, i as int),
{
    let slen: usize = s.unicode_len();
    let plen: usize = p.unicode_len();
    let mut j: usize = 0;
    while j < plen
        invariant
            j <= plen,
            plen == p@.len(),
            slen == s@.len(),
            i + plen <= slen,
            forall|k: int| 0 <= k < j ==> s@[i + k] == p@[k],
        decreases plen - j,
    {
        if s.get_char(i + j) != p.get_char(j) {
            proof {
                assert(s@.subrange(i as int, i + plen) != p@) by {
                    assert(s@.subrange(i as int, i + plen)[j as int] != p@[j as int]);
                }
            }
            return false;
        }
        j = j + 1;
    }
    proof {
        assert(s@.subrange(i as int, i + plen) =~= p@);
    }
    true
}

/// First occurrence of `p` in `s` at or after `from`.
pub fn find_from(s: &str, p: &str, from: usize) -> (r: Option<usize>)
    requires
        p@.len() > 0,
    ensures
        match r {
            Some(j) => first_match_from(s@, p@, from as int) == Some(j as int),
            None => first_match_from(s@, p@, from as int) is None,
        },
{
    let slen: usize = s.unicode_len();
    let plen: usize = p.unicode_len();
    if plen > slen || from > slen - plen {
        return None;
    }
    let mut i: usize = from;
    while i <= slen - plen
        invariant
            from <= i,
            plen > 0,
            plen <= slen,
            slen == s@.len(),
            plen == p@.len(),
            first_match_from(s@, p@, from as int) == first_match_from(s@, p@, i as int),
        decreases slen - i,
    {
        if chars_eq_at(s, i, p) {
            return Some(i);
        }
        i = i + 1;
    }
    None
}

/// `p` is an initial segment of `s`.
pub fn str_starts_with(s: &str, p: &str) -> (r: bool)
    ensures
        r == p@.is_prefix_of(s@),
{
    let slen: usize = s.unicode_len();
    let plen: usize = p.unicode_len();
    if plen > slen {
        return false;
    }
    let r = chars_eq_at(s, 0, p);
    proof {
        assert(s@.subrange(0, p@.len() as int) == s@.take(p@.len() as int));
    }
    r
}

/// `p` is a final segment of `s`.
pub fn str_ends_with(s: &str, p: &str) -> (r: bool)
    ensures
        r == p@.is_suffix_of(s@),
{
    let slen: usize = s.unicode_len();
    let plen: usize = p.unicode_len();
    if plen > slen {
        return false;
    }
    let r = chars_eq_at(s, slen - plen, p);
    proof {
        assert(s@.subrange(slen - plen, slen as int) == s@.skip(slen - plen));
    }
    r
}

/// The two strings hold the same characters.
pub fn str_eq(a: &str, b: &str) -> (r: bool)
    ensures
        r == (a@ == b@),
{
    let alen: usize = a.unicode_len();
    let blen: usize = b.unicode_len();
    if alen != blen {
        return false;
    }
    let r = chars_eq_at(a, 0, b);
    proof {
        assert(a@.subrange(0, b@.len() as int) =~= a@);
    }
    r
}

/// When the search reports no occurrence, there is none at any position.
pub proof fn lemma_first_match_none(s: Seq<char>, p: Seq<char>, i: int)
    requires
        p.len() > 0,
        0 <= i,
        first_match_from(s, p, i) is None,
    ensures
        forall|j: int| i <= j ==> !match_at(s, p, j),
    decreases s.len() - i,
{
    if i + p.len() <= s.len() {
        lemma_first_match_none(s, p, i + 1);
    }
}

/// The search reports `j` when `p` occurs at `j` and nowhere earlier.
pub proof fn lemma_first_match_at(s: Seq<char>, p: Seq<char>, i: int, j: int)
    requires
        p.len() > 0,
        0 <= i <= j,
        match_at(s, p, j),
        forall|k: int| i <= k < j ==> !match_at(s, p, k),
    ensures
        first_match_from(s, p, i) == Some(j),
    decreases j - i,
{
    if i < j {
        lemma_first_match_at(s, p, i + 1, j);
    }
}

/// In `pre + a + p + b`, a pattern that does not occur in `a` and cannot
/// overlap itself is first found, searching from the end of `pre`, exactly
/// at the seam: at index `pre.len() + a.len()`.
pub proof fn lemma_first_match_seam(pre: Seq<char>, a: Seq<char>, p: Seq<char>, b: Seq<char>)
    requires
        unique_head(p),
        !contains_sub(a, p),
    ensures
        first_match_from(pre + a + p + b, p, pre.len() as int) == Some(pre.len() + a.len() as int),
{
    let s = pre + a + p + b;
    let n = pre.len() as int;
    let m = a.len() as int;
    assert(match_at(s, p, n + m)) by {
        assert(s.subrange(n + m, n + m + p.len() as int) =~= p);
    }
    lemma_first_match_none(a, p, 0);
    assert forall|k: int| n <= k < n + m implies !match_at(s, p, k) by {
        if match_at(s, p, k) {
            if k + p.len() <= n + m {
                // the occurrence would lie wholly inside `a`
                assert(match_at(a, p, k - n)) by {
                    assert(a.subrange(k - n, k - n + p.len() as int) =~= s.subrange(
                        k,
                        k + p.len() as int,
                    ));
                }
            } else {
                // the occurrence would straddle the seam, so the head
                // character of `p` would recur inside `p`
                let off = n + m - k;
                assert(s.subrange(k, k + p.len() as int)[off] == p[off]);
                assert(s[n + m] == p[0]);
            }
        }
    }
    lemma_first_match_at(s, p, n, n + m);
}

/// A successful search reports a true occurrence at or after the start.
pub proof fn lemma_first_match_some(s: Seq<char>, p: Seq<char>, i: int, j: int)
    requires
        first_match_from(s, p, i) == Some(j),
    ensures
        i <= j,
        match_at(s, p, j),
    decreases s.len() - i,
{
    if !match_at(s, p, i) {
        lemma_first_match_some(s, p, i + 1, j);
    }
}

/// Copy of `s[from .. to]` as an owned string.
pub fn substring(s: &str, from: usize, to: usize) -> (r: String)
    requires
        from <= to <= s@.len(),
    ensures
        r@ == s@.subrange(from as int, to as int),
{
    let sub = s.substring_char(from, to);
    sub.to_owned()
}

} // verus!
