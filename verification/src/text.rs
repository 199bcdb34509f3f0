//! Verified text utilities: equality, prefix, suffix and substring tests on
//! `&str`, stated over the character sequences the strings denote.

use vstd::prelude::*;

verus! {

/// `p` is an initial segment of `s`.
pub open spec fn is_prefix_of(p: Seq<char>, s: Seq<char>) -> bool {
    p.len() <= s.len() && s.subrange(0, p.len() as int) == p
}

/// `p` is a final segment of `s`.
pub open spec fn is_suffix_of(p: Seq<char>, s: Seq<char>) -> bool {
    p.len() <= s.len() && s.subrange(s.len() - p.len(), s.len() as int) == p
}

/// `p` occurs contiguously somewhere in `s`.
pub open spec fn contains_seq(s: Seq<char>, p: Seq<char>) -> bool {
    exists|i: int| 0 <= i <= s.len() - p.len() && #[trigger] s.subrange(i, i + p.len()) == p
}

/// Character-for-character equality of two strings.
pub fn str_eq(a: &str, b: &str) -> (r: bool)
    ensures
        r == (a@ == b@),
{
    let n = a.unicode_len();
    let m = b.unicode_len();
    if n != m {
        return false;
    }
    let mut i: usize = 0;
    while i < n
        invariant
            0 <= i <= n,
            n == a@.len(),
            n == b@.len(),
            forall|j: int| 0 <= j < i ==> a@[j] == b@[j],
        decreases n - i,
    {
        if a.get_char(i) != b.get_char(i) {
            proof {
                assert(a@[i as int] != b@[i as int]);
            }
            return false;
        }
        i = i + 1;
    }
    proof {
        assert(a@ =~= b@);
    }
    true
}

/// Whether `p` matches `s` starting at character position `at`.
fn matches_at(s: &str, p: &str, at: usize) -> (r: bool)
    requires
        at + p@.len() <= s@.len(),
    ensures
        r == (s@.subrange(at as int, at + p@.len()) == p@),
{
    let n = s.unicode_len();
    let m = p.unicode_len();
    let mut i: usize = 0;
    while i < m
        invariant
            0 <= i <= m,
            m == p@.len(),
            n == s@.len(),
            at + m <= n,
            forall|j: int| 0 <= j < i ==> s@[at + j] == p@[j],
        decreases m - i,
    {
        if s.get_char(at + i) != p.get_char(i) {
            proof {
                assert(s@.subrange(at as int, at + p@.len())[i as int] != p@[i as int]);
            }
            return false;
        }
        i = i + 1;
    }
    proof {
        assert(s@.subrange(at as int, at + p@.len()) =~= p@);
    }
    true
}

/// Whether `p` is an initial segment of `s`.
pub fn starts_with(s: &str, p: &str) -> (r: bool)
    ensures
        r == is_prefix_of(p@, s@),
{
    let n = s.unicode_len();
    let m = p.unicode_len();
    if m > n {
        return false;
    }
    matches_at(s, p, 0)
}

/// Whether `p` is a final segment of `s`.
pub fn ends_with(s: &str, p: &str) -> (r: bool)
    ensures
        r == is_suffix_of(p@, s@),
{
    let n = s.unicode_len();
    let m = p.unicode_len();
    if m > n {
        return false;
    }
    matches_at(s, p, n - m)
}

/// Whether `p` occurs contiguously somewhere in `s`.
pub fn contains_str(s: &str, p: &str) -> (r: bool)
    ensures
        r == contains_seq(s@, p@),
{
    let n = s.unicode_len();
    let m = p.unicode_len();
    if m > n {
        return false;
    }
    if m == 0 {
        proof {
            assert(s@.subrange(0, 0 + p@.len() as int) =~= p@);
        }
        return true;
    }
    let mut i: usize = 0;
    while i < n - m + 1
        invariant
            0 <= i <= n - m + 1,
            1 <= m <= n,
            n == s@.len(),
            m == p@.len(),
            forall|j: int| 0 <= j < i ==> #[trigger] s@.subrange(j, j + p@.len()) != p@,
        decreases n - m + 1 - i,
    {
        if matches_at(s, p, i) {
            return true;
        }
        i = i + 1;
    }
    false
}

/// The character position of the first `c` in `s`, when there is one.
pub fn find_char(s: &str, c: char) -> (r: Option<usize>)
    ensures
        match r {
            Some(i) => s@.index_of_first(c) == Some(i as int),
            None => s@.index_of_first(c) is None,
        },
{
    let n = s.unicode_len();
    let mut i: usize = 0;
    while i < n
        invariant
            0 <= i <= n,
            n == s@.len(),
            forall|j: int| 0 <= j < i ==> s@[j] != c,
        decreases n - i,
    {
        if s.get_char(i) == c {
            proof {
                s@.index_of_first_ensures(c);
                assert(s@.contains(c));
                let k = s@.index_of_first(c)->0;
                assert(s@[k] == c);
                assert(k == i);
            }
            return Some(i);
        }
        i = i + 1;
    }
    proof {
        s@.index_of_first_ensures(c);
        if s@.contains(c) {
            let k = choose|k: int| 0 <= k < s@.len() && s@[k] == c;
            assert(s@[k] != c);
        }
    }
    None
}

} // verus!
