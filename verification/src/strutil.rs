//! Character-level string helpers used by path classification: first/last
//! occurrence search, equality, and removal of every occurrence of a pattern.

use vstd::prelude::*;
use vstd::string::*;

verus! {

/// Index of the first occurrence of `c` in `s` at or after `from`.
pub open spec fn find_from(s: Seq<char>, from: int, c: char) -> Option<int>
    decreases s.len() - from,
{
    if from < 0 || from >= s.len() {
        None
    } else if s[from] == c {
        Some(from)
    } else {
        find_from(s, from + 1, c)
    }
}

/// Index of the last occurrence of `c` in `s` strictly before `upto`.
pub open spec fn rfind_before(s: Seq<char>, upto: int, c: char) -> Option<int>
    decreases upto,
{
    if upto <= 0 || upto > s.len() {
        None
    } else if s[upto - 1] == c {
        Some(upto - 1)
    } else {
        rfind_before(s, upto - 1, c)
    }
}

/// `s` with every occurrence of `pat` removed, scanning left to right and
/// never rescanning removed text: the semantics of a textual replace of
/// `pat` by the empty string.
pub open spec fn strip_occurrences(s: Seq<char>, pat: Seq<char>) -> Seq<char>
    decreases s.len(),
{
    if pat.len() == 0 || s.len() == 0 {
        s
    } else if s.len() >= pat.len() && s.subrange(0, pat.len() as int) == pat {
        strip_occurrences(s.subrange(pat.len() as int, s.len() as int), pat)
    } else {
        seq![s[0]] + strip_occurrences(s.subrange(1, s.len() as int), pat)
    }
}

/// The mathematical image of an optional index.
pub open spec fn opt_index(o: Option<usize>) -> Option<int> {
    match o {
        Some(i) => Some(i as int),
        None => None,
    }
}

/// First occurrence of `c` in `s` at or after `from`.
pub fn find_char_from(s: &str, from: usize, c: char) -> (r: Option<usize>)
    requires
        from <= s@.len(),
    ensures
        opt_index(r) == find_from(s@, from as int, c),
        r matches Some(i) ==> from <= i < s@.len() && s@[i as int] == c,
{
    let n = s.unicode_len();
    let mut i: usize = from;
    while i < n
        invariant
            from <= i <= n,
            n == s@.len(),
            find_from(s@, from as int, c) == find_from(s@, i as int, c),
        decreases n - i,
    {
        if s.get_char(i) == c {
            return Some(i);
        }
        i = i + 1;
    }
    None
}

/// Last occurrence of `c` in `s`.
pub fn rfind_char(s: &str, c: char) -> (r: Option<usize>)
    ensures
        opt_index(r) == rfind_before(s@, s@.len() as int, c),
        r matches Some(i) ==> i < s@.len() && s@[i as int] == c,
{
    let mut i: usize = s.unicode_len();
    while i > 0
        invariant
            i <= s@.len(),
            rfind_before(s@, s@.len() as int, c) == rfind_before(s@, i as int, c),
        decreases i,
    {
        i = i - 1;
        if s.get_char(i) == c {
            return Some(i);
        }
    }
    None
}

/// Character-wise string equality.
pub fn str_eq(a: &str, b: &str) -> (r: bool)
    ensures
        r == (a@ == b@),
{
    let n = a.unicode_len();
    let m = b.unicode_len();
    if n != m {
        return false;
    }
    let mut j: usize = 0;
    while j < n
        invariant
            j <= n,
            n == a@.len(),
            n == b@.len(),
            forall|k: int| 0 <= k < j ==> a@[k] == b@[k],
        decreases n - j,
    {
        if a.get_char(j) != b.get_char(j) {
            return false;
        }
        j = j + 1;
    }
    proof {
        assert(a@ =~= b@);
    }
    true
}

/// Whether `pat` occurs in `s` starting at index `i`.
pub fn matches_at(s: &str, i: usize, pat: &str) -> (b: bool)
    requires
        i + pat@.len() <= s@.len(),
    ensures
        b == (s@.subrange(i as int, i as int + pat@.len() as int) == pat@),
{
    let n = s.unicode_len();
    let m = pat.unicode_len();
    let ghost sub = s@.subrange(i as int, i as int + m as int);
    let mut j: usize = 0;
    while j < m
        invariant
            j <= m,
            m == pat@.len(),
            n == s@.len(),
            i + m <= n,
            sub == s@.subrange(i as int, i as int + m as int),
            forall|k: int| 0 <= k < j ==> s@[i + k] == pat@[k],
        decreases m - j,
    {
        if s.get_char(i + j) != pat.get_char(j) {
            proof {
                assert(sub[j as int] == s@[i + j]);
            }
            return false;
        }
        j = j + 1;
    }
    proof {
        assert(sub =~= pat@);
    }
    true
}

/// `s` with every occurrence of `pat` removed, left to right.
pub fn remove_all(s: &str, pat: &str) -> (r: String)
    requires
        pat@.len() >= 1,
    ensures
        r@ == strip_occurrences(s@, pat@),
{
    let n = s.unicode_len();
    let m = pat.unicode_len();
    let mut out = String::new();
    let mut i: usize = 0;
    proof {
        assert(s@.subrange(0, n as int) =~= s@);
        assert(out@ + strip_occurrences(s@, pat@) =~= strip_occurrences(s@, pat@));
    }
    while i < n
        invariant
            i <= n,
            n == s@.len(),
            m == pat@.len(),
            m >= 1,
            out@ + strip_occurrences(s@.subrange(i as int, n as int), pat@)
                == strip_occurrences(s@, pat@),
        decreases n - i,
    {
        let ghost rest = s@.subrange(i as int, n as int);
        if n - i >= m && matches_at(s, i, pat) {
            proof {
                assert(rest.subrange(0, m as int) =~= s@.subrange(i as int, i as int + m as int));
                assert(rest.subrange(m as int, rest.len() as int)
                    =~= s@.subrange(i as int + m as int, n as int));
                assert(strip_occurrences(rest, pat@)
                    == strip_occurrences(s@.subrange(i as int + m as int, n as int), pat@));
            }
            i = i + m;
        } else {
            let ch = s.substring_char(i, i + 1);
            proof {
                if rest.len() >= m && rest.subrange(0, m as int) == pat@ {
                    assert(rest.subrange(0, m as int)
                        =~= s@.subrange(i as int, i as int + m as int));
                    assert(false);
                }
                assert(rest.subrange(1, rest.len() as int)
                    =~= s@.subrange(i as int + 1, n as int));
                assert(seq![rest[0]] =~= ch@);
                assert(strip_occurrences(rest, pat@)
                    == ch@ + strip_occurrences(s@.subrange(i as int + 1, n as int), pat@));
                assert((out@ + ch@) + strip_occurrences(s@.subrange(i as int + 1, n as int), pat@)
                    =~= out@ + strip_occurrences(rest, pat@));
            }
            out.append(ch);
            i = i + 1;
        }
    }
    proof {
        assert(s@.subrange(n as int, n as int) =~= Seq::<char>::empty());
        assert(out@ + strip_occurrences(s@.subrange(n as int, n as int), pat@) =~= out@);
    }
    out
}

} // verus!
