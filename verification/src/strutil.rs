//! Character-level scanning helpers shared by the path matcher, the token
//! codec and the claims parser.

use vstd::prelude::*;

verus! {

/// First index at or after `i` holding `c`, or the length of `s` if none does.
pub open spec fn spec_find(s: Seq<char>, i: int, c: char) -> int
    decreases s.len() - i
    when 0 <= i <= s.len()
{
    if i >= s.len() || s[i] == c {
        i
    } else {
        spec_find(s, i + 1, c)
    }
}

pub proof fn lemma_find(s: Seq<char>, i: int, c: char)
    requires
        0 <= i <= s.len(),
    ensures
        i <= spec_find(s, i, c) <= s.len(),
        forall|k: int| i <= k < spec_find(s, i, c) ==> s[k] != c,
        spec_find(s, i, c) < s.len() ==> s[spec_find(s, i, c)] == c,
    decreases s.len() - i,
{
    if i < s.len() && s[i] != c {
        lemma_find(s, i + 1, c);
    }
}

pub proof fn lemma_find_is(s: Seq<char>, i: int, j: int, c: char)
    requires
        0 <= i <= j <= s.len(),
        forall|k: int| i <= k < j ==> s[k] != c,
        j == s.len() || s[j] == c,
    ensures
        spec_find(s, i, c) == j,
    decreases j - i,
{
    if i < j {
        lemma_find_is(s, i + 1, j, c);
    }
}

pub fn find_char(s: &str, i: usize, c: char) -> (r: usize)
    requires
        i <= s@.len(),
    ensures
        r == spec_find(s@, i as int, c),
{
    let n = s.unicode_len();
    let mut j = i;
    while j < n
        invariant
            i <= j <= n,
            n == s@.len(),
            forall|k: int| i <= k < j ==> s@[k] != c,
        decreases n - j,
    {
        if s.get_char(j) == c {
            proof {
                lemma_find_is(s@, i as int, j as int, c);
            }
            return j;
        }
        j += 1;
    }
    proof {
        lemma_find_is(s@, i as int, n as int, c);
    }
    n
}

/// `lit` occurs in `s` starting at position `i`.
pub open spec fn spec_match_at(s: Seq<char>, i: int, lit: Seq<char>) -> bool {
    &&& 0 <= i
    &&& i + lit.len() <= s.len()
    &&& s.subrange(i, i + lit.len()) == lit
}

pub fn match_at(s: &str, i: usize, lit: &str) -> (r: bool)
    ensures
        r == spec_match_at(s@, i as int, lit@),
{
    let n = s.unicode_len();
    let m = lit.unicode_len();
    if i > n || m > n - i {
        return false;
    }
    let mut j: usize = 0;
    while j < m
        invariant
            0 <= j <= m,
            i + m <= n,
            n == s@.len(),
            m == lit@.len(),
            forall|k: int| 0 <= k < j ==> s@[i + k] == lit@[k],
        decreases m - j,
    {
        if s.get_char(i + j) != lit.get_char(j) {
            proof {
                assert(s@.subrange(i as int, i + m)[j as int] != lit@[j as int]);
            }
            return false;
        }
        j += 1;
    }
    proof {
        assert(s@.subrange(i as int, i + m) =~= lit@);
    }
    true
}

pub fn str_eq(a: &str, b: &str) -> (r: bool)
    ensures
        r == (a@ == b@),
{
    let la = a.unicode_len();
    let lb = b.unicode_len();
    if la != lb {
        return false;
    }
    let r = match_at(a, 0, b);
    proof {
        assert(a@.subrange(0, lb as int) =~= a@);
    }
    r
}

/// Relies on `String::push`: appends one character at the end of the string.
#[verifier::external_body]
pub(crate) fn push_char(s: &mut String, c: char)
    ensures
        final(s)@ == old(s)@.push(c),
{
    s.push(c);
}

} // verus!
