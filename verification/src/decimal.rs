//! Canonical decimal rendering of unsigned integers and its strict parser:
//! no sign, no leading zero, value within `u64`. The claims serializer
//! writes numbers with `u64_to_dec`; the claims parser reads them back with
//! `parse_u64_at`, and `lemma_parse_u64_at` is the round trip.

use vstd::prelude::*;
use crate::strutil::push_char;

verus! {

pub open spec fn spec_digit_char(d: int) -> char {
    if d == 0 {
        '0'
    } else if d == 1 {
        '1'
    } else if d == 2 {
        '2'
    } else if d == 3 {
        '3'
    } else if d == 4 {
        '4'
    } else if d == 5 {
        '5'
    } else if d == 6 {
        '6'
    } else if d == 7 {
        '7'
    } else if d == 8 {
        '8'
    } else {
        '9'
    }
}

/// The value of a digit character, or -1 for any other character.
pub open spec fn spec_digit_val(c: char) -> int {
    if c == '0' {
        0
    } else if c == '1' {
        1
    } else if c == '2' {
        2
    } else if c == '3' {
        3
    } else if c == '4' {
        4
    } else if c == '5' {
        5
    } else if c == '6' {
        6
    } else if c == '7' {
        7
    } else if c == '8' {
        8
    } else if c == '9' {
        9
    } else {
        -1
    }
}

pub open spec fn is_digit(c: char) -> bool {
    spec_digit_val(c) >= 0
}

pub open spec fn all_digits(s: Seq<char>) -> bool {
    forall|i: int| 0 <= i < s.len() ==> is_digit(s[i])
}

/// The canonical decimal rendering of `n`, most significant digit first.
pub open spec fn spec_dec(n: nat) -> Seq<char>
    decreases n,
{
    if n < 10 {
        seq![spec_digit_char(n as int)]
    } else {
        spec_dec(n / 10).push(spec_digit_char((n % 10) as int))
    }
}

/// The numeric value of a digit string.
pub open spec fn spec_dec_val(s: Seq<char>) -> int
    decreases s.len(),
{
    if s.len() == 0 {
        0
    } else {
        spec_dec_val(s.drop_last()) * 10 + spec_digit_val(s.last())
    }
}

/// The canonical rendering is non-empty, all digits, has no leading zero,
/// and evaluates back to `n`.
pub proof fn lemma_dec_props(n: nat)
    ensures
        spec_dec(n).len() >= 1,
        all_digits(spec_dec(n)),
        spec_dec(n).len() > 1 ==> spec_dec(n)[0] != '0',
        n == 0 ==> spec_dec(n) == seq!['0'],
        n > 0 ==> spec_dec(n)[0] != '0',
        spec_dec_val(spec_dec(n)) == n,
    decreases n,
{
    if n < 10 {
        assert(spec_dec(n) =~= seq![spec_digit_char(n as int)]);
        assert(spec_dec(n).drop_last() =~= Seq::<char>::empty());
        assert(spec_dec_val(Seq::<char>::empty()) == 0);
        assert(spec_dec(n).last() == spec_digit_char(n as int));
        assert(spec_dec_val(spec_dec(n)) == 0 * 10 + spec_digit_val(spec_digit_char(n as int)));
    } else {
        lemma_dec_props(n / 10);
        let pre = spec_dec(n / 10);
        let d = spec_digit_char((n % 10) as int);
        assert(spec_dec(n) == pre.push(d));
        assert(pre.push(d).drop_last() =~= pre);
        assert(pre.push(d).last() == d);
        assert(spec_dec_val(spec_dec(n)) == spec_dec_val(pre) * 10 + spec_digit_val(d));
        assert(spec_dec_val(pre) == n / 10);
        assert(spec_digit_val(d) == n % 10);
        assert(n / 10 * 10 + n % 10 == n) by {
            vstd::arithmetic::div_mod::lemma_fundamental_div_mod(n as int, 10);
        }
        assert(spec_dec(n)[0] == pre[0]);
        assert(n / 10 > 0);
        assert(forall|i: int|
            0 <= i < spec_dec(n).len() ==> is_digit(#[trigger] spec_dec(n)[i])) by {
            assert(forall|i: int| 0 <= i < pre.len() ==> is_digit(#[trigger] pre[i]));
            assert(spec_dec(n)[pre.len() as int] == d);
        }
    }
}

pub open spec fn spec_digits_end(s: Seq<char>, i: int) -> int
    decreases s.len() - i
    when 0 <= i <= s.len()
{
    if i >= s.len() || !is_digit(s[i]) {
        i
    } else {
        spec_digits_end(s, i + 1)
    }
}

pub proof fn lemma_digits_end(s: Seq<char>, i: int)
    requires
        0 <= i <= s.len(),
    ensures
        i <= spec_digits_end(s, i) <= s.len(),
        forall|k: int| i <= k < spec_digits_end(s, i) ==> is_digit(s[k]),
        spec_digits_end(s, i) < s.len() ==> !is_digit(s[spec_digits_end(s, i)]),
    decreases s.len() - i,
{
    if i < s.len() && is_digit(s[i]) {
        lemma_digits_end(s, i + 1);
    }
}

pub proof fn lemma_digits_end_is(s: Seq<char>, i: int, j: int)
    requires
        0 <= i <= j <= s.len(),
        forall|k: int| i <= k < j ==> is_digit(s[k]),
        j == s.len() || !is_digit(s[j]),
    ensures
        spec_digits_end(s, i) == j,
    decreases j - i,
{
    if i < j {
        lemma_digits_end_is(s, i + 1, j);
    }
}

/// Strict parse of a decimal number starting at `i`: at least one digit, no
/// leading zero, value within `u64`; yields the value and the index after
/// the digit run.
pub open spec fn spec_parse_u64(s: Seq<char>, i: int) -> Option<(u64, int)> {
    let e = spec_digits_end(s, i);
    if e == i {
        None
    } else if s[i] == '0' && e > i + 1 {
        None
    } else if spec_dec_val(s.subrange(i, e)) > u64::MAX {
        None
    } else {
        Some((spec_dec_val(s.subrange(i, e)) as u64, e))
    }
}

pub proof fn lemma_dec_val_nonneg(s: Seq<char>)
    requires
        all_digits(s),
    ensures
        spec_dec_val(s) >= 0,
    decreases s.len(),
{
    if s.len() > 0 {
        assert(all_digits(s.drop_last()));
        lemma_dec_val_nonneg(s.drop_last());
    }
}

/// A longer digit run never has a smaller value.
pub proof fn lemma_dec_val_take_mono(s: Seq<char>, j: int)
    requires
        all_digits(s),
        0 <= j <= s.len(),
    ensures
        spec_dec_val(s) >= spec_dec_val(s.take(j)),
    decreases s.len() - j,
{
    if j == s.len() {
        assert(s.take(j) =~= s);
    } else {
        lemma_dec_val_take_mono(s, j + 1);
        assert(s.take(j + 1).drop_last() =~= s.take(j));
        assert(all_digits(s.take(j)));
        lemma_dec_val_nonneg(s.take(j));
        assert(spec_dec_val(s.take(j + 1)) == spec_dec_val(s.take(j)) * 10 + spec_digit_val(
            s.take(j + 1).last(),
        ));
    }
}

/// Round trip: parsing at the start of a canonical rendering, followed by a
/// non-digit or the end of the input, yields the original value.
pub proof fn lemma_parse_u64_at(s: Seq<char>, i: int, n: u64)
    requires
        0 <= i,
        i + spec_dec(n as nat).len() <= s.len(),
        s.subrange(i, i + spec_dec(n as nat).len()) == spec_dec(n as nat),
        i + spec_dec(n as nat).len() == s.len() || !is_digit(
            s[i + spec_dec(n as nat).len()],
        ),
    ensures
        spec_parse_u64(s, i) == Some((n, i + spec_dec(n as nat).len())),
{
    lemma_dec_props(n as nat);
    let d = spec_dec(n as nat);
    let e = i + d.len();
    assert(forall|k: int| i <= k < e ==> is_digit(s[k])) by {
        assert(forall|k: int| i <= k < e ==> s[k] == d[k - i]);
    }
    lemma_digits_end_is(s, i, e);
    assert(s[i] == d[0]);
    assert(s.subrange(i, e) =~= d);
}

fn digit_char(d: u64) -> (c: char)
    requires
        d < 10,
    ensures
        c == spec_digit_char(d as int),
{
    if d == 0 {
        '0'
    } else if d == 1 {
        '1'
    } else if d == 2 {
        '2'
    } else if d == 3 {
        '3'
    } else if d == 4 {
        '4'
    } else if d == 5 {
        '5'
    } else if d == 6 {
        '6'
    } else if d == 7 {
        '7'
    } else if d == 8 {
        '8'
    } else {
        '9'
    }
}

fn is_digit_char(c: char) -> (r: bool)
    ensures
        r == is_digit(c),
{
    c == '0' || c == '1' || c == '2' || c == '3' || c == '4' || c == '5' || c == '6' || c == '7'
        || c == '8' || c == '9'
}

fn digit_val(c: char) -> (d: u64)
    requires
        is_digit(c),
    ensures
        d == spec_digit_val(c),
{
    if c == '0' {
        0
    } else if c == '1' {
        1
    } else if c == '2' {
        2
    } else if c == '3' {
        3
    } else if c == '4' {
        4
    } else if c == '5' {
        5
    } else if c == '6' {
        6
    } else if c == '7' {
        7
    } else if c == '8' {
        8
    } else {
        9
    }
}

/// Renders `n` in canonical decimal.
pub fn u64_to_dec(n: u64) -> (r: String)
    ensures
        r@ == spec_dec(n as nat),
    decreases n,
{
    if n < 10 {
        let mut s = String::new();
        push_char(&mut s, digit_char(n));
        assert(s@ =~= seq![spec_digit_char(n as int)]);
        s
    } else {
        let mut s = u64_to_dec(n / 10);
        push_char(&mut s, digit_char(n % 10));
        s
    }
}

/// Parses a canonical decimal number at position `i` of `s`.
pub fn parse_u64_at(s: &str, i: usize) -> (r: Option<(u64, usize)>)
    requires
        i <= s@.len(),
    ensures
        match r {
            Some(v) => spec_parse_u64(s@, i as int) == Some((v.0, v.1 as int)),
            None => spec_parse_u64(s@, i as int) is None,
        },
{
    let n = s.unicode_len();
    let mut e = i;
    while e < n && is_digit_char(s.get_char(e))
        invariant
            i <= e <= n,
            n == s@.len(),
            forall|k: int| i <= k < e ==> is_digit(s@[k]),
        decreases n - e,
    {
        e += 1;
    }
    proof {
        lemma_digits_end_is(s@, i as int, e as int);
    }
    if e == i {
        return None;
    }
    if s.get_char(i) == '0' && e > i + 1 {
        return None;
    }
    let ghost whole = s@.subrange(i as int, e as int);
    let mut acc: u64 = 0;
    let mut j = i;
    while j < e
        invariant
            i <= j <= e <= n,
            i < e,
            n == s@.len(),
            forall|k: int| i <= k < e ==> is_digit(s@[k]),
            spec_digits_end(s@, i as int) == e,
            !(s@[i as int] == '0' && e > i + 1),
            whole == s@.subrange(i as int, e as int),
            acc == spec_dec_val(s@.subrange(i as int, j as int)),
        decreases e - j,
    {
        let d = digit_val(s.get_char(j));
        let ghost sofar = s@.subrange(i as int, j as int);
        let ghost next = s@.subrange(i as int, j + 1);
        assert(next.drop_last() =~= sofar);
        assert(next.last() == s@[j as int]);
        let step = match acc.checked_mul(10) {
            Some(m) => m.checked_add(d),
            None => None,
        };
        match step {
            Some(v) => {
                acc = v;
            },
            None => {
                proof {
                    assert(all_digits(whole));
                    lemma_dec_val_nonneg(sofar);
                    assert(spec_dec_val(next) == acc * 10 + d);
                    assert(spec_dec_val(next) > u64::MAX);
                    lemma_dec_val_take_mono(whole, j + 1 - i);
                    assert(whole.take(j + 1 - i) =~= next);
                }
                return None;
            },
        }
        j += 1;
    }
    assert(s@.subrange(i as int, j as int) =~= whole);
    Some((acc, e))
}

} // verus!
