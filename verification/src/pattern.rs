//! Wildcard endpoint pattern matching: an allow-list entry pairs a set of
//! HTTP methods with an ordered list of path segment matchers, where a
//! matcher is either a literal segment or a single-segment wildcard.

use vstd::prelude::*;
use crate::strutil::{spec_find, lemma_find, find_char, push_char};

verus! {

/// HTTP method of a request or of an endpoint pattern.
#[derive(Clone, Copy, PartialEq, Eq, Structural, Debug)]
pub enum Method {
    Get,
    Post,
    Put,
    Delete,
    Options,
    Head,
    Patch,
}

/// One position of an endpoint pattern: a literal path segment or a
/// single-segment wildcard.
pub enum PatternSeg {
    Literal(String),
    Wildcard,
}

/// An endpoint allow-list entry: the methods it declares and its segment
/// pattern.
pub struct EndpointPattern {
    pub methods: Vec<Method>,
    pub segments: Vec<PatternSeg>,
}

/// The request path as a sequence of segment contents.
pub open spec fn path_view(path: Seq<String>) -> Seq<Seq<char>> {
    path.map_values(|s: String| s@)
}

pub open spec fn seg_matches(p: PatternSeg, s: Seq<char>) -> bool {
    match p {
        PatternSeg::Wildcard => true,
        PatternSeg::Literal(l) => l@ == s,
    }
}

/// A pattern matches a request when the request's method is declared (or the
/// request is an OPTIONS preflight and `options_any` holds), the segment
/// counts are equal, and every position matches: a true conjunction over all
/// segments.
pub open spec fn spec_pattern_matches(
    pat: EndpointPattern,
    m: Method,
    path: Seq<Seq<char>>,
    options_any: bool,
) -> bool {
    &&& pat.methods@.contains(m) || (options_any && m == Method::Options)
    &&& pat.segments@.len() == path.len()
    &&& forall|i: int| 0 <= i < path.len() ==> seg_matches(pat.segments@[i], path[i])
}

/// Some pattern of the list matches the request.
pub open spec fn spec_any_matches(
    pats: Seq<EndpointPattern>,
    m: Method,
    path: Seq<Seq<char>>,
    options_any: bool,
) -> bool {
    exists|j: int| 0 <= j < pats.len() && spec_pattern_matches(pats[j], m, path, options_any)
}

fn method_in(methods: &Vec<Method>, m: Method) -> (r: bool)
    ensures
        r == methods@.contains(m),
{
    let mut i: usize = 0;
    while i < methods.len()
        invariant
            0 <= i <= methods@.len(),
            forall|k: int| 0 <= k < i ==> methods@[k] != m,
        decreases methods@.len() - i,
    {
        if methods[i] == m {
            assert(methods@.contains(m));
            return true;
        }
        i += 1;
    }
    false
}

fn seg_eq(p: &PatternSeg, s: &String) -> (r: bool)
    ensures
        r == seg_matches(*p, s@),
{
    match p {
        PatternSeg::Wildcard => {
            true
        },
        PatternSeg::Literal(l) => *l == *s,
    }
}

/// Whether one endpoint pattern matches the request.
pub fn pattern_matches(pat: &EndpointPattern, m: Method, path: &Vec<String>, options_any: bool) -> (r:
    bool)
    ensures
        r == spec_pattern_matches(*pat, m, path_view(path@), options_any),
{
    let method_ok = method_in(&pat.methods, m) || (options_any && m == Method::Options);
    if !method_ok {
        return false;
    }
    if pat.segments.len() != path.len() {
        return false;
    }
    let mut i: usize = 0;
    while i < path.len()
        invariant
            0 <= i <= path@.len(),
            pat.segments@.len() == path@.len(),
            forall|k: int| 0 <= k < i ==> seg_matches(pat.segments@[k], path_view(path@)[k]),
        decreases path@.len() - i,
    {
        if !seg_eq(&pat.segments[i], &path[i]) {
            assert(!seg_matches(pat.segments@[i as int], path_view(path@)[i as int]));
            return false;
        }
        i += 1;
    }
    true
}

/// Whether any pattern of the allow-list matches the request.
pub fn any_matches(pats: &Vec<EndpointPattern>, m: Method, path: &Vec<String>, options_any: bool) -> (r:
    bool)
    ensures
        r == spec_any_matches(pats@, m, path_view(path@), options_any),
{
    let mut j: usize = 0;
    while j < pats.len()
        invariant
            0 <= j <= pats@.len(),
            forall|k: int| 0 <= k < j ==> !spec_pattern_matches(pats@[k], m, path_view(path@), options_any),
        decreases pats@.len() - j,
    {
        if pattern_matches(&pats[j], m, path, options_any) {
            return true;
        }
        j += 1;
    }
    false
}

/// Path splitting: the segments between `/` separators, empty segments
/// dropped, accumulated left to right.
pub open spec fn spec_split_acc(s: Seq<char>, i: int, cur: Seq<char>) -> Seq<Seq<char>>
    decreases s.len() - i
    when 0 <= i <= s.len()
{
    if i >= s.len() {
        if cur.len() == 0 {
            Seq::empty()
        } else {
            seq![cur]
        }
    } else if s[i] == '/' {
        if cur.len() == 0 {
            spec_split_acc(s, i + 1, Seq::empty())
        } else {
            seq![cur] + spec_split_acc(s, i + 1, Seq::empty())
        }
    } else {
        spec_split_acc(s, i + 1, cur.push(s[i]))
    }
}

/// The segments of a path string, in order, empty segments dropped:
/// `"/v1/users"` splits into `["v1", "users"]`.
pub open spec fn spec_split_path(s: Seq<char>) -> Seq<Seq<char>> {
    spec_split_acc(s, 0, Seq::empty())
}

/// Splits a raw request path into its segments.
pub fn split_path(s: &str) -> (r: Vec<String>)
    ensures
        path_view(r@) == spec_split_path(s@),
{
    let n = s.unicode_len();
    let mut out: Vec<String> = Vec::new();
    let mut cur: String = String::new();
    let mut i: usize = 0;
    while i < n
        invariant
            0 <= i <= n,
            n == s@.len(),
            spec_split_path(s@) == path_view(out@) + spec_split_acc(s@, i as int, cur@),
        decreases n - i,
    {
        let c = s.get_char(i);
        if c == '/' {
            if !cur.as_str().is_empty() {
                let ghost prev = out@;
                out.push(cur);
                cur = String::new();
                assert(path_view(out@) =~= path_view(prev) + seq![out@[prev.len() as int]@]);
            } else {
                cur = String::new();
            }
        } else {
            push_char(&mut cur, c);
        }
        i += 1;
    }
    if !cur.as_str().is_empty() {
        let ghost prev = out@;
        out.push(cur);
        assert(path_view(out@) =~= path_view(prev) + seq![out@[prev.len() as int]@]);
    }
    assert(path_view(out@) =~= path_view(out@) + Seq::<Seq<char>>::empty());
    out
}

/// What `parse_pattern` makes of one path segment: a leading `:` declares a
/// wildcard, anything else is a literal.
pub open spec fn spec_seg_pattern(seg: Seq<char>, p: PatternSeg) -> bool {
    if seg.len() > 0 && seg[0] == ':' {
        p is Wildcard
    } else {
        match p {
            PatternSeg::Literal(l) => l@ == seg,
            PatternSeg::Wildcard => false,
        }
    }
}

/// Builds an endpoint pattern from a method list and a path template such as
/// `"/v1/users/:id"`.
pub fn parse_pattern(methods: Vec<Method>, path: &str) -> (p: EndpointPattern)
    ensures
        p.methods == methods,
        p.segments@.len() == spec_split_path(path@).len(),
        forall|i: int|
            0 <= i < p.segments@.len() ==> spec_seg_pattern(spec_split_path(path@)[i], p.segments@[i]),
{
    let segs = split_path(path);
    let mut out: Vec<PatternSeg> = Vec::new();
    let mut i: usize = 0;
    while i < segs.len()
        invariant
            0 <= i <= segs@.len(),
            out@.len() == i,
            path_view(segs@) == spec_split_path(path@),
            forall|k: int| 0 <= k < i ==> spec_seg_pattern(spec_split_path(path@)[k], out@[k]),
        decreases segs@.len() - i,
    {
        let sref = &segs[i];
        let wild = !sref.as_str().is_empty() && sref.as_str().get_char(0) == ':';
        if wild {
            out.push(PatternSeg::Wildcard);
        } else {
            out.push(PatternSeg::Literal(sref.clone()));
        }
        assert(spec_split_path(path@)[i as int] == segs@[i as int]@);
        i += 1;
    }
    EndpointPattern { methods, segments: out }
}

} // verus!
