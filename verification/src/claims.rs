//! Session claims and their wire form: a canonical JSON object
//! `{"id":..,"name":"..","admin":..,"iat":..,"exp":..}`. The serializer and
//! the strict parser are verified against each other: parsing a serialized
//! claims value gives back exactly that value.

use vstd::prelude::*;
use crate::decimal::{
    is_digit, lemma_digits_end, lemma_parse_u64_at, parse_u64_at, spec_dec, spec_parse_u64,
    u64_to_dec,
};
use crate::strutil::{match_at, push_char, spec_match_at};

verus! {

/// A stored user record, as the external store hands it back.
#[derive(Clone, Debug, PartialEq, Eq)]
pub struct User {
    pub id: u64,
    pub name: String,
    pub email: String,
    pub password: String,
    pub is_admin: bool,
}

/// The identity and expiry data embedded in a session token. Immutable once
/// issued; the token itself is the sole artifact of a session.
#[derive(Clone, Debug, PartialEq, Eq)]
pub struct SessionClaims {
    pub id: u64,
    pub name: String,
    pub admin: bool,
    pub iat: u64,
    pub exp: u64,
}

/// Mathematical model of session claims: the name as a character sequence.
pub struct ClaimsV {
    pub id: u64,
    pub name: Seq<char>,
    pub admin: bool,
    pub iat: u64,
    pub exp: u64,
}

impl View for SessionClaims {
    type V = ClaimsV;

    open spec fn view(&self) -> ClaimsV {
        ClaimsV { id: self.id, name: self.name@, admin: self.admin, iat: self.iat, exp: self.exp }
    }
}

pub open spec fn lit_obj_id() -> Seq<char> {
    "{\"id\":"@
}

pub open spec fn lit_name() -> Seq<char> {
    ",\"name\":\""@
}

pub open spec fn lit_quote() -> Seq<char> {
    "\""@
}

pub open spec fn lit_admin() -> Seq<char> {
    ",\"admin\":"@
}

pub open spec fn lit_iat() -> Seq<char> {
    ",\"iat\":"@
}

pub open spec fn lit_exp() -> Seq<char> {
    ",\"exp\":"@
}

pub open spec fn lit_close() -> Seq<char> {
    "}"@
}

pub open spec fn lit_true() -> Seq<char> {
    "true"@
}

pub open spec fn lit_false() -> Seq<char> {
    "false"@
}

/// JSON string escaping: a quote or a backslash in the name is preceded by a
/// backslash; every other character stands as itself.
pub open spec fn spec_esc(name: Seq<char>) -> Seq<char>
    decreases name.len(),
{
    if name.len() == 0 {
        Seq::empty()
    } else {
        (if name[0] == '"' || name[0] == '\\' {
            seq!['\\', name[0]]
        } else {
            seq![name[0]]
        }) + spec_esc(name.drop_first())
    }
}

pub proof fn lemma_esc_push(t: Seq<char>, c: char)
    ensures
        spec_esc(t.push(c)) == spec_esc(t) + (if c == '"' || c == '\\' {
            seq!['\\', c]
        } else {
            seq![c]
        }),
    decreases t.len(),
{
    let e1 = (if c == '"' || c == '\\' {
        seq!['\\', c]
    } else {
        seq![c]
    });
    if t.len() == 0 {
        assert(t.push(c).drop_first() =~= Seq::<char>::empty());
        assert(t.push(c)[0] == c);
        assert(spec_esc(Seq::<char>::empty()) == Seq::<char>::empty());
        assert(spec_esc(t.push(c)) == e1 + Seq::<char>::empty());
        assert(spec_esc(t.push(c)) =~= spec_esc(t) + e1);
    } else {
        lemma_esc_push(t.drop_first(), c);
        assert(t.push(c).drop_first() =~= t.drop_first().push(c));
        assert(t.push(c)[0] == t[0]);
        let h = (if t[0] == '"' || t[0] == '\\' {
            seq!['\\', t[0]]
        } else {
            seq![t[0]]
        });
        assert(spec_esc(t.push(c)) == h + (spec_esc(t.drop_first()) + e1));
        assert(h + (spec_esc(t.drop_first()) + e1) =~= (h + spec_esc(t.drop_first())) + e1);
    }
}

pub open spec fn spec_bool_str(b: bool) -> Seq<char> {
    if b {
        lit_true()
    } else {
        lit_false()
    }
}

/// The canonical wire form of a claims value.
pub open spec fn spec_ser_claims(c: ClaimsV) -> Seq<char> {
    lit_obj_id() + spec_dec(c.id as nat) + lit_name() + spec_esc(c.name) + lit_quote()
        + lit_admin() + spec_bool_str(c.admin) + lit_iat() + spec_dec(c.iat as nat) + lit_exp()
        + spec_dec(c.exp as nat) + lit_close()
}

/// Strict parse of a quoted-string body starting at `i` (after the opening
/// quote): only `\"` and `\\` escapes are understood; yields the unescaped
/// content and the index after the closing quote.
pub open spec fn spec_parse_str(s: Seq<char>, i: int) -> Option<(Seq<char>, int)>
    decreases s.len() - i
    when 0 <= i <= s.len()
{
    if i >= s.len() {
        None
    } else if s[i] == '"' {
        Some((Seq::empty(), i + 1))
    } else if s[i] == '\\' {
        if i + 1 < s.len() && (s[i + 1] == '"' || s[i + 1] == '\\') {
            match spec_parse_str(s, i + 2) {
                None => None,
                Some(p) => Some((seq![s[i + 1]] + p.0, p.1)),
            }
        } else {
            None
        }
    } else {
        match spec_parse_str(s, i + 1) {
            None => None,
            Some(p) => Some((seq![s[i]] + p.0, p.1)),
        }
    }
}

pub proof fn lemma_parse_str_bounds(s: Seq<char>, i: int)
    requires
        0 <= i <= s.len(),
    ensures
        match spec_parse_str(s, i) {
            Some(p) => i < p.1 <= s.len(),
            None => true,
        },
    decreases s.len() - i,
{
    if i < s.len() {
        if s[i] == '"' {
        } else if s[i] == '\\' {
            if i + 1 < s.len() && (s[i + 1] == '"' || s[i + 1] == '\\') {
                lemma_parse_str_bounds(s, i + 2);
            }
        } else {
            lemma_parse_str_bounds(s, i + 1);
        }
    }
}

/// Round trip for string bodies: parsing at the start of an escaped name
/// followed by the closing quote yields the original name.
pub proof fn lemma_parse_str_of_esc(s: Seq<char>, i: int, name: Seq<char>)
    requires
        0 <= i,
        i + spec_esc(name).len() + 1 <= s.len(),
        s.subrange(i, i + spec_esc(name).len()) == spec_esc(name),
        s[i + spec_esc(name).len()] == '"',
    ensures
        spec_parse_str(s, i) == Some((name, i + spec_esc(name).len() + 1)),
    decreases name.len(),
{
    let e = spec_esc(name);
    if name.len() == 0 {
        assert(s[i] == '"');
    } else {
        let c = name[0];
        let rest = name.drop_first();
        let erest = spec_esc(rest);
        if c == '"' || c == '\\' {
            assert(e == seq!['\\', c] + erest);
            assert(s[i] == e[0] && s[i + 1] == e[1]) by {
                assert(s.subrange(i, i + e.len())[0] == e[0]);
                assert(s.subrange(i, i + e.len())[1] == e[1]);
            }
            assert(s[i] == '\\');
            assert(s[i + 1] == c);
            assert forall|k: int| 0 <= k < erest.len() implies s.subrange(
                i + 2,
                i + 2 + erest.len(),
            )[k] == erest[k] by {
                assert(s.subrange(i, i + e.len())[k + 2] == e[k + 2]);
                assert(e[k + 2] == erest[k]);
            }
            assert(s.subrange(i + 2, i + 2 + erest.len()) =~= erest);
            lemma_parse_str_of_esc(s, i + 2, rest);
            assert(seq![c] + rest =~= name);
        } else {
            assert(e == seq![c] + erest);
            assert(s[i] == e[0]) by {
                assert(s.subrange(i, i + e.len())[0] == e[0]);
            }
            assert(s[i] == c);
            assert forall|k: int| 0 <= k < erest.len() implies s.subrange(
                i + 1,
                i + 1 + erest.len(),
            )[k] == erest[k] by {
                assert(s.subrange(i, i + e.len())[k + 1] == e[k + 1]);
                assert(e[k + 1] == erest[k]);
            }
            assert(s.subrange(i + 1, i + 1 + erest.len()) =~= erest);
            lemma_parse_str_of_esc(s, i + 1, rest);
            assert(seq![c] + rest =~= name);
        }
    }
}

pub open spec fn spec_parse_bool(s: Seq<char>, i: int) -> Option<(bool, int)> {
    if spec_match_at(s, i, lit_true()) {
        Some((true, i + lit_true().len()))
    } else if spec_match_at(s, i, lit_false()) {
        Some((false, i + lit_false().len()))
    } else {
        None
    }
}

/// Strict parse of the canonical claims object: exact field order, canonical
/// numbers, nothing before or after the object.
pub open spec fn spec_parse_claims(s: Seq<char>) -> Option<ClaimsV> {
    if !spec_match_at(s, 0, lit_obj_id()) {
        None
    } else {
        match spec_parse_u64(s, lit_obj_id().len() as int) {
            None => None,
            Some((id, j1)) => if !spec_match_at(s, j1, lit_name()) {
                None
            } else {
                match spec_parse_str(s, j1 + lit_name().len()) {
                    None => None,
                    Some((name, j2)) => if !spec_match_at(s, j2, lit_admin()) {
                        None
                    } else {
                        match spec_parse_bool(s, j2 + lit_admin().len()) {
                            None => None,
                            Some((admin, j3)) => if !spec_match_at(s, j3, lit_iat()) {
                                None
                            } else {
                                match spec_parse_u64(s, j3 + lit_iat().len()) {
                                    None => None,
                                    Some((iat, j4)) => if !spec_match_at(s, j4, lit_exp()) {
                                        None
                                    } else {
                                        match spec_parse_u64(s, j4 + lit_exp().len()) {
                                            None => None,
                                            Some((exp, j5)) => if spec_match_at(s, j5, lit_close())
                                                && j5 + lit_close().len() == s.len() {
                                                Some(
                                                    ClaimsV {
                                                        id,
                                                        name,
                                                        admin,
                                                        iat,
                                                        exp,
                                                    },
                                                )
                                            } else {
                                                None
                                            },
                                        }
                                    },
                                }
                            },
                        }
                    },
                }
            },
        }
    }
}

/// Round trip: strict parsing of the canonical wire form of any claims value
/// gives back exactly that value.
pub proof fn lemma_parse_of_ser(c: ClaimsV)
    ensures
        spec_parse_claims(spec_ser_claims(c)) == Some(c),
{
    let s = spec_ser_claims(c);
    let d_id = spec_dec(c.id as nat);
    let en = spec_esc(c.name);
    let b = spec_bool_str(c.admin);
    let d_iat = spec_dec(c.iat as nat);
    let d_exp = spec_dec(c.exp as nat);
    reveal_strlit("{\"id\":");
    reveal_strlit(",\"name\":\"");
    reveal_strlit("\"");
    reveal_strlit(",\"admin\":");
    reveal_strlit(",\"iat\":");
    reveal_strlit(",\"exp\":");
    reveal_strlit("}");
    reveal_strlit("true");
    reveal_strlit("false");
    let i0 = lit_obj_id().len() as int;
    let i1 = i0 + d_id.len();
    let i2 = i1 + lit_name().len();
    let i3 = i2 + en.len();
    let i4 = i3 + 1;
    let i5 = i4 + lit_admin().len();
    let i6 = i5 + b.len();
    let i7 = i6 + lit_iat().len();
    let i8 = i7 + d_iat.len();
    let i9 = i8 + lit_exp().len();
    let i10 = i9 + d_exp.len();
    assert(s.len() == i10 + 1);
    assert(s.subrange(0, i0) =~= lit_obj_id());
    assert(s.subrange(i0, i1) =~= d_id);
    assert(s.subrange(i1, i2) =~= lit_name());
    assert(s.subrange(i2, i3) =~= en);
    assert(s[i3] == '"');
    assert(s.subrange(i4, i5) =~= lit_admin());
    assert(s.subrange(i5, i6) =~= b);
    assert(s.subrange(i6, i7) =~= lit_iat());
    assert(s.subrange(i7, i8) =~= d_iat);
    assert(s.subrange(i8, i9) =~= lit_exp());
    assert(s.subrange(i9, i10) =~= d_exp);
    assert(s[i10] == '}');
    assert(s.subrange(i10, i10 + 1) =~= lit_close());
    assert(spec_match_at(s, 0, lit_obj_id()));
    assert(s[i1] == ',' && !is_digit(','));
    lemma_parse_u64_at(s, i0, c.id);
    assert(spec_match_at(s, i1, lit_name()));
    lemma_parse_str_of_esc(s, i2, c.name);
    assert(spec_match_at(s, i4, lit_admin()));
    if c.admin {
        assert(spec_match_at(s, i5, lit_true()));
        assert(spec_parse_bool(s, i5) == Some((true, i6)));
    } else {
        assert(s[i5] == 'f');
        assert(!spec_match_at(s, i5, lit_true())) by {
            if spec_match_at(s, i5, lit_true()) {
                assert(s.subrange(i5, i5 + lit_true().len())[0] == lit_true()[0]);
            }
        }
        assert(spec_match_at(s, i5, lit_false()));
        assert(spec_parse_bool(s, i5) == Some((false, i6)));
    }
    assert(spec_match_at(s, i6, lit_iat()));
    assert(s[i8] == ',' && !is_digit(','));
    lemma_parse_u64_at(s, i7, c.iat);
    assert(spec_match_at(s, i8, lit_exp()));
    assert(!is_digit('}'));
    lemma_parse_u64_at(s, i9, c.exp);
    assert(spec_match_at(s, i10, lit_close()));
    assert(i10 + lit_close().len() == s.len());
}

fn esc_str(name: &str) -> (r: String)
    ensures
        r@ == spec_esc(name@),
{
    let n = name.unicode_len();
    let mut out = String::new();
    let mut j: usize = 0;
    while j < n
        invariant
            0 <= j <= n,
            n == name@.len(),
            out@ == spec_esc(name@.take(j as int)),
        decreases n - j,
    {
        let ch = name.get_char(j);
        let ghost oldout = out@;
        if ch == '"' || ch == '\\' {
            push_char(&mut out, '\\');
            push_char(&mut out, ch);
            assert(out@ =~= oldout + seq!['\\', ch]);
        } else {
            push_char(&mut out, ch);
            assert(out@ =~= oldout + seq![ch]);
        }
        proof {
            lemma_esc_push(name@.take(j as int), name@[j as int]);
            assert(name@.take(j as int + 1) =~= name@.take(j as int).push(name@[j as int]));
        }
        j += 1;
    }
    assert(name@.take(n as int) =~= name@);
    out
}

/// Serializes session claims into their canonical wire form.
pub fn claims_json(c: &SessionClaims) -> (r: String)
    ensures
        r@ == spec_ser_claims(c@),
{
    let mut s = String::from_str("{\"id\":");
    s.append(u64_to_dec(c.id).as_str());
    s.append(",\"name\":\"");
    s.append(esc_str(c.name.as_str()).as_str());
    s.append("\"");
    s.append(",\"admin\":");
    if c.admin {
        s.append("true");
    } else {
        s.append("false");
    }
    s.append(",\"iat\":");
    s.append(u64_to_dec(c.iat).as_str());
    s.append(",\"exp\":");
    s.append(u64_to_dec(c.exp).as_str());
    s.append("}");
    s
}

pub open spec fn with_prefix(pre: Seq<char>, r: Option<(Seq<char>, int)>) -> Option<
    (Seq<char>, int),
> {
    match r {
        None => None,
        Some(p) => Some((pre + p.0, p.1)),
    }
}

proof fn lemma_with_prefix_id(r: Option<(Seq<char>, int)>)
    ensures
        with_prefix(Seq::empty(), r) == r,
{
    match r {
        None => {},
        Some(p) => {
            assert(Seq::<char>::empty() + p.0 =~= p.0);
        },
    }
}

proof fn lemma_with_prefix_assoc(a: Seq<char>, bs: Seq<char>, r: Option<(Seq<char>, int)>)
    ensures
        with_prefix(a, with_prefix(bs, r)) == with_prefix(a + bs, r),
{
    match r {
        None => {},
        Some(p) => {
            assert(a + (bs + p.0) =~= (a + bs) + p.0);
        },
    }
}

fn parse_str_at(s: &str, i: usize) -> (r: Option<(String, usize)>)
    requires
        i <= s@.len(),
    ensures
        match r {
            Some(p) => spec_parse_str(s@, i as int) == Some((p.0@, p.1 as int)),
            None => spec_parse_str(s@, i as int) is None,
        },
{
    let n = s.unicode_len();
    let mut out = String::new();
    let mut j = i;
    proof {
        lemma_with_prefix_id(spec_parse_str(s@, i as int));
    }
    loop
        invariant
            i <= j <= n,
            n == s@.len(),
            spec_parse_str(s@, i as int) == with_prefix(out@, spec_parse_str(s@, j as int)),
        decreases n - j,
    {
        if j == n {
            return None;
        }
        let ch = s.get_char(j);
        if ch == '"' {
            proof {
                assert(out@ + Seq::<char>::empty() =~= out@);
            }
            return Some((out, j + 1));
        } else if ch == '\\' {
            if j + 1 == n {
                return None;
            }
            let c2 = s.get_char(j + 1);
            if c2 == '"' || c2 == '\\' {
                let ghost oldout = out@;
                push_char(&mut out, c2);
                proof {
                    assert(spec_parse_str(s@, j as int) == with_prefix(
                        seq![c2],
                        spec_parse_str(s@, j as int + 2),
                    ));
                    lemma_with_prefix_assoc(oldout, seq![c2], spec_parse_str(s@, j as int + 2));
                    assert(oldout + seq![c2] =~= out@);
                }
                j += 2;
            } else {
                return None;
            }
        } else {
            let ghost oldout = out@;
            push_char(&mut out, ch);
            proof {
                assert(spec_parse_str(s@, j as int) == with_prefix(
                    seq![ch],
                    spec_parse_str(s@, j as int + 1),
                ));
                lemma_with_prefix_assoc(oldout, seq![ch], spec_parse_str(s@, j as int + 1));
                assert(oldout + seq![ch] =~= out@);
            }
            j += 1;
        }
    }
}

fn parse_bool_at(s: &str, i: usize) -> (r: Option<(bool, usize)>)
    ensures
        match r {
            Some(p) => spec_parse_bool(s@, i as int) == Some((p.0, p.1 as int)),
            None => spec_parse_bool(s@, i as int) is None,
        },
{
    let _bound = s.unicode_len();
    if match_at(s, i, "true") {
        let l = "true".unicode_len();
        Some((true, i + l))
    } else if match_at(s, i, "false") {
        let l = "false".unicode_len();
        Some((false, i + l))
    } else {
        None
    }
}

/// Strict parser of the canonical claims object.
pub fn parse_claims(s: &str) -> (r: Option<SessionClaims>)
    ensures
        match r {
            Some(c) => spec_parse_claims(s@) == Some(c@),
            None => spec_parse_claims(s@) is None,
        },
{
    let n = s.unicode_len();
    if !match_at(s, 0, "{\"id\":") {
        return None;
    }
    let l1 = "{\"id\":".unicode_len();
    let id;
    let p1;
    match parse_u64_at(s, l1) {
        Some(v) => {
            id = v.0;
            p1 = v.1;
        },
        None => {
            return None;
        },
    }
    proof {
        lemma_digits_end(s@, l1 as int);
    }
    if !match_at(s, p1, ",\"name\":\"") {
        return None;
    }
    let p2 = p1 + ",\"name\":\"".unicode_len();
    let name;
    let p3;
    proof {
        lemma_parse_str_bounds(s@, p2 as int);
    }
    match parse_str_at(s, p2) {
        Some(v) => {
            name = v.0;
            p3 = v.1;
        },
        None => {
            return None;
        },
    }
    if !match_at(s, p3, ",\"admin\":") {
        return None;
    }
    let p4 = p3 + ",\"admin\":".unicode_len();
    let admin;
    let p5;
    match parse_bool_at(s, p4) {
        Some(v) => {
            admin = v.0;
            p5 = v.1;
        },
        None => {
            return None;
        },
    }
    if !match_at(s, p5, ",\"iat\":") {
        return None;
    }
    let p6 = p5 + ",\"iat\":".unicode_len();
    let iat;
    let p7;
    match parse_u64_at(s, p6) {
        Some(v) => {
            iat = v.0;
            p7 = v.1;
        },
        None => {
            return None;
        },
    }
    proof {
        lemma_digits_end(s@, p6 as int);
    }
    if !match_at(s, p7, ",\"exp\":") {
        return None;
    }
    let p8 = p7 + ",\"exp\":".unicode_len();
    let exp;
    let p9;
    match parse_u64_at(s, p8) {
        Some(v) => {
            exp = v.0;
            p9 = v.1;
        },
        None => {
            return None;
        },
    }
    if !match_at(s, p9, "}") {
        return None;
    }
    if p9 + "}".unicode_len() != n {
        return None;
    }
    Some(SessionClaims { id, name, admin, iat, exp })
}

} // verus!
