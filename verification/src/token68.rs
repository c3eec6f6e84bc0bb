//! `token68` grammar for opaque `AAuth-Access` / `Authorization: AAuth` credentials.
use vstd::prelude::*;

use crate::error::HeaderError;
use crate::headers::{sub_vec, starts_with_exec, HeaderErrorView};
use crate::text::{
    chars_of, lemma_trim_noop, starts_with, strip_prefix, trim, trim_char_end, trim_range,
};

verus! {

/// `ALPHA / DIGIT / "-" / "." / "_" / "~" / "+" / "/"`.
pub open spec fn is_token68_char_spec(c: char) -> bool {
    ||| ('a' <= c && c <= 'z')
    ||| ('A' <= c && c <= 'Z')
    ||| ('0' <= c && c <= '9')
    ||| c == '-'
    ||| c == '.'
    ||| c == '_'
    ||| c == '~'
    ||| c == '+'
    ||| c == '/'
}

/// `token68 = 1*( ALPHA / DIGIT / "-" / "." / "_" / "~" / "+" / "/" ) *"="`.
pub open spec fn is_token68_spec(s: Seq<char>) -> bool {
    let body = trim_char_end(s, '=');
    body.len() > 0 && forall|i: int| 0 <= i < body.len() ==> is_token68_char_spec(#[trigger] body[i])
}

/// The credential carried by an `Authorization: AAuth <token68>` value, if well formed.
pub open spec fn aauth_credential(v: Seq<char>) -> Option<Seq<char>> {
    match strip_prefix(trim(v), "AAuth "@) {
        Some(t) => if is_token68_spec(t) {
            Some(t)
        } else {
            None
        },
        None => None,
    }
}

pub fn is_token68_char(b: u8) -> (r: bool)
    ensures
        r == is_token68_char_spec(b as char),
{
    (b >= 0x61 && b <= 0x7a) || (b >= 0x41 && b <= 0x5a) || (b >= 0x30 && b <= 0x39) || b == 0x2d
        || b == 0x2e || b == 0x5f || b == 0x7e || b == 0x2b || b == 0x2f
}

/// `c` is a `token68` body character.
fn is_token68_char_c(c: char) -> (r: bool)
    ensures
        r == is_token68_char_spec(c),
{
    ('a' <= c && c <= 'z') || ('A' <= c && c <= 'Z') || ('0' <= c && c <= '9') || c == '-' || c
        == '.' || c == '_' || c == '~' || c == '+' || c == '/'
}

/// `v[from..to]` is a `token68`.
fn token68_range(v: &Vec<char>, from: usize, to: usize) -> (r: bool)
    requires
        from <= to <= v.len(),
    ensures
        r == is_token68_spec(v@.subrange(from as int, to as int)),
{
    let ghost s = v@.subrange(from as int, to as int);
    let mut e = to;
    while e > from && v[e - 1] == '='
        invariant
            from <= e <= to <= v.len(),
            s == v@.subrange(from as int, to as int),
            trim_char_end(s, '=') == trim_char_end(v@.subrange(from as int, e as int), '='),
        decreases e - from,
    {
        assert(v@.subrange(from as int, e as int).subrange(0, e - 1 - from) =~= v@.subrange(
            from as int,
            e - 1,
        ));
        e = e - 1;
    }
    let ghost body = v@.subrange(from as int, e as int);
    proof {
        if e > from {
            assert(body[body.len() - 1] == v@[e - 1]);
        }
        assert(trim_char_end(body, '=') == body);
    }
    if e == from {
        return false;
    }
    let mut i = from;
    while i < e
        invariant
            from <= i <= e <= to <= v.len(),
            body == v@.subrange(from as int, e as int),
            s == v@.subrange(from as int, to as int),
            trim_char_end(s, '=') == body,
            forall|k: int| 0 <= k < i - from ==> is_token68_char_spec(#[trigger] body[k]),
        decreases e - i,
    {
        if !is_token68_char_c(v[i]) {
            assert(body[i - from] == v@[i as int]);
            return false;
        }
        assert(body[i - from] == v@[i as int]);
        i = i + 1;
    }
    true
}

/// RFC 9110 `token68`.
pub fn is_token68(s: &str) -> (r: bool)
    ensures
        r == is_token68_spec(s@),
{
    let v = chars_of(s);
    proof {
        assert(v@.subrange(0, v@.len() as int) =~= v@);
    }
    token68_range(&v, 0, v.len())
}

/// Parse `Authorization: AAuth <token68>`: a single credential only.
pub fn parse_aauth_credential(authorization_value: &str) -> (r: Result<&str, HeaderError>)
    ensures
        match aauth_credential(authorization_value@) {
            Some(t) => r matches Ok(x) && x@ == t,
            None => r is Err,
        },
        strip_prefix(trim(authorization_value@), "AAuth "@) is None ==> (r matches Err(e) && e@
            == HeaderErrorView::Invalid("Authorization scheme must be AAuth"@)),
        strip_prefix(trim(authorization_value@), "AAuth "@) is Some && r is Err ==> (r matches Err(
            e,
        ) && e@ == HeaderErrorView::Invalid("AAuth credential is not token68"@)),
{
    let v = chars_of(authorization_value);
    let (a, b) = trim_range(&v, 0, v.len());
    proof {
        assert(v@.subrange(0, v@.len() as int) =~= v@);
    }
    let t = sub_vec(&v, a, b);
    let pre = chars_of("AAuth ");
    if !starts_with_exec(&t, &pre) {
        return Err(HeaderError::Invalid("Authorization scheme must be AAuth".to_owned()));
    }
    let start = a + pre.len();
    proof {
        assert(t@.subrange(pre@.len() as int, t@.len() as int) =~= v@.subrange(
            start as int,
            b as int,
        ));
    }
    if !token68_range(&v, start, b) {
        return Err(HeaderError::Invalid("AAuth credential is not token68".to_owned()));
    }
    Ok(authorization_value.substring_char(start, b))
}

/// Parse an `AAuth-Access` response header value (raw `token68`).
pub fn parse_aauth_access_header(value: &str) -> (r: Result<&str, HeaderError>)
    ensures
        is_token68_spec(trim(value@)) ==> (r matches Ok(x) && x@ == trim(value@)),
        !is_token68_spec(trim(value@)) ==> (r matches Err(e) && e@ == HeaderErrorView::Invalid(
            "AAuth-Access is not token68"@,
        )),
{
    let v = chars_of(value);
    let (a, b) = trim_range(&v, 0, v.len());
    proof {
        assert(v@.subrange(0, v@.len() as int) =~= v@);
    }
    if !token68_range(&v, a, b) {
        return Err(HeaderError::Invalid("AAuth-Access is not token68".to_owned()));
    }
    Ok(value.substring_char(a, b))
}

/// A `token68` presented after `AAuth ` is the credential that parsing yields, and it is its
/// own `AAuth-Access` value.
pub proof fn lemma_credential_round_trip(t: Seq<char>)
    requires
        is_token68_spec(t),
    ensures
        aauth_credential("AAuth "@ + t) == Some(t),
        trim(t) == t,
{
    reveal_strlit("AAuth ");
    assert("AAuth "@.len() == 6);
    let body = trim_char_end(t, '=');
    crate::text::lemma_trim_char_end_prefix(t, '=');
    assert(is_token68_char_spec(body[0]));
    assert(t[0] == body[0]);
    assert(t[t.len() - 1] == '=' || t[t.len() - 1] == body[body.len() - 1]);
    lemma_trim_noop(t);
    let h = "AAuth "@ + t;
    assert(h[0] == 'A');
    assert(h[h.len() - 1] == t[t.len() - 1]);
    lemma_trim_noop(h);
    assert(h.subrange(0, 6) =~= "AAuth "@);
    assert(h.subrange(6, h.len() as int) =~= t);
}

} // verus!
