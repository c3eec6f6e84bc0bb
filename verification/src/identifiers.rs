//! Server and agent identifier validation.
use vstd::prelude::*;

use crate::common::str_eq;
use crate::headers::{starts_with_exec, sub_vec};
use crate::text::{
    chars_of, ends_with, find_char, find_char_exec, lemma_find_char, split,
    split_ranges, strip_prefix,
};

verus! {

/// The parts of a parsed URL that identifier validation reads.
pub struct UrlParts {
    pub scheme: String,
    pub port: Option<u16>,
    pub username: String,
    pub password: Option<String>,
    pub host: Option<String>,
    pub path: String,
    pub query: Option<String>,
    pub fragment: Option<String>,
}

/// Mathematical model of [`UrlParts`].
pub struct UrlPartsView {
    pub scheme: Seq<char>,
    pub port: Option<u16>,
    pub username: Seq<char>,
    pub password: Option<Seq<char>>,
    pub host: Option<Seq<char>>,
    pub path: Seq<char>,
    pub query: Option<Seq<char>>,
    pub fragment: Option<Seq<char>>,
}

pub open spec fn opt_view(o: Option<String>) -> Option<Seq<char>> {
    match o {
        Some(s) => Some(s@),
        None => None,
    }
}

impl View for UrlParts {
    type V = UrlPartsView;

    open spec fn view(&self) -> UrlPartsView {
        UrlPartsView {
            scheme: self.scheme@,
            port: self.port,
            username: self.username@,
            password: opt_view(self.password),
            host: opt_view(self.host),
            path: self.path@,
            query: opt_view(self.query),
            fragment: opt_view(self.fragment),
        }
    }
}

pub open spec fn parts_view(o: Option<UrlParts>) -> Option<UrlPartsView> {
    match o {
        Some(p) => Some(p@),
        None => None,
    }
}

/// What the WHATWG URL parser of the `url` crate makes of `input` (`None` when it rejects it).
pub uninterp spec fn parsed_url(input: Seq<char>) -> Option<UrlPartsView>;

/// `url::Url::parse`, taken apart into [`UrlParts`]. The parser's behaviour is
/// not restated here: the result is named [`parsed_url`] of the input.
#[verifier::external_body]
fn parse_url(input: &str) -> (r: Option<UrlParts>)
    ensures
        parts_view(r) == parsed_url(input@),
{
    match url::Url::parse(input) {
        Ok(u) => Some(UrlParts {
            scheme: u.scheme().to_string(),
            port: u.port(),
            username: u.username().to_string(),
            password: u.password().map(String::from),
            host: u.host_str().map(String::from),
            path: u.path().to_string(),
            query: u.query().map(String::from),
            fragment: u.fragment().map(String::from),
        }),
        Err(_) => None,
    }
}

pub open spec fn is_ascii_upper(c: char) -> bool {
    'A' <= c && c <= 'Z'
}

pub open spec fn has_ascii_upper(s: Seq<char>) -> bool {
    exists|i: int| 0 <= i < s.len() && is_ascii_upper(#[trigger] s[i])
}

/// The path of a URL that names a host only.
pub open spec fn host_only_path(p: Seq<char>) -> bool {
    p == "/"@ || p.len() == 0
}

/// The raw string is non-empty and has no trailing slash.
pub open spec fn no_trailing_slash(s: Seq<char>) -> bool {
    s.len() > 0 && !ends_with(s, "/"@)
}

/// `http://127.0.0.1[:port]` or `http://localhost[:port]`, host only.
pub open spec fn loopback_identifier_ok(s: Seq<char>, parsed: Option<UrlPartsView>) -> bool {
    &&& no_trailing_slash(s)
    &&& parsed matches Some(u)
    &&& u.scheme == "http"@
    &&& u.query is None
    &&& u.fragment is None
    &&& host_only_path(u.path)
    &&& u.username.len() == 0
    &&& u.password is None
    &&& (u.host == Some("127.0.0.1"@) || u.host == Some("localhost"@))
}

/// The raw text writes a port: a `:` that follows an earlier `:` (the scheme's)
/// with no `]` after it, so not one inside a bracketed IPv6 host. The URL parser
/// reports no port when the written one is the scheme's default, so the text
/// itself is read.
pub open spec fn explicit_port(s: Seq<char>) -> bool {
    exists|k: int, c: int|
        0 <= k < c < s.len() && s[k] == ':' && #[trigger] s[c] == ':' && #[trigger] s[k] == ':'
            && forall|j: int| c < j < s.len() ==> s[j] != ']'
}

/// An `https` URL of a lowercase host only: no port, credentials, path, query or fragment.
pub open spec fn https_identifier_ok(s: Seq<char>, parsed: Option<UrlPartsView>) -> bool {
    &&& no_trailing_slash(s)
    &&& !has_ascii_upper(s)
    &&& !explicit_port(s)
    &&& parsed matches Some(u)
    &&& u.scheme == "https"@
    &&& u.port is None
    &&& u.username.len() == 0
    &&& u.password is None
    &&& u.query is None
    &&& u.fragment is None
    &&& host_only_path(u.path)
    &&& u.host matches Some(h) && h.len() > 0
}

/// A valid AAuth server identifier, given what the URL parser made of it.
pub open spec fn server_identifier_ok(s: Seq<char>, parsed: Option<UrlPartsView>) -> bool {
    loopback_identifier_ok(s, parsed) || https_identifier_ok(s, parsed)
}

fn opt_is_none(o: &Option<String>) -> (b: bool)
    ensures
        b == (o is None),
{
    match o {
        Some(_) => false,
        None => true,
    }
}

fn no_trailing_slash_exec(url: &str) -> (b: bool)
    ensures
        b == no_trailing_slash(url@),
{
    let v = chars_of(url);
    let n = v.len();
    proof {
        reveal_strlit("/");
        assert("/"@.len() == 1);
    }
    if n == 0 {
        return false;
    }
    proof {
        assert(ends_with(v@, "/"@) <==> v@[n - 1] == '/') by {
            assert(v@.subrange(n - 1, n as int) =~= seq![v@[n - 1]]);
            assert("/"@[0] == '/');
            assert("/"@ =~= seq!['/']);
        }
    }
    v[n - 1] != '/'
}

fn has_ascii_upper_exec(url: &str) -> (b: bool)
    ensures
        b == has_ascii_upper(url@),
{
    let v = chars_of(url);
    let mut i: usize = 0;
    while i < v.len()
        invariant
            i <= v.len(),
            v@ == url@,
            forall|j: int| 0 <= j < i ==> !is_ascii_upper(#[trigger] v@[j]),
        decreases v.len() - i,
    {
        let c = v[i];
        if 'A' <= c && c <= 'Z' {
            return true;
        }
        i = i + 1;
    }
    false
}

fn explicit_port_exec(url: &str) -> (b: bool)
    ensures
        b == explicit_port(url@),
{
    let v = chars_of(url);
    let mut seen = false;
    let mut port = false;
    let mut i: usize = 0;
    while i < v.len()
        invariant
            i <= v.len(),
            v@ == url@,
            seen == exists|k: int| 0 <= k < i && #[trigger] v@[k] == ':',
            port == explicit_port(v@.take(i as int)),
        decreases v.len() - i,
    {
        let ch = v[i];
        let ghost t = v@.take(i as int);
        let ghost t1 = v@.take(i + 1);
        proof {
            assert(t1 =~= t.push(ch));
        }
        if ch == ':' {
            proof {
                if seen {
                    let k = choose|k: int| 0 <= k < i && #[trigger] v@[k] == ':';
                    assert(t1[k] == ':' && t1[i as int] == ':');
                    assert(explicit_port(t1));
                } else {
                    assert(!explicit_port(t1)) by {
                        if explicit_port(t1) {
                            let (k, c) = choose|k: int, c: int|
                                0 <= k < c < t1.len() && t1[k] == ':' && #[trigger] t1[c] == ':'
                                    && #[trigger] t1[k] == ':' && forall|j: int|
                                    c < j < t1.len() ==> t1[j] != ']';
                            assert(v@[k] == ':');
                        }
                    }
                }
            }
            port = seen;
            seen = true;
        } else if ch == ']' {
            proof {
                assert(!explicit_port(t1)) by {
                    if explicit_port(t1) {
                        let (k, c) = choose|k: int, c: int|
                            0 <= k < c < t1.len() && t1[k] == ':' && #[trigger] t1[c] == ':'
                                && #[trigger] t1[k] == ':' && forall|j: int|
                                c < j < t1.len() ==> t1[j] != ']';
                        assert(c < i);
                        assert(t1[i as int] == ']');
                    }
                }
            }
            port = false;
        } else {
            proof {
                if explicit_port(t) {
                    let (k, c) = choose|k: int, c: int|
                        0 <= k < c < t.len() && t[k] == ':' && #[trigger] t[c] == ':'
                            && #[trigger] t[k] == ':' && forall|j: int|
                            c < j < t.len() ==> t[j] != ']';
                    assert(t1[k] == ':' && t1[c] == ':');
                    assert forall|j: int| c < j < t1.len() implies t1[j] != ']' by {
                        if j < i {
                            assert(t1[j] == t[j]);
                        }
                    }
                    assert(explicit_port(t1));
                }
                if explicit_port(t1) {
                    let (k, c) = choose|k: int, c: int|
                        0 <= k < c < t1.len() && t1[k] == ':' && #[trigger] t1[c] == ':'
                            && #[trigger] t1[k] == ':' && forall|j: int|
                            c < j < t1.len() ==> t1[j] != ']';
                    assert(c < i);
                    assert(t[k] == ':' && t[c] == ':');
                    assert forall|j: int| c < j < t.len() implies t[j] != ']' by {
                        assert(t1[j] == t[j]);
                    }
                    assert(explicit_port(t));
                }
            }
        }
        proof {
            assert forall|k: int| 0 <= k < i + 1 && #[trigger] v@[k] == ':' implies seen by {
                if k < i {
                } else {
                    assert(ch == ':');
                }
            }
        }
        i = i + 1;
    }
    proof {
        assert(v@.take(i as int) =~= v@);
    }
    port
}

fn host_only_path_exec(p: &String) -> (b: bool)
    ensures
        b == host_only_path(p@),
{
    str_eq(p.as_str(), "/") || p.as_str().unicode_len() == 0
}

fn loopback_identifier_exec(url: &str, parsed: &Option<UrlParts>) -> (b: bool)
    ensures
        b == loopback_identifier_ok(url@, parts_view(*parsed)),
{
    if !no_trailing_slash_exec(url) {
        return false;
    }
    match parsed {
        None => false,
        Some(u) => {
            if !str_eq(u.scheme.as_str(), "http") {
                return false;
            }
            if !opt_is_none(&u.query) || !opt_is_none(&u.fragment) {
                return false;
            }
            if !host_only_path_exec(&u.path) {
                return false;
            }
            if u.username.as_str().unicode_len() != 0 || !opt_is_none(&u.password) {
                return false;
            }
            match &u.host {
                None => false,
                Some(h) => str_eq(h.as_str(), "127.0.0.1") || str_eq(h.as_str(), "localhost"),
            }
        },
    }
}

/// Whether `url` is a valid AAuth server identifier, given `parsed`, what the
/// URL parser made of it.
///
/// Loopback `http://127.0.0.1[:port]` and `http://localhost[:port]` are
/// accepted; otherwise the identifier must be an `https` URL of a lowercase
/// host alone, with no port (not even the default one written out), credentials,
/// path, query, fragment or trailing slash.
pub fn server_identifier_accepts(url: &str, parsed: &Option<UrlParts>) -> (b: bool)
    ensures
        b == server_identifier_ok(url@, parts_view(*parsed)),
{
    if loopback_identifier_exec(url, parsed) {
        return true;
    }
    if !no_trailing_slash_exec(url) {
        return false;
    }
    if has_ascii_upper_exec(url) {
        return false;
    }
    if explicit_port_exec(url) {
        return false;
    }
    match parsed {
        None => false,
        Some(u) => {
            if !str_eq(u.scheme.as_str(), "https") {
                return false;
            }
            if u.port.is_some() {
                return false;
            }
            if u.username.as_str().unicode_len() != 0 || !opt_is_none(&u.password) {
                return false;
            }
            if !opt_is_none(&u.query) || !opt_is_none(&u.fragment) {
                return false;
            }
            if !host_only_path_exec(&u.path) {
                return false;
            }
            match &u.host {
                None => false,
                Some(h) => h.as_str().unicode_len() > 0,
            }
        },
    }
}

/// Returns true if `url` is a valid AAuth server identifier.
///
/// MUST be `https`, scheme + host only (no port, path, query, fragment, or
/// trailing slash), and lowercase. Loopback HTTP (`http://127.0.0.1[:port]`,
/// `http://localhost[:port]`) is accepted too.
pub fn is_valid_server_identifier(url: &str) -> (b: bool)
    ensures
        b == server_identifier_ok(url@, parsed_url(url@)),
{
    let parsed = parse_url(url);
    server_identifier_accepts(url, &parsed)
}

/// A character allowed in the local part of an agent identifier.
pub open spec fn is_local_char(c: char) -> bool {
    ('a' <= c && c <= 'z') || ('0' <= c && c <= '9') || c == '-' || c == '_' || c == '+' || c
        == '.'
}

/// A character allowed in a domain label.
pub open spec fn is_label_char(c: char) -> bool {
    ('a' <= c && c <= 'z') || ('0' <= c && c <= '9') || c == '-'
}

/// One DNS label: 1 to 63 of `[a-z0-9-]`, not starting or ending with `-`.
pub open spec fn valid_label(l: Seq<char>) -> bool {
    &&& 0 < l.len() <= 63
    &&& forall|j: int| 0 <= j < l.len() ==> is_label_char(#[trigger] l[j])
    &&& l[0] != '-'
    &&& l[l.len() - 1] != '-'
}

/// A lowercase host name: one or more valid labels separated by `.`.
pub open spec fn valid_domain(d: Seq<char>) -> bool {
    let labels = split(d, '.');
    forall|k: int| 0 <= k < labels.len() ==> valid_label(#[trigger] labels[k])
}

/// `aauth:local@domain`, with a local part of 1 to 255 of `[a-z0-9-_+.]`
/// and a valid domain after the first `@`.
pub open spec fn agent_identifier_ok(id: Seq<char>) -> bool {
    match strip_prefix(id, "aauth:"@) {
        None => false,
        Some(rest) => match find_char(rest, '@') {
            None => false,
            Some(i) => {
                let local = rest.subrange(0, i);
                let domain = rest.subrange(i + 1, rest.len() as int);
                &&& 0 < local.len() <= 255
                &&& forall|j: int| 0 <= j < local.len() ==> is_local_char(#[trigger] local[j])
                &&& valid_domain(domain)
            },
        },
    }
}

/// The agent identifiers are exactly `aauth:` + local + `@` + domain with a local
/// part of 1 to 255 characters drawn from `a`-`z`, `0`-`9`, `-`, `_`, `+` and `.`
/// and a valid domain: every such text is accepted.
pub proof fn lemma_agent_identifier_accepts(local: Seq<char>, domain: Seq<char>)
    requires
        0 < local.len() <= 255,
        forall|j: int|
            0 <= j < local.len() ==> {
                let c = #[trigger] local[j];
                ('a' <= c && c <= 'z') || ('0' <= c && c <= '9') || c == '-' || c == '_' || c
                    == '+' || c == '.'
            },
        valid_domain(domain),
    ensures
        agent_identifier_ok("aauth:"@ + local + seq!['@'] + domain),
{
    reveal_strlit("aauth:");
    let p = "aauth:"@;
    assert(p.len() == 6);
    let id = p + local + seq!['@'] + domain;
    assert(id.subrange(0, 6) =~= p);
    let rest = id.subrange(6, id.len() as int);
    assert(rest =~= local + seq!['@'] + domain);
    let n = local.len() as int;
    assert(rest[n] == '@');
    assert forall|j: int| 0 <= j < n implies #[trigger] rest[j] != '@' by {
        assert(rest[j] == local[j]);
    }
    crate::text::lemma_find_char_is(rest, '@', n);
    assert(rest.subrange(0, n) =~= local);
    assert(rest.subrange(n + 1, rest.len() as int) =~= domain);
}

/// An accepted agent identifier is `aauth:` + local + `@` + domain, its local part
/// 1 to 255 characters drawn from `a`-`z`, `0`-`9`, `-`, `_`, `+` and `.`, and its
/// domain valid.
pub proof fn lemma_agent_identifier_shape(id: Seq<char>)
    requires
        agent_identifier_ok(id),
    ensures
        exists|local: Seq<char>, domain: Seq<char>|
            #![trigger local + seq!['@'] + domain]
            id == "aauth:"@ + (local + seq!['@'] + domain) && 0 < local.len() <= 255 && (forall|
                j: int,
            |
                0 <= j < local.len() ==> {
                    let c = #[trigger] local[j];
                    ('a' <= c && c <= 'z') || ('0' <= c && c <= '9') || c == '-' || c == '_' || c
                        == '+' || c == '.'
                }) && valid_domain(domain),
{
    reveal_strlit("aauth:");
    let p = "aauth:"@;
    let rest = strip_prefix(id, p)->0;
    lemma_find_char(rest, '@');
    let i = find_char(rest, '@')->0;
    let local = rest.subrange(0, i);
    let domain = rest.subrange(i + 1, rest.len() as int);
    assert(rest[i] == '@');
    assert(rest =~= local + seq!['@'] + domain);
    assert(id =~= p + rest);
}

fn valid_label_exec(v: &Vec<char>, from: usize, to: usize) -> (b: bool)
    requires
        from <= to <= v.len(),
    ensures
        b == valid_label(v@.subrange(from as int, to as int)),
{
    let ghost l = v@.subrange(from as int, to as int);
    if from == to || to - from > 63 {
        return false;
    }
    if v[from] == '-' || v[to - 1] == '-' {
        return false;
    }
    let mut i = from;
    while i < to
        invariant
            from <= i <= to <= v.len(),
            l == v@.subrange(from as int, to as int),
            forall|j: int| 0 <= j < i - from ==> is_label_char(#[trigger] l[j]),
        decreases to - i,
    {
        let c = v[i];
        if !(('a' <= c && c <= 'z') || ('0' <= c && c <= '9') || c == '-') {
            proof {
                assert(l[i - from] == c);
            }
            return false;
        }
        proof {
            assert(l[i - from] == c);
        }
        i = i + 1;
    }
    true
}

fn valid_domain_exec(d: &Vec<char>) -> (b: bool)
    ensures
        b == valid_domain(d@),
{
    let ranges = split_ranges(d, '.');
    let mut k: usize = 0;
    while k < ranges.len()
        invariant
            k <= ranges.len(),
            ranges@.len() == split(d@, '.').len(),
            forall|m: int|
                #![trigger ranges@[m]]
                0 <= m < ranges@.len() ==> ranges@[m].0 <= ranges@[m].1 <= d@.len()
                    && d@.subrange(ranges@[m].0 as int, ranges@[m].1 as int) == split(
                    d@,
                    '.',
                )[m],
            forall|m: int| 0 <= m < k ==> valid_label(#[trigger] split(d@, '.')[m]),
        decreases ranges.len() - k,
    {
        let (a, e) = ranges[k];
        proof {
            assert(ranges@[k as int] == (a, e));
        }
        if !valid_label_exec(d, a, e) {
            return false;
        }
        k = k + 1;
    }
    true
}

/// Returns true if `id` is a valid AAuth agent identifier (`aauth:local@domain`).
pub fn is_valid_agent_identifier(id: &str) -> (b: bool)
    ensures
        b == agent_identifier_ok(id@),
{
    let v = chars_of(id);
    let prefix = chars_of("aauth:");
    if !starts_with_exec(&v, &prefix) {
        return false;
    }
    let rest = sub_vec(&v, prefix.len(), v.len());
    proof {
        assert(strip_prefix(id@, "aauth:"@) == Some(rest@));
    }
    match find_char_exec(&rest, '@') {
        None => false,
        Some(i) => {
            proof {
                lemma_find_char(rest@, '@');
            }
            let ghost local = rest@.subrange(0, i as int);
            if i == 0 || i > 255 {
                return false;
            }
            let mut k: usize = 0;
            while k < i
                invariant
                    0 < i <= 255,
                    k <= i < rest.len(),
                    local == rest@.subrange(0, i as int),
                    strip_prefix(id@, "aauth:"@) == Some(rest@),
                    find_char(rest@, '@') == Some(i as int),
                    forall|j: int| 0 <= j < k ==> is_local_char(#[trigger] local[j]),
                decreases i - k,
            {
                let c = rest[k];
                proof {
                    assert(local[k as int] == c);
                }
                if !(('a' <= c && c <= 'z') || ('0' <= c && c <= '9') || c == '-' || c == '_'
                    || c == '+' || c == '.') {
                    proof {
                        assert(!is_local_char(local[k as int]));
                    }
                    return false;
                }
                k = k + 1;
            }
            let domain = sub_vec(&rest, i + 1, rest.len());
            valid_domain_exec(&domain)
        },
    }
}

} // verus!
