//! HTTP Message Signatures over AAuth requests: building the signature base,
//! reading `Signature-Input` / `Signature` / `Signature-Key`, and verifying or
//! applying Ed25519 signatures.
use vstd::prelude::*;

use crate::clock::now_unix_secs;
use crate::codec::{base64url_decode, base64url_decoded, base64url_encode, base64url_encoded};
use crate::header_map::{
    entry_views, header_entries, header_map_entries, header_map_insert, header_text, header_value, header_value_text, inserted,
    lemma_inserted_len, lemma_signature_header_names,
};
use crate::headers::{starts_with_exec, sub_vec};
use crate::keys::{
    ed25519_public_key, ed25519_public_key_valid, ed25519_signature, ed25519_signature_valid,
    ed25519_verify, Ed25519PublicKey, ed25519_secret_key, ed25519_sign, ed25519_signature_of,
    Ed25519SecretKey, ed25519_public_key_of, ed25519_public_of,
};
use crate::codec::is_base64url_char;
use vstd::utf8::encode_utf8;
use vstd::string::StringSliceAdditionalSpecFns;
use crate::text::{
    chars_of, find, find_char, find_char_exec, find_exec, lemma_find_char, lemma_find_from,
    matches_at, push_char, split_first, split_ws, split_ws_ranges, string_of, strip_prefix, trim,
    trim_char, trim_char_range, trim_range,
};

verus! {

/// Seconds a signature stays fresh by default.
pub const DEFAULT_SIGNATURE_MAX_AGE_SECS: u64 = 60;

/// Clock skew tolerated by default, in seconds.
pub const SIGNATURE_CLOCK_SKEW_SECS: i64 = 60;

/// Why an HTTP message signature could not be read, checked or produced.
#[derive(Debug, Clone, Copy, PartialEq, Eq, Structural)]
pub enum SignatureError {
    MissingSignatureKey,
    MissingSignatureInput,
    MissingSignature,
    MissingJwtParam,
    JwtNotQuoted,
    MissingCreated,
    InvalidCreated,
    MissingCoveredComponents,
    MissingComponent(CoveredComponent),
    MissingAuthorizationComponent,
    Jwt,
    CreatedInFuture,
    Expired,
    AuthorizationHeaderMissing,
    InvalidSignatureFormat,
    InvalidEncoding,
    InvalidSignatureBytes,
    InvalidKeyLength,
    InvalidVerifyingKey,
    VerificationFailed,
    InvalidHeaderValue,
    /// The system clock reads a time before the Unix epoch.
    ClockBeforeEpoch,
}

/// The components every AAuth request signature must cover.
#[derive(Debug, Clone, Copy, PartialEq, Eq, Structural)]
pub enum CoveredComponent {
    Method,
    Authority,
    Path,
    SignatureKey,
}

impl CoveredComponent {
    /// The component identifier as written in `Signature-Input`.
    pub open spec fn name(self) -> Seq<char> {
        match self {
            CoveredComponent::Method => "@method"@,
            CoveredComponent::Authority => "@authority"@,
            CoveredComponent::Path => "@path"@,
            CoveredComponent::SignatureKey => "signature-key"@,
        }
    }

    pub fn as_str(&self) -> (s: &'static str)
        ensures
            s@ == self.name(),
    {
        match self {
            CoveredComponent::Method => "@method",
            CoveredComponent::Authority => "@authority",
            CoveredComponent::Path => "@path",
            CoveredComponent::SignatureKey => "signature-key",
        }
    }
}

impl SignatureError {
    /// Human-readable description of the error.
    pub open spec fn message(self) -> Seq<char> {
        match self {
            SignatureError::MissingSignatureKey => "missing Signature-Key header"@,
            SignatureError::MissingSignatureInput => "missing Signature-Input header"@,
            SignatureError::MissingSignature => "missing Signature header"@,
            SignatureError::MissingJwtParam => "Signature-Key has no jwt parameter"@,
            SignatureError::JwtNotQuoted => "Signature-Key jwt parameter is not quoted"@,
            SignatureError::MissingCreated => "Signature-Input has no created parameter"@,
            SignatureError::InvalidCreated => "invalid created parameter"@,
            SignatureError::MissingCoveredComponents => "Signature-Input has no covered components"@,
            SignatureError::MissingComponent(_) => "required covered component missing"@,
            SignatureError::MissingAuthorizationComponent => "authorization component not covered"@,
            SignatureError::Jwt => "invalid Signature-Key jwt"@,
            SignatureError::CreatedInFuture => "signature created in the future"@,
            SignatureError::Expired => "signature expired"@,
            SignatureError::AuthorizationHeaderMissing => "covered authorization header missing"@,
            SignatureError::InvalidSignatureFormat => "invalid Signature header format"@,
            SignatureError::InvalidEncoding => "invalid base64url encoding"@,
            SignatureError::InvalidSignatureBytes => "invalid signature bytes"@,
            SignatureError::InvalidKeyLength => "invalid key length"@,
            SignatureError::InvalidVerifyingKey => "invalid verifying key"@,
            SignatureError::VerificationFailed => "signature verification failed"@,
            SignatureError::InvalidHeaderValue => "invalid header value"@,
            SignatureError::ClockBeforeEpoch => "system clock reads before the Unix epoch"@,
        }
    }

    /// Human-readable description of the error.
    pub fn to_string(&self) -> (s: String)
        ensures
            s@ == self.message(),
    {
        let m = match self {
            SignatureError::MissingSignatureKey => "missing Signature-Key header",
            SignatureError::MissingSignatureInput => "missing Signature-Input header",
            SignatureError::MissingSignature => "missing Signature header",
            SignatureError::MissingJwtParam => "Signature-Key has no jwt parameter",
            SignatureError::JwtNotQuoted => "Signature-Key jwt parameter is not quoted",
            SignatureError::MissingCreated => "Signature-Input has no created parameter",
            SignatureError::InvalidCreated => "invalid created parameter",
            SignatureError::MissingCoveredComponents => "Signature-Input has no covered components",
            SignatureError::MissingComponent(_) => "required covered component missing",
            SignatureError::MissingAuthorizationComponent => "authorization component not covered",
            SignatureError::Jwt => "invalid Signature-Key jwt",
            SignatureError::CreatedInFuture => "signature created in the future",
            SignatureError::Expired => "signature expired",
            SignatureError::AuthorizationHeaderMissing => "covered authorization header missing",
            SignatureError::InvalidSignatureFormat => "invalid Signature header format",
            SignatureError::InvalidEncoding => "invalid base64url encoding",
            SignatureError::InvalidSignatureBytes => "invalid signature bytes",
            SignatureError::InvalidKeyLength => "invalid key length",
            SignatureError::InvalidVerifyingKey => "invalid verifying key",
            SignatureError::VerificationFailed => "signature verification failed",
            SignatureError::InvalidHeaderValue => "invalid header value",
            SignatureError::ClockBeforeEpoch => "system clock reads before the Unix epoch",
        };
        String::from_str(m)
    }
}

/// Result of verifying an incoming HTTP Signature on a request.
#[derive(Debug, Clone)]
pub struct VerifiedSignature {
    pub jwt: String,
    pub thumbprint: String,
}

/// Freshness and coverage policy for incoming signatures.
#[derive(Debug, Clone, Copy, PartialEq, Eq, Structural)]
pub struct SignatureVerifyOptions {
    pub max_age_secs: u64,
    pub clock_skew_secs: i64,
    pub require_authorization: bool,
}

impl SignatureVerifyOptions {
    /// Sixty seconds of freshness, sixty seconds of skew, authorization not required.
    pub fn default_options() -> (o: SignatureVerifyOptions)
        ensures
            o.max_age_secs == DEFAULT_SIGNATURE_MAX_AGE_SECS,
            o.clock_skew_secs == SIGNATURE_CLOCK_SKEW_SECS,
            !o.require_authorization,
    {
        SignatureVerifyOptions {
            max_age_secs: DEFAULT_SIGNATURE_MAX_AGE_SECS,
            clock_skew_secs: SIGNATURE_CLOCK_SKEW_SECS,
            require_authorization: false,
        }
    }
}

impl Default for SignatureVerifyOptions {
    fn default() -> (o: SignatureVerifyOptions)
        ensures
            o.max_age_secs == DEFAULT_SIGNATURE_MAX_AGE_SECS,
            o.clock_skew_secs == SIGNATURE_CLOCK_SKEW_SECS,
            !o.require_authorization,
    {
        SignatureVerifyOptions::default_options()
    }
}

// ---------------------------------------------------------------------------------------------
// Decimal numbers
// ---------------------------------------------------------------------------------------------

pub open spec fn digit_char(d: nat) -> char {
    (48 + d) as char
}

/// Decimal spelling of `n`, most significant digit first, no leading zeros.
pub open spec fn decimal(n: nat) -> Seq<char>
    decreases n,
{
    if n < 10 {
        seq![digit_char(n)]
    } else {
        decimal(n / 10).push(digit_char(n % 10))
    }
}

pub open spec fn is_digit(c: char) -> bool {
    '0' <= c && c <= '9'
}

pub open spec fn digit_value(c: char) -> nat {
    (c as int - 48) as nat
}

/// Value of a string of decimal digits.
pub open spec fn digits_value(s: Seq<char>) -> nat
    decreases s.len(),
{
    if s.len() == 0 {
        0
    } else {
        digits_value(s.drop_last()) * 10 + digit_value(s.last())
    }
}

/// The digits `u64::from_str` reads: `s` without one leading `+`.
pub open spec fn unsigned_digits(s: Seq<char>) -> Seq<char> {
    if s.len() > 0 && s[0] == '+' {
        s.drop_first()
    } else {
        s
    }
}

/// What `u64::from_str` accepts: an optional `+`, then one or more ASCII digits
/// whose value fits in 64 bits.
pub open spec fn parses_as_u64(s: Seq<char>) -> bool {
    let d = unsigned_digits(s);
    &&& d.len() > 0
    &&& forall|i: int| 0 <= i < d.len() ==> is_digit(#[trigger] d[i])
    &&& digits_value(d) <= u64::MAX
}

fn digit_of(d: u64) -> (c: char)
    requires
        d < 10,
    ensures
        c == digit_char(d as nat),
{
    let b: u8 = 48u8 + (d as u8);
    b as char
}

fn append_decimal(s: &mut String, n: u64)
    ensures
        final(s)@ == old(s)@ + decimal(n as nat),
    decreases n,
{
    if n >= 10 {
        append_decimal(s, n / 10);
    }
    push_char(s, digit_of(n % 10));
    proof {
        if n >= 10 {
            assert(old(s)@ + decimal(n as nat) =~= old(s)@ + decimal((n / 10) as nat) + seq![
                digit_char((n % 10) as nat),
            ]);
        } else {
            assert(old(s)@ + decimal(n as nat) =~= old(s)@ + seq![digit_char((n % 10) as nat)]);
        }
    }
}

/// Decimal spelling of `n`.
pub fn u64_to_decimal(n: u64) -> (s: String)
    ensures
        s@ == decimal(n as nat),
{
    let mut s = String::new();
    append_decimal(&mut s, n);
    proof {
        assert(Seq::<char>::empty() + decimal(n as nat) =~= decimal(n as nat));
    }
    s
}

pub proof fn lemma_digits_value_push(s: Seq<char>, c: char)
    ensures
        digits_value(s.push(c)) == digits_value(s) * 10 + digit_value(c),
{
    assert(s.push(c).drop_last() =~= s);
}

/// `u64::from_str` on a string of characters.
pub fn parse_u64(v: &Vec<char>, from: usize, to: usize) -> (r: Option<u64>)
    requires
        from <= to <= v.len(),
    ensures
        r is Some <==> parses_as_u64(v@.subrange(from as int, to as int)),
        r matches Some(n) ==> n == digits_value(unsigned_digits(v@.subrange(from as int, to as int))),
{
    let ghost s = v@.subrange(from as int, to as int);
    let mut start = from;
    if from < to && v[from] == '+' {
        start = from + 1;
        proof {
            assert(unsigned_digits(s) =~= v@.subrange(start as int, to as int));
        }
    } else {
        proof {
            assert(unsigned_digits(s) =~= v@.subrange(start as int, to as int));
        }
    }
    let ghost d = v@.subrange(start as int, to as int);
    if start == to {
        return None;
    }
    let mut acc: u64 = 0;
    let mut i = start;
    while i < to
        invariant
            from <= start <= i <= to <= v.len(),
            d == v@.subrange(start as int, to as int),
            d == unsigned_digits(s),
            s == v@.subrange(from as int, to as int),
            forall|j: int| 0 <= j < i - start ==> is_digit(#[trigger] d[j]),
            acc == digits_value(d.subrange(0, i - start)),
        decreases to - i,
    {
        let c = v[i];
        proof {
            assert(d[i - start] == c);
        }
        if !('0' <= c && c <= '9') {
            return None;
        }
        let dv: u64 = (c as u64) - 48;
        proof {
            assert(d.subrange(0, i - start + 1) =~= d.subrange(0, i - start).push(c));
            lemma_digits_value_push(d.subrange(0, i - start), c);
            assert(digit_value(c) == dv);
        }
        if acc > (u64::MAX - dv) / 10 {
            proof {
                assert(digits_value(d.subrange(0, i - start + 1)) > u64::MAX) by (nonlinear_arith)
                    requires
                        acc > (u64::MAX - dv) / 10,
                        digits_value(d.subrange(0, i - start + 1)) == acc * 10 + dv,
                ;
                lemma_digits_value_prefix_bound(d, i - start + 1);
            }
            return None;
        }
        proof {
            assert(acc * 10 + dv <= u64::MAX) by (nonlinear_arith)
                requires
                    acc <= (u64::MAX - dv) / 10,
                    dv <= 9,
            ;
        }
        acc = acc * 10 + dv;
        i = i + 1;
    }
    proof {
        assert(d.subrange(0, d.len() as int) =~= d);
    }
    Some(acc)
}

/// A longer prefix of digits never has a smaller value.
proof fn lemma_digits_value_prefix_bound(d: Seq<char>, k: int)
    requires
        0 <= k <= d.len(),
        forall|j: int| 0 <= j < k ==> is_digit(#[trigger] d[j]),
    ensures
        (forall|j: int| 0 <= j < d.len() ==> is_digit(#[trigger] d[j])) ==> digits_value(
            d.subrange(0, k),
        ) <= digits_value(d),
    decreases d.len() - k,
{
    if k < d.len() {
        if forall|j: int| 0 <= j < d.len() ==> is_digit(#[trigger] d[j]) {
            lemma_digits_value_prefix_bound(d, k + 1);
            assert(d.subrange(0, k + 1) =~= d.subrange(0, k).push(d[k]));
            lemma_digits_value_push(d.subrange(0, k), d[k]);
        }
    } else {
        assert(d.subrange(0, k) =~= d);
    }
}

// ---------------------------------------------------------------------------------------------
// Signature base
// ---------------------------------------------------------------------------------------------

/// `c` in double quotes.
pub open spec fn quote(c: Seq<char>) -> Seq<char> {
    seq!['"'] + c + seq!['"']
}

/// `parts` joined by `sep` (`[String]::join`).
pub open spec fn join(parts: Seq<Seq<char>>, sep: Seq<char>) -> Seq<char>
    decreases parts.len(),
{
    if parts.len() == 0 {
        Seq::empty()
    } else if parts.len() == 1 {
        parts[0]
    } else {
        join(parts.drop_last(), sep) + sep + parts.last()
    }
}

pub open spec fn string_views(v: Seq<String>) -> Seq<Seq<char>> {
    v.map_values(|x: String| x@)
}

/// Lowercase form of `s` (`str::to_lowercase`, Unicode case mapping).
pub uninterp spec fn lowercase(s: Seq<char>) -> Seq<char>;

/// `str::to_lowercase`; its result is named [`lowercase`] of the input.
#[verifier::external_body]
fn to_lowercase(s: &str) -> (r: String)
    ensures
        r@ == lowercase(s@),
{
    s.to_lowercase()
}

/// The component identifiers every AAuth signature covers, in order.
pub open spec fn base_component_names() -> Seq<Seq<char>> {
    seq!["@method"@, "@authority"@, "@path"@, "signature-key"@]
}

/// Names and values of the extra covered headers.
pub open spec fn extras_view(extras: Seq<(&str, &str)>) -> Seq<(Seq<char>, Seq<char>)> {
    extras.map_values(|e: (&str, &str)| (e.0@, e.1@))
}

/// All covered component identifiers: the base ones, then the extra headers.
pub open spec fn covered_names(extras: Seq<(Seq<char>, Seq<char>)>) -> Seq<Seq<char>> {
    base_component_names() + extras.map_values(|e: (Seq<char>, Seq<char>)| e.0)
}

/// Each name in double quotes.
pub open spec fn quoted_names(names: Seq<Seq<char>>) -> Seq<Seq<char>> {
    names.map_values(|n: Seq<char>| quote(n))
}

/// The quoted names separated by spaces.
pub open spec fn joined_names(names: Seq<Seq<char>>) -> Seq<char> {
    join(quoted_names(names), seq![' '])
}

/// `("c1" "c2" ...);created=N`, the `@signature-params` value.
pub open spec fn signature_params(names: Seq<Seq<char>>, created: u64) -> Seq<char> {
    seq!['('] + joined_names(names) + seq![')'] + ";created="@ + decimal(created as nat)
}

/// One line of the signature base: `"name": value`.
pub open spec fn base_line(name: Seq<char>, value: Seq<char>) -> Seq<char> {
    quote(name) + ": "@ + value
}

/// The lines of the signature base, in order.
pub open spec fn base_lines(
    method: Seq<char>,
    authority: Seq<char>,
    path: Seq<char>,
    signature_key: Seq<char>,
    created: u64,
    extras: Seq<(Seq<char>, Seq<char>)>,
) -> Seq<Seq<char>> {
    seq![
        base_line("@method"@, lowercase(method)),
        base_line("@authority"@, authority),
        base_line("@path"@, path),
        base_line("signature-key"@, signature_key),
    ] + extras.map_values(|e: (Seq<char>, Seq<char>)| base_line(e.0, e.1)) + seq![
        base_line("@signature-params"@, signature_params(covered_names(extras), created)),
    ]
}

/// The signature base: the lines joined by newlines.
pub open spec fn signature_base(
    method: Seq<char>,
    authority: Seq<char>,
    path: Seq<char>,
    signature_key: Seq<char>,
    created: u64,
    extras: Seq<(Seq<char>, Seq<char>)>,
) -> Seq<char> {
    join(base_lines(method, authority, path, signature_key, created, extras), seq!['\n'])
}

proof fn lemma_join_push(parts: Seq<Seq<char>>, p: Seq<char>, sep: Seq<char>)
    ensures
        join(parts.push(p), sep) == if parts.len() == 0 {
            p
        } else {
            join(parts, sep) + sep + p
        },
{
    assert(parts.push(p).drop_last() =~= parts);
    if parts.len() == 0 {
        assert(parts.push(p)[0] == p);
    }
}

/// `parts` joined by `sep`.
fn join_strings(parts: &Vec<String>, sep: &str) -> (r: String)
    ensures
        r@ == join(string_views(parts@), sep@),
{
    let mut r = String::new();
    let mut i: usize = 0;
    while i < parts.len()
        invariant
            i <= parts.len(),
            r@ == join(string_views(parts@.subrange(0, i as int)), sep@),
        decreases parts.len() - i,
    {
        proof {
            assert(string_views(parts@.subrange(0, i + 1)) =~= string_views(
                parts@.subrange(0, i as int),
            ).push(parts@[i as int]@));
            lemma_join_push(string_views(parts@.subrange(0, i as int)), parts@[i as int]@, sep@);
        }
        if i > 0 {
            r.append(sep);
        } else {
            proof {
                assert(r@ =~= Seq::<char>::empty());
            }
        }
        r.append(parts[i].as_str());
        i = i + 1;
    }
    proof {
        assert(parts@.subrange(0, parts@.len() as int) =~= parts@);
    }
    r
}

/// `"name"`.
fn quoted(name: &str) -> (r: String)
    ensures
        r@ == quote(name@),
{
    let mut r = String::new();
    push_char(&mut r, '"');
    r.append(name);
    push_char(&mut r, '"');
    proof {
        assert(r@ =~= quote(name@));
    }
    r
}

/// `"name": value`.
fn line(name: &str, value: &str) -> (r: String)
    ensures
        r@ == base_line(name@, value@),
{
    let mut r = quoted(name);
    r.append(": ");
    r.append(value);
    proof {
        assert(r@ =~= base_line(name@, value@));
    }
    r
}

/// Builds the signature base and the `@signature-params` value for a request,
/// covering `@method`, `@authority`, `@path`, `signature-key` and then each
/// extra `(header, value)` in order.
pub fn build_signature_base_with_extras(
    method: &str,
    authority: &str,
    path: &str,
    signature_key: &str,
    created: u64,
    extras: &[(&str, &str)],
) -> (r: (String, String))
    ensures
        r.0@ == signature_base(method@, authority@, path@, signature_key@, created, extras_view(extras@)),
        r.1@ == signature_params(covered_names(extras_view(extras@)), created),
{
    let ghost ev = extras_view(extras@);
    let ghost names = covered_names(ev);
    let ghost qnames = quoted_names(names);
    let mut components: Vec<String> = Vec::new();
    components.push(quoted("@method"));
    components.push(quoted("@authority"));
    components.push(quoted("@path"));
    components.push(quoted("signature-key"));
    let mut i: usize = 0;
    while i < extras.len()
        invariant
            i <= extras.len(),
            ev == extras_view(extras@),
            names == covered_names(ev),
            qnames == quoted_names(names),
            string_views(components@) =~= qnames.subrange(0, 4 + i),
        decreases extras.len() - i,
    {
        let (name, _) = extras[i];
        let ghost old_views = string_views(components@);
        let q = quoted(name);
        components.push(q);
        proof {
            assert(name@ == extras@[i as int].0@);
            assert(ev[i as int] == (extras@[i as int].0@, extras@[i as int].1@));
            assert(names[4 + i] == ev[i as int].0);
            assert(qnames[4 + i] == quote(name@));
            assert(string_views(components@) =~= old_views.push(q@));
            assert(qnames.subrange(0, 4 + i + 1) =~= qnames.subrange(0, 4 + i).push(qnames[4 + i]));
        }
        i = i + 1;
    }
    proof {
        assert(qnames.subrange(0, 4 + i) =~= qnames);
    }
    let inner = join_strings(&components, " ");
    let mut params = String::new();
    push_char(&mut params, '(');
    params.append(inner.as_str());
    push_char(&mut params, ')');
    params.append(";created=");
    let num = u64_to_decimal(created);
    params.append(num.as_str());
    proof {
        assert(" "@ =~= seq![' ']) by {
            reveal_strlit(" ");
        }
        assert(params@ =~= signature_params(names, created));
    }

    let ghost lines_spec = base_lines(method@, authority@, path@, signature_key@, created, ev);
    let lower = to_lowercase(method);
    let mut lines: Vec<String> = Vec::new();
    lines.push(line("@method", lower.as_str()));
    lines.push(line("@authority", authority));
    lines.push(line("@path", path));
    lines.push(line("signature-key", signature_key));
    let mut j: usize = 0;
    while j < extras.len()
        invariant
            j <= extras.len(),
            ev == extras_view(extras@),
            lines_spec == base_lines(method@, authority@, path@, signature_key@, created, ev),
            string_views(lines@) =~= lines_spec.subrange(0, 4 + j),
        decreases extras.len() - j,
    {
        let (name, value) = extras[j];
        let ghost old_views = string_views(lines@);
        let l = line(name, value);
        lines.push(l);
        proof {
            assert(name@ == extras@[j as int].0@);
            assert(value@ == extras@[j as int].1@);
            assert(ev[j as int] == (extras@[j as int].0@, extras@[j as int].1@));
            assert(lines_spec[4 + j] == base_line(name@, value@));
            assert(string_views(lines@) =~= old_views.push(l@));
            assert(lines_spec.subrange(0, 4 + j + 1) =~= lines_spec.subrange(0, 4 + j).push(
                lines_spec[4 + j],
            ));
        }
        j = j + 1;
    }
    let ghost before = string_views(lines@);
    let last = line("@signature-params", params.as_str());
    lines.push(last);
    proof {
        assert(string_views(lines@) =~= before.push(last@));
        assert(lines_spec.len() == 4 + extras@.len() + 1);
        assert(lines_spec[4 + j] == last@);
        assert(lines_spec =~= lines_spec.subrange(0, 4 + j).push(lines_spec[4 + j]));
        assert(string_views(lines@) =~= lines_spec);
    }
    let base = join_strings(&lines, "\n");
    proof {
        assert("\n"@ =~= seq!['\n']) by {
            reveal_strlit("\n");
        }
    }
    (base, params)
}

/// The signature base covering `@method`, `@authority`, `@path` and `signature-key`.
pub fn build_signature_base(
    method: &str,
    authority: &str,
    path: &str,
    signature_key: &str,
    created: u64,
) -> (r: String)
    ensures
        r@ == signature_base(method@, authority@, path@, signature_key@, created, Seq::empty()),
{
    let extras: [(&str, &str); 0] = [];
    let r = build_signature_base_with_extras(method, authority, path, signature_key, created, extras.as_slice());
    proof {
        assert(extras_view(extras@) =~= Seq::<(Seq<char>, Seq<char>)>::empty());
    }
    r.0
}

// ---------------------------------------------------------------------------------------------
// Reading Signature-Input and Signature
// ---------------------------------------------------------------------------------------------

/// The text of the `created` parameter: after the first `created=`, up to the next
/// `created=`, then up to the first `;`, trimmed.
pub open spec fn created_text(s: Seq<char>) -> Option<Seq<char>> {
    match find(s, "created="@) {
        None => None,
        Some(i) => {
            let after = s.subrange(i + "created="@.len(), s.len() as int);
            let seg = match find(after, "created="@) {
                None => after,
                Some(j) => after.subrange(0, j),
            };
            Some(trim(split_first(seg, ';')))
        },
    }
}

/// What [`parse_signature_created`] returns for `s`.
pub open spec fn signature_created(s: Seq<char>) -> Result<u64, SignatureError> {
    match created_text(s) {
        None => Err(SignatureError::MissingCreated),
        Some(t) => if parses_as_u64(t) {
            Ok(digits_value(unsigned_digits(t)) as u64)
        } else {
            Err(SignatureError::InvalidCreated)
        },
    }
}

/// Reads the `created` parameter of a `Signature-Input` value.
pub fn parse_signature_created(signature_input: &str) -> (r: Result<u64, SignatureError>)
    ensures
        r == signature_created(signature_input@),
{
    let v = chars_of(signature_input);
    let pat = chars_of("created=");
    match find_exec(&v, &pat) {
        None => Err(SignatureError::MissingCreated),
        Some(i) => {
            proof {
                lemma_find_from(v@, pat@, 0);
                assert(find(v@, pat@) == Some(i as int));
                assert(matches_at(v@, pat@, i as int));
            }
            let plen = pat.len();
            let vlen = v.len();
            assert(i + plen <= vlen);
            let after = sub_vec(&v, i + plen, vlen);
            let seg_end = match find_exec(&after, &pat) {
                None => after.len(),
                Some(j) => {
                    proof {
                        lemma_find_from(after@, pat@, 0);
                    }
                    j
                },
            };
            let seg = sub_vec(&after, 0, seg_end);
            proof {
                assert(seg@ =~= match find(after@, "created="@) {
                    None => after@,
                    Some(j) => after@.subrange(0, j),
                });
            }
            let e = match find_char_exec(&seg, ';') {
                None => seg.len(),
                Some(k) => {
                    proof {
                        lemma_find_char(seg@, ';');
                    }
                    k
                },
            };
            proof {
                assert(seg@.subrange(0, e as int) =~= split_first(seg@, ';'));
            }
            let (a, b) = trim_range(&seg, 0, e);
            match parse_u64(&seg, a, b) {
                Some(n) => Ok(n),
                None => Err(SignatureError::InvalidCreated),
            }
        },
    }
}

/// Quote-trimmed, non-empty covered component identifiers, in order.
pub open spec fn covered_list(words: Seq<Seq<char>>) -> Seq<Seq<char>>
    decreases words.len(),
{
    if words.len() == 0 {
        Seq::empty()
    } else {
        let rest = covered_list(words.drop_last());
        let c = trim_char(words.last(), '"');
        if c.len() > 0 {
            rest.push(c)
        } else {
            rest
        }
    }
}

/// The first `)` of `s` does not come before its first `(`.
pub open spec fn parens_in_order(s: Seq<char>) -> bool {
    find_char(s, '(') matches Some(a) && find_char(s, ')') matches Some(b) ==> a < b
}

/// What [`parse_covered_components`] returns for `s`: the white-space separated,
/// quote-trimmed, non-empty words between the first `(` and the first `)`.
pub open spec fn covered_components(s: Seq<char>) -> Result<Seq<Seq<char>>, SignatureError> {
    match (find_char(s, '('), find_char(s, ')')) {
        (Some(a), Some(b)) => Ok(covered_list(split_ws(s.subrange(a + 1, b)))),
        _ => Err(SignatureError::MissingCoveredComponents),
    }
}

pub open spec fn result_string_views(r: Result<Vec<String>, SignatureError>) -> Result<
    Seq<Seq<char>>,
    SignatureError,
> {
    match r {
        Ok(v) => Ok(string_views(v@)),
        Err(e) => Err(e),
    }
}

/// Reads the covered component identifiers of a `Signature-Input` value.
pub fn parse_covered_components(signature_input: &str) -> (r: Result<Vec<String>, SignatureError>)
    requires
        parens_in_order(signature_input@),
    ensures
        result_string_views(r) == covered_components(signature_input@),
{
    let v = chars_of(signature_input);
    let start = match find_char_exec(&v, '(') {
        None => {
            return Err(SignatureError::MissingCoveredComponents);
        },
        Some(a) => a,
    };
    let end = match find_char_exec(&v, ')') {
        None => {
            return Err(SignatureError::MissingCoveredComponents);
        },
        Some(b) => b,
    };
    proof {
        lemma_find_char(v@, '(');
        lemma_find_char(v@, ')');
    }
    let ghost words = split_ws(v@.subrange(start + 1, end as int));
    let ranges = split_ws_ranges(&v, start + 1, end);
    let mut out: Vec<String> = Vec::new();
    let mut k: usize = 0;
    while k < ranges.len()
        invariant
            k <= ranges.len(),
            start + 1 <= end <= v.len(),
            words == split_ws(v@.subrange(start + 1, end as int)),
            ranges@.len() == words.len(),
            forall|m: int|
                #![trigger ranges@[m]]
                0 <= m < ranges@.len() ==> start + 1 <= ranges@[m].0 <= ranges@[m].1 <= end
                    && v@.subrange(ranges@[m].0 as int, ranges@[m].1 as int) == words[m],
            string_views(out@) == covered_list(words.subrange(0, k as int)),
        decreases ranges.len() - k,
    {
        let (x, y) = ranges[k];
        proof {
            assert(ranges@[k as int] == (x, y));
        }
        let (p, q) = trim_char_range(&v, x, y, '"');
        proof {
            assert(words.subrange(0, k + 1).drop_last() =~= words.subrange(0, k as int));
            assert(words.subrange(0, k + 1).last() == words[k as int]);
        }
        if q > p {
            let c = string_of(&v, p, q);
            let ghost before = string_views(out@);
            out.push(c);
            proof {
                assert(string_views(out@) =~= before.push(c@));
            }
        }
        k = k + 1;
    }
    proof {
        assert(words.subrange(0, words.len() as int) =~= words);
    }
    Ok(out)
}

/// The base64url text of a `Signature` value `sig=:...:`.
pub open spec fn signature_value_text(s: Seq<char>) -> Option<Seq<char>> {
    match strip_prefix(s, "sig=:"@) {
        None => None,
        Some(rest) => if rest.len() > 0 && rest.last() == ':' {
            Some(rest.drop_last())
        } else {
            None
        },
    }
}

/// What [`parse_signature_value`] returns for `s`.
pub open spec fn signature_value(s: Seq<char>) -> Result<Seq<u8>, SignatureError> {
    match signature_value_text(s) {
        None => Err(SignatureError::InvalidSignatureFormat),
        Some(t) => match base64url_decoded(t) {
            None => Err(SignatureError::InvalidEncoding),
            Some(b) => Ok(b),
        },
    }
}

pub open spec fn result_bytes_view(r: Result<Vec<u8>, SignatureError>) -> Result<Seq<u8>, SignatureError> {
    match r {
        Ok(v) => Ok(v@),
        Err(e) => Err(e),
    }
}

/// Decodes the signature bytes of a `Signature` value `sig=:<base64url>:`.
pub fn parse_signature_value(signature: &str) -> (r: Result<Vec<u8>, SignatureError>)
    ensures
        result_bytes_view(r) == signature_value(signature@),
{
    let v = chars_of(signature);
    let prefix = chars_of("sig=:");
    if !starts_with_exec(&v, &prefix) {
        return Err(SignatureError::InvalidSignatureFormat);
    }
    let n = v.len();
    let plen = prefix.len();
    proof {
        assert(strip_prefix(signature@, "sig=:"@) == Some(v@.subrange(plen as int, n as int)));
    }
    if n <= plen || v[n - 1] != ':' {
        return Err(SignatureError::InvalidSignatureFormat);
    }
    let text = string_of(&v, plen, n - 1);
    proof {
        assert(v@.subrange(plen as int, n as int).drop_last() =~= text@);
    }
    match base64url_decode(text.as_str()) {
        Ok(bytes) => Ok(bytes),
        Err(_) => Err(SignatureError::InvalidEncoding),
    }
}

// ---------------------------------------------------------------------------------------------
// Signature-Key
// ---------------------------------------------------------------------------------------------

/// The quoted `jwt` parameter of a `Signature-Key` value.
pub open spec fn key_jwt_text(value: Seq<char>) -> Result<Seq<char>, SignatureError> {
    match find(value, "jwt=\""@) {
        None => Err(SignatureError::MissingJwtParam),
        Some(i) => {
            let rest = value.subrange(i + "jwt=\""@.len(), value.len() as int);
            match find_char(rest, '"') {
                None => Err(SignatureError::JwtNotQuoted),
                Some(e) => Ok(rest.subrange(0, e)),
            }
        },
    }
}

/// What [`parse_signature_key_jwt`] returns for headers with these entries.
pub open spec fn signature_key_jwt(entries: Seq<(Seq<char>, Seq<u8>)>) -> Result<
    Seq<char>,
    SignatureError,
> {
    match header_text(entries, "signature-key"@) {
        None => Err(SignatureError::MissingSignatureKey),
        Some(v) => key_jwt_text(v),
    }
}

pub open spec fn result_string_view(r: Result<String, SignatureError>) -> Result<Seq<char>, SignatureError> {
    match r {
        Ok(s) => Ok(s@),
        Err(e) => Err(e),
    }
}

fn key_jwt_of(value: &str) -> (r: Result<String, SignatureError>)
    ensures
        result_string_view(r) == key_jwt_text(value@),
{
    let v = chars_of(value);
    let pat = chars_of("jwt=\"");
    match find_exec(&v, &pat) {
        None => Err(SignatureError::MissingJwtParam),
        Some(i) => {
            proof {
                lemma_find_from(v@, pat@, 0);
                assert(find(v@, pat@) == Some(i as int));
                assert(matches_at(v@, pat@, i as int));
            }
            let plen = pat.len();
            let vlen = v.len();
            assert(i + plen <= vlen);
            let rest = sub_vec(&v, i + plen, vlen);
            match find_char_exec(&rest, '"') {
                None => Err(SignatureError::JwtNotQuoted),
                Some(e) => {
                    proof {
                        lemma_find_char(rest@, '"');
                    }
                    Ok(string_of(&rest, 0, e))
                },
            }
        },
    }
}

/// Reads the JWT of the `Signature-Key` header (`sig=jwt;jwt="..."`).
pub fn parse_signature_key_jwt(headers: &http::HeaderMap) -> (r: Result<String, SignatureError>)
    ensures
        result_string_view(r) == signature_key_jwt(header_entries(*headers)),
{
    match header_value(headers, "signature-key") {
        None => Err(SignatureError::MissingSignatureKey),
        Some(v) => key_jwt_of(v.as_str()),
    }
}

// ---------------------------------------------------------------------------------------------
// Verifying
// ---------------------------------------------------------------------------------------------

/// What decoding the `Signature-Key` JWT (without checking its signature) gives:
/// the base64url `x` of its `cnf.jwk` Ed25519 key and that key's JWK thumbprint.
#[derive(Debug, Clone)]
pub struct ConfirmationKey {
    pub x: String,
    pub thumbprint: String,
}

impl View for ConfirmationKey {
    type V = (Seq<char>, Seq<char>);

    open spec fn view(&self) -> (Seq<char>, Seq<char>) {
        (self.x@, self.thumbprint@)
    }
}

/// `name` is one of the covered components.
pub open spec fn has_component(covered: Seq<Seq<char>>, name: Seq<char>) -> bool {
    exists|i: int| 0 <= i < covered.len() && covered[i] == name
}

/// The first required component that is not covered.
pub open spec fn first_missing_component(covered: Seq<Seq<char>>) -> Option<CoveredComponent> {
    if !has_component(covered, CoveredComponent::Method.name()) {
        Some(CoveredComponent::Method)
    } else if !has_component(covered, CoveredComponent::Authority.name()) {
        Some(CoveredComponent::Authority)
    } else if !has_component(covered, CoveredComponent::Path.name()) {
        Some(CoveredComponent::Path)
    } else if !has_component(covered, CoveredComponent::SignatureKey.name()) {
        Some(CoveredComponent::SignatureKey)
    } else {
        None
    }
}

/// The Signature-Input header, when present, has its `(` before its `)`.
pub open spec fn signature_input_readable(entries: Seq<(Seq<char>, Seq<u8>)>) -> bool {
    header_text(entries, "signature-input"@) matches Some(t) ==> parens_in_order(t)
}

/// Verification policy the functions below can apply without overflow.
pub open spec fn options_usable(options: SignatureVerifyOptions) -> bool {
    options.clock_skew_secs >= 0 && options.max_age_secs + options.clock_skew_secs <= u64::MAX
}

/// The public key encoded by the base64url `x` of a JWK, or why it is unusable.
pub open spec fn jwk_public_key(x: Seq<char>) -> Result<Seq<u8>, SignatureError> {
    match base64url_decoded(x) {
        None => Err(SignatureError::InvalidEncoding),
        Some(pk) => if pk.len() != 32 {
            Err(SignatureError::InvalidKeyLength)
        } else if !ed25519_public_key_valid(pk) {
            Err(SignatureError::InvalidVerifyingKey)
        } else {
            Ok(pk)
        },
    }
}

/// The extra covered headers of a request: `authorization` when it is covered.
pub open spec fn authorization_extras(covered: Seq<Seq<char>>, authorization: Option<Seq<char>>) -> Seq<
    (Seq<char>, Seq<char>),
> {
    if has_component(covered, "authorization"@) && authorization is Some {
        seq![("authorization"@, authorization->0)]
    } else {
        Seq::empty()
    }
}

/// The checks after the signature's freshness: the covered `authorization`
/// header, the signature bytes, the key, and the Ed25519 verification.
pub open spec fn signature_check(
    method: Seq<char>,
    authority: Seq<char>,
    path: Seq<char>,
    entries: Seq<(Seq<char>, Seq<u8>)>,
    key: Seq<char>,
    sig: Seq<char>,
    covered: Seq<Seq<char>>,
    created: u64,
    x: Seq<char>,
) -> Result<(), SignatureError> {
    let authorization = header_text(entries, "authorization"@);
    if has_component(covered, "authorization"@) && authorization is None {
        Err(SignatureError::AuthorizationHeaderMissing)
    } else {
        let base = signature_base(
            method,
            authority,
            path,
            key,
            created,
            authorization_extras(covered, authorization),
        );
        match signature_value(sig) {
            Err(e) => Err(e),
            Ok(sig_bytes) => match jwk_public_key(x) {
                Err(e) => Err(e),
                Ok(pk) => if sig_bytes.len() != 64 {
                    Err(SignatureError::InvalidSignatureBytes)
                } else if !ed25519_signature_valid(pk, encode_utf8(base), sig_bytes) {
                    Err(SignatureError::VerificationFailed)
                } else {
                    Ok(())
                },
            },
        }
    }
}

/// What [`verify_request_signature_at`] returns: the JWT and key thumbprint of a
/// valid, fresh signature, or the first check that fails.
pub open spec fn request_signature(
    method: Seq<char>,
    authority: Seq<char>,
    path: Seq<char>,
    entries: Seq<(Seq<char>, Seq<u8>)>,
    options: SignatureVerifyOptions,
    now: u64,
    confirmation: Option<(Seq<char>, Seq<char>)>,
) -> Result<(Seq<char>, Seq<char>), SignatureError> {
    match header_text(entries, "signature-key"@) {
        None => Err(SignatureError::MissingSignatureKey),
        Some(key) => match header_text(entries, "signature-input"@) {
            None => Err(SignatureError::MissingSignatureInput),
            Some(input) => match header_text(entries, "signature"@) {
                None => Err(SignatureError::MissingSignature),
                Some(sig) => match covered_components(input) {
                    Err(e) => Err(e),
                    Ok(covered) => match first_missing_component(covered) {
                        Some(c) => Err(SignatureError::MissingComponent(c)),
                        None => if options.require_authorization && !has_component(
                            covered,
                            "authorization"@,
                        ) {
                            Err(SignatureError::MissingAuthorizationComponent)
                        } else {
                            match key_jwt_text(key) {
                                Err(e) => Err(e),
                                Ok(jwt) => match confirmation {
                                    None => Err(SignatureError::Jwt),
                                    Some((x, thumbprint)) => match signature_created(input) {
                                        Err(e) => Err(e),
                                        Ok(created) => if created > now
                                            + options.clock_skew_secs {
                                            Err(SignatureError::CreatedInFuture)
                                        } else if (if now >= created {
                                            now - created
                                        } else {
                                            0
                                        }) > options.max_age_secs + options.clock_skew_secs {
                                            Err(SignatureError::Expired)
                                        } else {
                                            match signature_check(
                                                method,
                                                authority,
                                                path,
                                                entries,
                                                key,
                                                sig,
                                                covered,
                                                created,
                                                x,
                                            ) {
                                                Err(e) => Err(e),
                                                Ok(_) => Ok((jwt, thumbprint)),
                                            }
                                        },
                                    },
                                },
                            }
                        },
                    },
                },
            },
        },
    }
}

pub open spec fn verified_view(r: Result<VerifiedSignature, SignatureError>) -> Result<
    (Seq<char>, Seq<char>),
    SignatureError,
> {
    match r {
        Ok(v) => Ok((v.jwt@, v.thumbprint@)),
        Err(e) => Err(e),
    }
}

pub open spec fn confirmation_view(c: Option<ConfirmationKey>) -> Option<(Seq<char>, Seq<char>)> {
    match c {
        Some(k) => Some(k@),
        None => None,
    }
}

fn has_component_exec(covered: &Vec<String>, name: &str) -> (b: bool)
    ensures
        b == has_component(string_views(covered@), name@),
{
    let mut i: usize = 0;
    while i < covered.len()
        invariant
            i <= covered.len(),
            forall|j: int| 0 <= j < i ==> covered@[j]@ != name@,
        decreases covered.len() - i,
    {
        if crate::common::str_eq(covered[i].as_str(), name) {
            proof {
                assert(string_views(covered@)[i as int] == name@);
            }
            return true;
        }
        i = i + 1;
    }
    proof {
        assert forall|j: int| 0 <= j < covered@.len() implies string_views(covered@)[j] != name@ by {
            assert(string_views(covered@)[j] == covered@[j]@);
        }
    }
    false
}

/// The public key of a JWK's base64url `x` member.
fn verifying_key_from_x(x: &str) -> (r: Result<Ed25519PublicKey, SignatureError>)
    ensures
        match jwk_public_key(x@) {
            Err(e) => r == Err::<Ed25519PublicKey, SignatureError>(e),
            Ok(pk) => r matches Ok(k) && k.encoded() == pk,
        },
{
    let bytes = match base64url_decode(x) {
        Ok(b) => b,
        Err(_) => {
            return Err(SignatureError::InvalidEncoding);
        },
    };
    if bytes.len() != 32 {
        return Err(SignatureError::InvalidKeyLength);
    }
    match ed25519_public_key(bytes.as_slice()) {
        Some(k) => Ok(k),
        None => Err(SignatureError::InvalidVerifyingKey),
    }
}

fn check_signature(
    method: &str,
    authority: &str,
    path: &str,
    headers: &http::HeaderMap,
    signature_key: &String,
    signature_header: &String,
    covered: &Vec<String>,
    created: u64,
    x: &String,
) -> (r: Result<(), SignatureError>)
    ensures
        r == signature_check(
            method@,
            authority@,
            path@,
            header_entries(*headers),
            signature_key@,
            signature_header@,
            string_views(covered@),
            created,
            x@,
        ),
{
    let covers_authorization = has_component_exec(covered, "authorization");
    let authorization = header_value(headers, "authorization");
    if covers_authorization && authorization.is_none() {
        return Err(SignatureError::AuthorizationHeaderMissing);
    }
    let base = match &authorization {
        Some(a) => {
            if covers_authorization {
                let extras = [("authorization", a.as_str())];
                let r = build_signature_base_with_extras(
                    method,
                    authority,
                    path,
                    signature_key.as_str(),
                    created,
                    extras.as_slice(),
                );
                proof {
                    assert(extras_view(extras@) =~= seq![("authorization"@, a@)]);
                }
                r.0
            } else {
                build_signature_base(method, authority, path, signature_key.as_str(), created)
            }
        },
        None => build_signature_base(method, authority, path, signature_key.as_str(), created),
    };
    let sig_bytes = match parse_signature_value(signature_header.as_str()) {
        Ok(b) => b,
        Err(e) => {
            return Err(e);
        },
    };
    let key = match verifying_key_from_x(x.as_str()) {
        Ok(k) => k,
        Err(e) => {
            return Err(e);
        },
    };
    let sig = match ed25519_signature(sig_bytes.as_slice()) {
        Some(s) => s,
        None => {
            return Err(SignatureError::InvalidSignatureBytes);
        },
    };
    if !ed25519_verify(&key, base.as_str().as_bytes(), &sig) {
        return Err(SignatureError::VerificationFailed);
    }
    Ok(())
}

/// Verifies the HTTP message signature of a request at time `now` (seconds since
/// the Unix epoch), given what decoding its `Signature-Key` JWT gave (`None` when
/// the JWT could not be decoded).
pub fn verify_request_signature_at(
    method: &str,
    authority: &str,
    path: &str,
    headers: &http::HeaderMap,
    options: &SignatureVerifyOptions,
    now: u64,
    confirmation: &Option<ConfirmationKey>,
) -> (r: Result<VerifiedSignature, SignatureError>)
    requires
        signature_input_readable(header_entries(*headers)),
        options_usable(*options),
    ensures
        verified_view(r) == request_signature(
            method@,
            authority@,
            path@,
            header_entries(*headers),
            *options,
            now,
            confirmation_view(*confirmation),
        ),
{
    let signature_key = match header_value(headers, "signature-key") {
        Some(v) => v,
        None => {
            return Err(SignatureError::MissingSignatureKey);
        },
    };
    let signature_input = match header_value(headers, "signature-input") {
        Some(v) => v,
        None => {
            return Err(SignatureError::MissingSignatureInput);
        },
    };
    let signature_header = match header_value(headers, "signature") {
        Some(v) => v,
        None => {
            return Err(SignatureError::MissingSignature);
        },
    };
    let covered = match parse_covered_components(signature_input.as_str()) {
        Ok(c) => c,
        Err(e) => {
            return Err(e);
        },
    };
    if !has_component_exec(&covered, "@method") {
        return Err(SignatureError::MissingComponent(CoveredComponent::Method));
    }
    if !has_component_exec(&covered, "@authority") {
        return Err(SignatureError::MissingComponent(CoveredComponent::Authority));
    }
    if !has_component_exec(&covered, "@path") {
        return Err(SignatureError::MissingComponent(CoveredComponent::Path));
    }
    if !has_component_exec(&covered, "signature-key") {
        return Err(SignatureError::MissingComponent(CoveredComponent::SignatureKey));
    }
    if options.require_authorization && !has_component_exec(&covered, "authorization") {
        return Err(SignatureError::MissingAuthorizationComponent);
    }
    let jwt = match parse_signature_key_jwt(headers) {
        Ok(j) => j,
        Err(e) => {
            return Err(e);
        },
    };
    let conf = match confirmation {
        Some(c) => c,
        None => {
            return Err(SignatureError::Jwt);
        },
    };
    let created = match parse_signature_created(signature_input.as_str()) {
        Ok(c) => c,
        Err(e) => {
            return Err(e);
        },
    };
    let skew: u64 = options.clock_skew_secs as u64;
    if (created as u128) > (now as u128) + (skew as u128) {
        return Err(SignatureError::CreatedInFuture);
    }
    let age: u64 = if now >= created {
        now - created
    } else {
        0
    };
    if age > options.max_age_secs + skew {
        return Err(SignatureError::Expired);
    }
    match check_signature(
        method,
        authority,
        path,
        headers,
        &signature_key,
        &signature_header,
        &covered,
        created,
        &conf.x,
    ) {
        Err(e) => Err(e),
        Ok(_) => Ok(VerifiedSignature { jwt, thumbprint: conf.thumbprint.clone() }),
    }
}

/// The error a request is refused with before the clock is read: a missing
/// header, unreadable or incomplete covered components, an unreadable
/// `Signature-Key`, an undecodable JWT, or an unreadable `created`; `None` when
/// all of these pass.
pub open spec fn pre_clock_error(
    entries: Seq<(Seq<char>, Seq<u8>)>,
    options: SignatureVerifyOptions,
    confirmation: Option<(Seq<char>, Seq<char>)>,
) -> Option<SignatureError> {
    match header_text(entries, "signature-key"@) {
        None => Some(SignatureError::MissingSignatureKey),
        Some(key) => match header_text(entries, "signature-input"@) {
            None => Some(SignatureError::MissingSignatureInput),
            Some(input) => match header_text(entries, "signature"@) {
                None => Some(SignatureError::MissingSignature),
                Some(sig) => match covered_components(input) {
                    Err(e) => Some(e),
                    Ok(covered) => match first_missing_component(covered) {
                        Some(c) => Some(SignatureError::MissingComponent(c)),
                        None => if options.require_authorization && !has_component(
                            covered,
                            "authorization"@,
                        ) {
                            Some(SignatureError::MissingAuthorizationComponent)
                        } else {
                            match key_jwt_text(key) {
                                Err(e) => Some(e),
                                Ok(jwt) => match confirmation {
                                    None => Some(SignatureError::Jwt),
                                    Some(_) => match signature_created(input) {
                                        Err(e) => Some(e),
                                        Ok(_) => None,
                                    },
                                },
                            }
                        },
                    },
                },
            },
        },
    }
}

/// What verifying a request gives when the clock reads `clock` (seconds since the
/// Unix epoch, `None` before it): a request refused before the clock is read is
/// refused so whatever the clock reads; otherwise it is refused with
/// `ClockBeforeEpoch` before the epoch, else it is [`request_signature`] at that
/// time.
pub open spec fn request_signature_by_clock(
    method: Seq<char>,
    authority: Seq<char>,
    path: Seq<char>,
    entries: Seq<(Seq<char>, Seq<u8>)>,
    options: SignatureVerifyOptions,
    clock: Option<u64>,
    confirmation: Option<(Seq<char>, Seq<char>)>,
) -> Result<(Seq<char>, Seq<char>), SignatureError> {
    match pre_clock_error(entries, options, confirmation) {
        Some(e) => Err(e),
        None => match clock {
            None => Err(SignatureError::ClockBeforeEpoch),
            Some(now) => request_signature(method, authority, path, entries, options, now, confirmation),
        },
    }
}

/// A request refused before the clock is read is refused with that error at
/// every time.
pub proof fn lemma_pre_clock_error_at_every_time(
    method: Seq<char>,
    authority: Seq<char>,
    path: Seq<char>,
    entries: Seq<(Seq<char>, Seq<u8>)>,
    options: SignatureVerifyOptions,
    now: u64,
    confirmation: Option<(Seq<char>, Seq<char>)>,
)
    requires
        pre_clock_error(entries, options, confirmation) is Some,
    ensures
        request_signature(method, authority, path, entries, options, now, confirmation) == Err::<
            (Seq<char>, Seq<char>),
            SignatureError,
        >(pre_clock_error(entries, options, confirmation)->0),
{
}

/// The checks of a request signature that need no clock, in the order the
/// verifier makes them.
fn pre_clock_check(
    headers: &http::HeaderMap,
    options: &SignatureVerifyOptions,
    confirmation: &Option<ConfirmationKey>,
) -> (r: Option<SignatureError>)
    requires
        signature_input_readable(header_entries(*headers)),
    ensures
        r == pre_clock_error(header_entries(*headers), *options, confirmation_view(*confirmation)),
{
    let signature_key = match header_value(headers, "signature-key") {
        Some(v) => v,
        None => {
            return Some(SignatureError::MissingSignatureKey);
        },
    };
    let signature_input = match header_value(headers, "signature-input") {
        Some(v) => v,
        None => {
            return Some(SignatureError::MissingSignatureInput);
        },
    };
    match header_value(headers, "signature") {
        Some(_) => {},
        None => {
            return Some(SignatureError::MissingSignature);
        },
    }
    let covered = match parse_covered_components(signature_input.as_str()) {
        Ok(c) => c,
        Err(e) => {
            return Some(e);
        },
    };
    if !has_component_exec(&covered, "@method") {
        return Some(SignatureError::MissingComponent(CoveredComponent::Method));
    }
    if !has_component_exec(&covered, "@authority") {
        return Some(SignatureError::MissingComponent(CoveredComponent::Authority));
    }
    if !has_component_exec(&covered, "@path") {
        return Some(SignatureError::MissingComponent(CoveredComponent::Path));
    }
    if !has_component_exec(&covered, "signature-key") {
        return Some(SignatureError::MissingComponent(CoveredComponent::SignatureKey));
    }
    if options.require_authorization && !has_component_exec(&covered, "authorization") {
        return Some(SignatureError::MissingAuthorizationComponent);
    }
    match parse_signature_key_jwt(headers) {
        Ok(_) => {},
        Err(e) => {
            return Some(e);
        },
    }
    if confirmation.is_none() {
        return Some(SignatureError::Jwt);
    }
    match parse_signature_created(signature_input.as_str()) {
        Ok(_) => None,
        Err(e) => Some(e),
    }
}

/// Verifies the HTTP message signature of a request against the system clock.
pub fn verify_request_signature_with_options(
    method: &str,
    authority: &str,
    path: &str,
    headers: &http::HeaderMap,
    options: &SignatureVerifyOptions,
    confirmation: &Option<ConfirmationKey>,
) -> (r: Result<VerifiedSignature, SignatureError>)
    requires
        signature_input_readable(header_entries(*headers)),
        options_usable(*options),
    ensures
        exists|clock: Option<u64>|
            verified_view(r) == #[trigger] request_signature_by_clock(
                method@,
                authority@,
                path@,
                header_entries(*headers),
                *options,
                clock,
                confirmation_view(*confirmation),
            ),
{
    match pre_clock_check(headers, options, confirmation) {
        Some(e) => {
            let r = Err(e);
            assert(verified_view(r) == request_signature_by_clock(
                method@,
                authority@,
                path@,
                header_entries(*headers),
                *options,
                None,
                confirmation_view(*confirmation),
            ));
            return r;
        },
        None => {},
    }
    let clock = now_unix_secs();
    match clock {
        None => {
            let r = Err(SignatureError::ClockBeforeEpoch);
            assert(verified_view(r) == request_signature_by_clock(
                method@,
                authority@,
                path@,
                header_entries(*headers),
                *options,
                clock,
                confirmation_view(*confirmation),
            ));
            r
        },
        Some(now) => {
            let r = verify_request_signature_at(method, authority, path, headers, options, now, confirmation);
            assert(verified_view(r) == request_signature_by_clock(
                method@,
                authority@,
                path@,
                header_entries(*headers),
                *options,
                clock,
                confirmation_view(*confirmation),
            ));
            r
        },
    }
}

/// Verifies the HTTP message signature of a request against the system clock,
/// with the default freshness policy.
pub fn verify_request_signature(
    method: &str,
    authority: &str,
    path: &str,
    headers: &http::HeaderMap,
    confirmation: &Option<ConfirmationKey>,
) -> (r: Result<VerifiedSignature, SignatureError>)
    requires
        signature_input_readable(header_entries(*headers)),
    ensures
        exists|clock: Option<u64>|
            verified_view(r) == #[trigger] request_signature_by_clock(
                method@,
                authority@,
                path@,
                header_entries(*headers),
                SignatureVerifyOptions {
                    max_age_secs: DEFAULT_SIGNATURE_MAX_AGE_SECS,
                    clock_skew_secs: SIGNATURE_CLOCK_SKEW_SECS,
                    require_authorization: false,
                },
                clock,
                confirmation_view(*confirmation),
            ),
{
    let options = SignatureVerifyOptions::default_options();
    proof {
        assert(options == SignatureVerifyOptions {
            max_age_secs: DEFAULT_SIGNATURE_MAX_AGE_SECS,
            clock_skew_secs: SIGNATURE_CLOCK_SKEW_SECS,
            require_authorization: false,
        });
    }
    verify_request_signature_with_options(method, authority, path, headers, &options, confirmation)
}

// ---------------------------------------------------------------------------------------------
// Signing
// ---------------------------------------------------------------------------------------------

/// An Ed25519 (`OKP`) private JWK, as far as signing reads it: its base64url `d`.
#[derive(Debug, Clone)]
pub struct OkpSigningJwk {
    pub d: String,
}

/// The secret key encoded by the base64url `d` of a JWK, or why it is unusable.
pub open spec fn jwk_secret_key(d: Seq<char>) -> Result<Seq<u8>, SignatureError> {
    match base64url_decoded(d) {
        None => Err(SignatureError::InvalidEncoding),
        Some(b) => if b.len() != 32 {
            Err(SignatureError::InvalidKeyLength)
        } else {
            Ok(b)
        },
    }
}

/// Reads the Ed25519 signing key of a private JWK.
pub fn signing_key_from_jwk(jwk: &OkpSigningJwk) -> (r: Result<Ed25519SecretKey, SignatureError>)
    ensures
        match jwk_secret_key(jwk.d@) {
            Err(e) => r == Err::<Ed25519SecretKey, SignatureError>(e),
            Ok(b) => r matches Ok(k) && k.encoded() == b,
        },
{
    let bytes = match base64url_decode(jwk.d.as_str()) {
        Ok(b) => b,
        Err(_) => {
            return Err(SignatureError::InvalidEncoding);
        },
    };
    match ed25519_secret_key(bytes.as_slice()) {
        Some(k) => Ok(k),
        None => Err(SignatureError::InvalidKeyLength),
    }
}

/// What is known of the base64url `x` of the public key of the secret key `sk`:
/// it encodes that key, which is a valid public key accepting every signature `sk` makes.
pub open spec fn public_x_of(sk: Seq<u8>, x: Seq<char>) -> bool {
    let pk = ed25519_public_of(sk);
    &&& x == base64url_encoded(pk)
    &&& base64url_decoded(x) == Some(pk)
    &&& pk.len() == 32
    &&& ed25519_public_key_valid(pk)
    &&& forall|m: Seq<u8>| #[trigger] ed25519_signature_valid(pk, m, ed25519_signature_of(sk, m))
}

impl OkpSigningJwk {
    /// The base64url `x` of the public key that goes with this private key.
    pub fn public_x(&self) -> (r: Result<String, SignatureError>)
        ensures
            match jwk_secret_key(self.d@) {
                Err(e) => r == Err::<String, SignatureError>(e),
                Ok(sk) => r matches Ok(x) && public_x_of(sk, x@),
            },
    {
        let key = match signing_key_from_jwk(self) {
            Ok(k) => k,
            Err(e) => {
                return Err(e);
            },
        };
        let public = ed25519_public_key_of(&key);
        Ok(base64url_encode(public.as_slice()))
    }
}

/// `Signature-Key` value presenting a JWT: `sig=jwt;jwt="<jwt>"`.
pub open spec fn outbound_key_text(jwt: Seq<char>) -> Seq<char> {
    "sig=jwt;jwt=\""@ + jwt + seq!['"']
}

/// The extra covered headers of an outbound request.
pub open spec fn outbound_extras(authorization: Option<Seq<char>>) -> Seq<(Seq<char>, Seq<char>)> {
    match authorization {
        Some(a) => seq![("authorization"@, a)],
        None => Seq::empty(),
    }
}

/// `Signature-Input` value of an outbound request: `sig=("@method" ...);created=N`.
pub open spec fn outbound_input_text(authorization: Option<Seq<char>>, created: u64) -> Seq<char> {
    "sig="@ + signature_params(covered_names(outbound_extras(authorization)), created)
}

/// `Signature` value: `sig=:<base64url>:`.
pub open spec fn outbound_signature_text(signature: Seq<u8>) -> Seq<char> {
    "sig=:"@ + base64url_encoded(signature) + seq![':']
}

/// The header entries after writing the three signature headers in order,
/// stopping at the first value `HeaderValue::from_str` refuses.
pub open spec fn outbound_entries(
    entries: Seq<(Seq<char>, Seq<u8>)>,
    key: Seq<char>,
    input: Seq<char>,
    sig: Seq<char>,
) -> Seq<(Seq<char>, Seq<u8>)> {
    if !header_value_text(key) {
        entries
    } else {
        let e1 = inserted(entries, "signature-key"@, encode_utf8(key));
        if !header_value_text(input) {
            e1
        } else {
            let e2 = inserted(e1, "signature-input"@, encode_utf8(input));
            if !header_value_text(sig) {
                e2
            } else {
                inserted(e2, "signature"@, encode_utf8(sig))
            }
        }
    }
}

/// Whether all three signature header values are acceptable.
pub open spec fn outbound_result(key: Seq<char>, input: Seq<char>, sig: Seq<char>) -> Result<
    (),
    SignatureError,
> {
    if header_value_text(key) && header_value_text(input) && header_value_text(sig) {
        Ok(())
    } else {
        Err(SignatureError::InvalidHeaderValue)
    }
}

pub open spec fn opt_str_view(o: Option<&str>) -> Option<Seq<char>> {
    match o {
        Some(s) => Some(s@),
        None => None,
    }
}

/// The signature an outbound request carries, made with the secret key `sk`.
pub open spec fn outbound_signature(
    sk: Seq<u8>,
    method: Seq<char>,
    authority: Seq<char>,
    path: Seq<char>,
    jwt: Seq<char>,
    authorization: Option<Seq<char>>,
    created: u64,
) -> Seq<u8> {
    ed25519_signature_of(
        sk,
        encode_utf8(
            signature_base(
                method,
                authority,
                path,
                outbound_key_text(jwt),
                created,
                outbound_extras(authorization),
            ),
        ),
    )
}

/// The outcome of signing an outbound request created at `created` with the
/// private JWK member `d`: an unusable key changes nothing; otherwise the three
/// signature headers are written in order until a value is refused.
pub open spec fn outbound_signed(
    before: Seq<(Seq<char>, Seq<u8>)>,
    after: Seq<(Seq<char>, Seq<u8>)>,
    r: Result<(), SignatureError>,
    method: Seq<char>,
    authority: Seq<char>,
    path: Seq<char>,
    jwt: Seq<char>,
    d: Seq<char>,
    authorization: Option<Seq<char>>,
    created: u64,
) -> bool {
    match jwk_secret_key(d) {
        Err(e) => r == Err::<(), SignatureError>(e) && after == before,
        Ok(sk) => {
            let key = outbound_key_text(jwt);
            let input = outbound_input_text(authorization, created);
            let sig = outbound_signature_text(
                outbound_signature(sk, method, authority, path, jwt, authorization, created),
            );
            &&& r == outbound_result(key, input, sig)
            &&& after == outbound_entries(before, key, input, sig)
            &&& signature_encoding(
                outbound_signature(sk, method, authority, path, jwt, authorization, created),
            )
        },
    }
}

/// What is known of the encoding of signature bytes: 64 bytes, written in the
/// base64url alphabet, decoding back to themselves.
pub open spec fn signature_encoding(sig: Seq<u8>) -> bool {
    &&& sig.len() == 64
    &&& base64url_decoded(base64url_encoded(sig)) == Some(sig)
    &&& forall|i: int|
        0 <= i < base64url_encoded(sig).len() ==> is_base64url_char(
            #[trigger] base64url_encoded(sig)[i],
        )
}

fn insert_header(
    headers: &mut http::HeaderMap,
    name: &'static str,
    value: &str,
) -> (r: Result<(), SignatureError>)
    requires
        crate::header_map::static_header_name(name@),
        header_entries(*old(headers)).len() <= 6553,
    ensures
        r is Ok <==> header_value_text(value@),
        r is Ok ==> r == Ok::<(), SignatureError>(()),
        r is Ok ==> header_entries(*final(headers)) == inserted(
            header_entries(*old(headers)),
            name@,
            encode_utf8(value@),
        ),
        r is Err ==> r == Err::<(), SignatureError>(SignatureError::InvalidHeaderValue)
            && header_entries(*final(headers)) == header_entries(*old(headers)),
{
    match header_map_insert(headers, name, value) {
        Ok(_) => Ok(()),
        Err(_) => Err(SignatureError::InvalidHeaderValue),
    }
}

/// Signs an outbound request created at `created` (seconds since the Unix epoch)
/// and writes its `Signature-Key`, `Signature-Input` and `Signature` headers.
pub fn apply_outbound_signature_at(
    headers: &mut http::HeaderMap,
    method: &str,
    authority: &str,
    path: &str,
    signature_key_jwt: &str,
    signing_jwk: &OkpSigningJwk,
    authorization: Option<&str>,
    created: u64,
) -> (r: Result<(), SignatureError>)
    requires
        header_entries(*old(headers)).len() + 3 <= 6553,
    ensures
        outbound_signed(
            header_entries(*old(headers)),
            header_entries(*final(headers)),
            r,
            method@,
            authority@,
            path@,
            signature_key_jwt@,
            signing_jwk.d@,
            opt_str_view(authorization),
            created,
        ),
{
    let mut signature_key = String::from_str("sig=jwt;jwt=\"");
    signature_key.append(signature_key_jwt);
    push_char(&mut signature_key, '"');
    proof {
        assert(signature_key@ =~= outbound_key_text(signature_key_jwt@));
    }
    let (base, params) = match authorization {
        Some(a) => {
            let extras = [("authorization", a)];
            proof {
                assert(extras_view(extras@) =~= outbound_extras(opt_str_view(authorization)));
            }
            build_signature_base_with_extras(
                method,
                authority,
                path,
                signature_key.as_str(),
                created,
                extras.as_slice(),
            )
        },
        None => {
            let extras: [(&str, &str); 0] = [];
            proof {
                assert(extras_view(extras@) =~= outbound_extras(opt_str_view(authorization)));
            }
            build_signature_base_with_extras(
                method,
                authority,
                path,
                signature_key.as_str(),
                created,
                extras.as_slice(),
            )
        },
    };
    let signing_key = match signing_key_from_jwk(signing_jwk) {
        Ok(k) => k,
        Err(e) => {
            return Err(e);
        },
    };
    let signature_bytes = ed25519_sign(&signing_key, base.as_str().as_bytes());
    let encoded = base64url_encode(signature_bytes.as_slice());
    let mut signature_input = String::from_str("sig=");
    signature_input.append(params.as_str());
    let mut signature = String::from_str("sig=:");
    signature.append(encoded.as_str());
    push_char(&mut signature, ':');
    let ghost sk = signing_key.encoded();
    let ghost auth = opt_str_view(authorization);
    proof {
        assert(signature@ =~= "sig=:"@ + encoded@ + seq![':']);
        assert(signature_input@ =~= outbound_input_text(auth, created));
        assert(base@ == signature_base(
            method@,
            authority@,
            path@,
            outbound_key_text(signature_key_jwt@),
            created,
            outbound_extras(auth),
        ));
        assert(signature_bytes@ == outbound_signature(
            sk,
            method@,
            authority@,
            path@,
            signature_key_jwt@,
            auth,
            created,
        ));
        assert(signature@ == outbound_signature_text(signature_bytes@));
        lemma_signature_header_names();
        lemma_inserted_len(header_entries(*headers), "signature-key"@, encode_utf8(signature_key@));
    }
    match insert_header(headers, "signature-key", signature_key.as_str()) {
        Ok(_) => {},
        Err(e) => {
            return Err(e);
        },
    }
    proof {
        lemma_inserted_len(header_entries(*headers), "signature-input"@, encode_utf8(signature_input@));
    }
    match insert_header(headers, "signature-input", signature_input.as_str()) {
        Ok(_) => {},
        Err(e) => {
            return Err(e);
        },
    }
    insert_header(headers, "signature", signature.as_str())
}

/// What signing an outbound request gives when the clock reads `clock` (seconds
/// since the Unix epoch, `None` before it): refused with `ClockBeforeEpoch`, the
/// headers unchanged, before the epoch; else [`outbound_signed`] at that time.
pub open spec fn outbound_signed_by_clock(
    before: Seq<(Seq<char>, Seq<u8>)>,
    after: Seq<(Seq<char>, Seq<u8>)>,
    r: Result<(), SignatureError>,
    method: Seq<char>,
    authority: Seq<char>,
    path: Seq<char>,
    jwt: Seq<char>,
    d: Seq<char>,
    authorization: Option<Seq<char>>,
    clock: Option<u64>,
) -> bool {
    match clock {
        None => r == Err::<(), SignatureError>(SignatureError::ClockBeforeEpoch) && after == before,
        Some(created) => outbound_signed(
            before,
            after,
            r,
            method,
            authority,
            path,
            jwt,
            d,
            authorization,
            created,
        ),
    }
}

/// Signs an outbound request now (by the system clock) and writes its
/// `Signature-Key`, `Signature-Input` and `Signature` headers.
pub fn apply_outbound_signature(
    headers: &mut http::HeaderMap,
    method: &str,
    authority: &str,
    path: &str,
    signature_key_jwt: &str,
    signing_jwk: &OkpSigningJwk,
    authorization: Option<&str>,
) -> (r: Result<(), SignatureError>)
    requires
        header_entries(*old(headers)).len() + 3 <= 6553,
    ensures
        exists|clock: Option<u64>|
            #[trigger] outbound_signed_by_clock(
                header_entries(*old(headers)),
                header_entries(*final(headers)),
                r,
                method@,
                authority@,
                path@,
                signature_key_jwt@,
                signing_jwk.d@,
                opt_str_view(authorization),
                clock,
            ),
{
    let clock = now_unix_secs();
    match clock {
        None => {
            let r = Err(SignatureError::ClockBeforeEpoch);
            assert(outbound_signed_by_clock(
                header_entries(*old(headers)),
                header_entries(*headers),
                r,
                method@,
                authority@,
                path@,
                signature_key_jwt@,
                signing_jwk.d@,
                opt_str_view(authorization),
                clock,
            ));
            r
        },
        Some(created) => {
            let r = apply_outbound_signature_at(
                headers,
                method,
                authority,
                path,
                signature_key_jwt,
                signing_jwk,
                authorization,
                created,
            );
            assert(outbound_signed_by_clock(
                header_entries(*old(headers)),
                header_entries(*headers),
                r,
                method@,
                authority@,
                path@,
                signature_key_jwt@,
                signing_jwk.d@,
                opt_str_view(authorization),
                clock,
            ));
            r
        },
    }
}

/// Signs an outbound request now, as [`apply_outbound_signature`] does, when the
/// header map has room for the three signature headers (at most 6550 values
/// before it); `None`, the map unchanged, when it has not.
pub fn try_apply_outbound_signature(
    headers: &mut http::HeaderMap,
    method: &str,
    authority: &str,
    path: &str,
    signature_key_jwt: &str,
    signing_jwk: &OkpSigningJwk,
    authorization: Option<&str>,
) -> (r: Option<Result<(), SignatureError>>)
    ensures
        r is None <==> header_entries(*old(headers)).len() + 3 > 6553,
        r is None ==> header_entries(*final(headers)) == header_entries(*old(headers)),
        r matches Some(res) ==> exists|clock: Option<u64>|
            #[trigger] outbound_signed_by_clock(
                header_entries(*old(headers)),
                header_entries(*final(headers)),
                res,
                method@,
                authority@,
                path@,
                signature_key_jwt@,
                signing_jwk.d@,
                opt_str_view(authorization),
                clock,
            ),
{
    let entries = header_map_entries(headers);
    proof {
        assert(entry_views(entries@).len() == entries@.len());
    }
    if entries.len() > 6550 {
        return None;
    }
    Some(
        apply_outbound_signature(
            headers,
            method,
            authority,
            path,
            signature_key_jwt,
            signing_jwk,
            authorization,
        ),
    )
}

} // verus!
