//! AAuth HTTP headers: `AAuth-Requirement` challenges, `AAuth-Capabilities` and
//! `AAuth-Mission`.
use vstd::prelude::*;

use crate::common::{Capability, Mission, RequirementLevel};
use crate::error::HeaderError;
use crate::text::{
    chars_of, ends_with, find, find_char, find_char_exec, find_char_from, find_exec, is_ws,
    lemma_find_char, lemma_find_char_is, lemma_find_char_none, lemma_find_is, lemma_no_char, lemma_no_char_concat,
    lemma_split_concat, lemma_split_single, lemma_trim_noop, matches_at, no_char, split,
    split_first, starts_with, strip_prefix, string_of, trim, trim_range,
};

verus! {

/// Lowercase name of the `AAuth-Requirement` response header.
pub const AAUTH_REQUIREMENT_NAME: &'static str = "aauth-requirement";

/// Lowercase name of the `AAuth-Access` response header.
pub const AAUTH_ACCESS_NAME: &'static str = "aauth-access";

/// Lowercase name of the `AAuth-Capabilities` request header.
pub const AAUTH_CAPABILITIES_NAME: &'static str = "aauth-capabilities";

/// Lowercase name of the `AAuth-Mission` request header.
pub const AAUTH_MISSION_NAME: &'static str = "aauth-mission";

/// Lowercase name of the `Signature-Key` header.
pub const SIGNATURE_KEY_NAME: &'static str = "signature-key";

/// Lowercase name of the `Signature-Input` header.
pub const SIGNATURE_INPUT_NAME: &'static str = "signature-input";

/// Lowercase name of the `Signature` header.
pub const SIGNATURE_NAME: &'static str = "signature";

/// Lowercase name of the `Prefer` request header.
pub const PREFER_NAME: &'static str = "prefer";

/// Parsed `AAuth-Requirement` response header.
#[derive(Debug, Clone, PartialEq, Eq)]
pub enum AAuthChallenge {
    /// `401`: agent token required.
    AgentToken,
    /// `401`/`402`: auth token required, with the resource token to exchange.
    AuthToken { resource_token: String },
    /// `202`: approval pending.
    Approval,
    /// `202`: user action required at the interaction endpoint.
    Interaction { url: String, code: String },
    /// `202`: question posed (details in the body).
    Clarification,
    /// `202`: identity claims required (details in the body).
    Claims,
}

/// Mathematical value of an [`AAuthChallenge`].
pub enum ChallengeView {
    AgentToken,
    AuthToken(Seq<char>),
    Approval,
    Interaction(Seq<char>, Seq<char>),
    Clarification,
    Claims,
}

impl View for AAuthChallenge {
    type V = ChallengeView;

    open spec fn view(&self) -> ChallengeView {
        match self {
            AAuthChallenge::AgentToken => ChallengeView::AgentToken,
            AAuthChallenge::AuthToken { resource_token } => ChallengeView::AuthToken(
                resource_token@,
            ),
            AAuthChallenge::Approval => ChallengeView::Approval,
            AAuthChallenge::Interaction { url, code } => ChallengeView::Interaction(url@, code@),
            AAuthChallenge::Clarification => ChallengeView::Clarification,
            AAuthChallenge::Claims => ChallengeView::Claims,
        }
    }
}

/// Mathematical value of a [`HeaderError`].
pub enum HeaderErrorView {
    EmptyRequirement,
    MissingRequirementMember,
    UnknownRequirement(Seq<char>),
    MissingResourceToken,
    MissingInteractionUrl,
    MissingInteractionCode,
    MissingApprover,
    MissingS256,
    Invalid(Seq<char>),
}

impl View for HeaderError {
    type V = HeaderErrorView;

    open spec fn view(&self) -> HeaderErrorView {
        match self {
            HeaderError::EmptyRequirement => HeaderErrorView::EmptyRequirement,
            HeaderError::MissingRequirementMember => HeaderErrorView::MissingRequirementMember,
            HeaderError::UnknownRequirement(s) => HeaderErrorView::UnknownRequirement(s@),
            HeaderError::MissingResourceToken => HeaderErrorView::MissingResourceToken,
            HeaderError::MissingInteractionUrl => HeaderErrorView::MissingInteractionUrl,
            HeaderError::MissingInteractionCode => HeaderErrorView::MissingInteractionCode,
            HeaderError::MissingApprover => HeaderErrorView::MissingApprover,
            HeaderError::MissingS256 => HeaderErrorView::MissingS256,
            HeaderError::Invalid(s) => HeaderErrorView::Invalid(s@),
        }
    }
}

impl ChallengeView {
    /// The requirement level of the challenge.
    pub open spec fn level(self) -> RequirementLevel {
        match self {
            ChallengeView::AgentToken => RequirementLevel::AgentToken,
            ChallengeView::AuthToken(_) => RequirementLevel::AuthToken,
            ChallengeView::Approval => RequirementLevel::Approval,
            ChallengeView::Interaction(_, _) => RequirementLevel::Interaction,
            ChallengeView::Clarification => RequirementLevel::Clarification,
            ChallengeView::Claims => RequirementLevel::Claims,
        }
    }

    /// The parameters that follow the `requirement` member.
    pub open spec fn params(self) -> Seq<char> {
        match self {
            ChallengeView::AuthToken(t) => "; resource-token=\""@ + t + "\""@,
            ChallengeView::Interaction(u, c) => "; url=\""@ + u + "\"; code=\""@ + c + "\""@,
            _ => Seq::empty(),
        }
    }

    /// The `AAuth-Requirement` value that carries the challenge.
    pub open spec fn header(self) -> Seq<char> {
        "requirement="@ + self.level().wire() + self.params()
    }
}

/// The text between `key="` and the next `"`, at the first occurrence of `key="` in `input`.
pub open spec fn quoted_param(input: Seq<char>, key: Seq<char>) -> Option<Seq<char>> {
    let pat = key + seq!['=', '"'];
    match find(input, pat) {
        None => None,
        Some(i) => {
            let rest = input.subrange(i + pat.len(), input.len() as int);
            match find_char(rest, '"') {
                None => None,
                Some(e) => Some(rest.subrange(0, e)),
            }
        },
    }
}

/// The `requirement` member of an `AAuth-Requirement` value whose trimmed form is `t`.
pub open spec fn requirement_member(t: Seq<char>) -> Option<Seq<char>> {
    match strip_prefix(t, "requirement="@) {
        None => None,
        Some(rest) => Some(trim(split_first(rest, ';'))),
    }
}

/// What parsing an `AAuth-Requirement` value gives.
pub open spec fn parse_challenge(h: Seq<char>) -> Result<ChallengeView, HeaderErrorView> {
    let t = trim(h);
    if t.len() == 0 {
        Err(HeaderErrorView::EmptyRequirement)
    } else {
        match requirement_member(t) {
            None => Err(HeaderErrorView::MissingRequirementMember),
            Some(m) => match RequirementLevel::from_wire_spec(m) {
                None => Err(HeaderErrorView::UnknownRequirement(m)),
                Some(RequirementLevel::AgentToken) => Ok(ChallengeView::AgentToken),
                Some(RequirementLevel::Approval) => Ok(ChallengeView::Approval),
                Some(RequirementLevel::Clarification) => Ok(ChallengeView::Clarification),
                Some(RequirementLevel::Claims) => Ok(ChallengeView::Claims),
                Some(RequirementLevel::AuthToken) => match quoted_param(t, "resource-token"@) {
                    None => Err(HeaderErrorView::MissingResourceToken),
                    Some(v) => Ok(ChallengeView::AuthToken(v)),
                },
                Some(RequirementLevel::Interaction) => match quoted_param(t, "url"@) {
                    None => Err(HeaderErrorView::MissingInteractionUrl),
                    Some(u) => match quoted_param(t, "code"@) {
                        None => Err(HeaderErrorView::MissingInteractionCode),
                        Some(c) => Ok(ChallengeView::Interaction(u, c)),
                    },
                },
            },
        }
    }
}

/// The view of a parse result.
pub open spec fn challenge_result_view(r: Result<AAuthChallenge, HeaderError>) -> Result<
    ChallengeView,
    HeaderErrorView,
> {
    match r {
        Ok(c) => Ok(c@),
        Err(e) => Err(e@),
    }
}

/// What parsing an `AAuth-Mission` value gives: `(approver, s256)`.
pub open spec fn parse_mission(h: Seq<char>) -> Result<(Seq<char>, Seq<char>), HeaderErrorView> {
    match quoted_param(h, "approver"@) {
        None => Err(HeaderErrorView::MissingApprover),
        Some(a) => match quoted_param(h, "s256"@) {
            None => Err(HeaderErrorView::MissingS256),
            Some(s) => Ok((a, s)),
        },
    }
}

/// The `AAuth-Mission` value for `approver` and `s256`.
pub open spec fn mission_header(approver: Seq<char>, s256: Seq<char>) -> Seq<char> {
    "approver=\""@ + approver + "\"; s256=\""@ + s256 + "\""@
}

/// The `AAuth-Capabilities` value listing `caps`, joined by `", "`.
pub open spec fn capabilities_header(caps: Seq<Capability>) -> Seq<char>
    decreases caps.len(),
{
    if caps.len() == 0 {
        Seq::empty()
    } else if caps.len() == 1 {
        caps[0].wire()
    } else {
        capabilities_header(caps.drop_last()) + ", "@ + caps.last().wire()
    }
}

/// The known capabilities among `pieces`, each trimmed, in order.
pub open spec fn known_capabilities(pieces: Seq<Seq<char>>) -> Seq<Capability>
    decreases pieces.len(),
{
    if pieces.len() == 0 {
        Seq::empty()
    } else {
        let rest = known_capabilities(pieces.drop_last());
        match Capability::from_wire_spec(trim(pieces.last())) {
            Some(c) => rest.push(c),
            None => rest,
        }
    }
}

/// A copy of `v[from..to]`.
pub fn sub_vec(v: &Vec<char>, from: usize, to: usize) -> (r: Vec<char>)
    requires
        from <= to <= v.len(),
    ensures
        r@ == v@.subrange(from as int, to as int),
{
    let mut r: Vec<char> = Vec::new();
    let mut i = from;
    while i < to
        invariant
            from <= i <= to <= v.len(),
            r@ == v@.subrange(from as int, i as int),
        decreases to - i,
    {
        r.push(v[i]);
        assert(v@.subrange(from as int, i + 1) == v@.subrange(from as int, i as int).push(
            v@[i as int],
        ));
        i = i + 1;
    }
    r
}

/// `v` begins with `p`.
pub fn starts_with_exec(v: &Vec<char>, p: &Vec<char>) -> (b: bool)
    ensures
        b == starts_with(v@, p@),
{
    if p.len() > v.len() {
        return false;
    }
    let mut k: usize = 0;
    while k < p.len()
        invariant
            p.len() <= v.len(),
            k <= p.len(),
            forall|j: int| 0 <= j < k ==> v@[j] == p@[j],
        decreases p.len() - k,
    {
        if v[k] != p[k] {
            assert(v@.subrange(0, p.len() as int)[k as int] != p@[k as int]);
            return false;
        }
        k = k + 1;
    }
    assert(v@.subrange(0, p.len() as int) =~= p@);
    true
}

/// The text between `key="` and the next `"` in `t`.
pub fn quoted_param_exec(t: &Vec<char>, key: &str) -> (r: Option<String>)
    ensures
        r matches Some(s) ==> quoted_param(t@, key@) == Some(s@),
        r is None ==> quoted_param(t@, key@) is None,
{
    let mut pat = chars_of(key);
    pat.push('=');
    pat.push('"');
    proof {
        assert(pat@ =~= key@ + seq!['=', '"']);
    }
    let tl = t.len();
    match find_exec(t, &pat) {
        None => None,
        Some(i) => {
            proof {
                crate::text::lemma_find_from(t@, pat@, 0);
                assert(crate::text::matches_at(t@, pat@, i as int));
            }
            let start = i + pat.len();
            let ghost rest = t@.subrange(start as int, t@.len() as int);
            match find_char_from(t, '"', start) {
                None => {
                    proof {
                        assert forall|j: int| 0 <= j < rest.len() implies #[trigger] rest[j]
                            != '"' by {
                            assert(rest[j] == t@[start + j]);
                        }
                        lemma_find_char_none(rest, '"');
                    }
                    None
                },
                Some(e) => {
                    proof {
                        assert forall|j: int| 0 <= j < e - start implies #[trigger] rest[j]
                            != '"' by {
                            assert(rest[j] == t@[start + j]);
                        }
                        lemma_find_char_is(rest, '"', e - start);
                        assert(rest.subrange(0, e - start) =~= t@.subrange(
                            start as int,
                            e as int,
                        ));
                    }
                    Some(string_of(t, start, e))
                },
            }
        },
    }
}

/// Extract the value of a quoted `key="value"` parameter (first occurrence).
pub fn extract_quoted_param(input: &str, key: &str) -> (r: Option<String>)
    ensures
        r matches Some(s) ==> quoted_param(input@, key@) == Some(s@),
        r is None ==> quoted_param(input@, key@) is None,
{
    let v = chars_of(input);
    quoted_param_exec(&v, key)
}

impl AAuthChallenge {
    pub fn level(&self) -> (l: RequirementLevel)
        ensures
            l == self@.level(),
    {
        match self {
            AAuthChallenge::AgentToken => RequirementLevel::AgentToken,
            AAuthChallenge::AuthToken { .. } => RequirementLevel::AuthToken,
            AAuthChallenge::Approval => RequirementLevel::Approval,
            AAuthChallenge::Interaction { .. } => RequirementLevel::Interaction,
            AAuthChallenge::Clarification => RequirementLevel::Clarification,
            AAuthChallenge::Claims => RequirementLevel::Claims,
        }
    }

    /// Serialize to an `AAuth-Requirement` header value.
    pub fn to_header(&self) -> (h: String)
        ensures
            h@ == self@.header(),
    {
        let mut h = "requirement=".to_owned();
        h.append(self.level().as_str());
        match self {
            AAuthChallenge::AuthToken { resource_token } => {
                h.append("; resource-token=\"");
                h.append(resource_token.as_str());
                h.append("\"");
            },
            AAuthChallenge::Interaction { url, code } => {
                h.append("; url=\"");
                h.append(url.as_str());
                h.append("\"; code=\"");
                h.append(code.as_str());
                h.append("\"");
            },
            _ => {},
        }
        proof {
            assert(h@ =~= self@.header());
        }
        h
    }

    /// Parse an `AAuth-Requirement` response header value.
    pub fn from_header(header_value: &str) -> (r: Result<AAuthChallenge, HeaderError>)
        ensures
            challenge_result_view(r) == parse_challenge(header_value@),
    {
        let v = chars_of(header_value);
        let (a, b) = trim_range(&v, 0, v.len());
        proof {
            assert(v@.subrange(0, v@.len() as int) =~= v@);
        }
        let t = sub_vec(&v, a, b);
        if t.len() == 0 {
            return Err(HeaderError::EmptyRequirement);
        }
        let pre = chars_of("requirement=");
        if !starts_with_exec(&t, &pre) {
            return Err(HeaderError::MissingRequirementMember);
        }
        let rest = sub_vec(&t, pre.len(), t.len());
        let end = match find_char_exec(&rest, ';') {
            Some(i) => {
                proof {
                    lemma_find_char(rest@, ';');
                }
                i
            },
            None => rest.len(),
        };
        proof {
            if end == rest.len() {
                assert(rest@.subrange(0, end as int) =~= rest@);
            }
        }
        let (ma, mb) = trim_range(&rest, 0, end);
        let m = string_of(&rest, ma, mb);
        let level = match RequirementLevel::from_str(m.as_str()) {
            Ok(l) => l,
            Err(_) => {
                return Err(HeaderError::UnknownRequirement(m));
            },
        };
        match level {
            RequirementLevel::AgentToken => Ok(AAuthChallenge::AgentToken),
            RequirementLevel::Approval => Ok(AAuthChallenge::Approval),
            RequirementLevel::Clarification => Ok(AAuthChallenge::Clarification),
            RequirementLevel::Claims => Ok(AAuthChallenge::Claims),
            RequirementLevel::AuthToken => match quoted_param_exec(&t, "resource-token") {
                None => Err(HeaderError::MissingResourceToken),
                Some(resource_token) => Ok(AAuthChallenge::AuthToken { resource_token }),
            },
            RequirementLevel::Interaction => {
                let url = match quoted_param_exec(&t, "url") {
                    None => {
                        return Err(HeaderError::MissingInteractionUrl);
                    },
                    Some(u) => u,
                };
                match quoted_param_exec(&t, "code") {
                    None => Err(HeaderError::MissingInteractionCode),
                    Some(code) => Ok(AAuthChallenge::Interaction { url, code }),
                }
            },
        }
    }
}

impl Capability {
    /// Join capabilities into an `AAuth-Capabilities` header value.
    pub fn join_header(capabilities: &[Capability]) -> (h: String)
        ensures
            h@ == capabilities_header(capabilities@),
    {
        let mut h = String::new();
        let mut i: usize = 0;
        while i < capabilities.len()
            invariant
                i <= capabilities.len(),
                h@ == capabilities_header(capabilities@.subrange(0, i as int)),
            decreases capabilities.len() - i,
        {
            let ghost prev = capabilities@.subrange(0, i as int);
            let ghost next = capabilities@.subrange(0, i + 1);
            proof {
                assert(next.drop_last() =~= prev);
                assert(next.last() == capabilities@[i as int]);
            }
            if i > 0 {
                h.append(", ");
            }
            h.append(capabilities[i].as_str());
            i = i + 1;
        }
        proof {
            assert(capabilities@.subrange(0, capabilities@.len() as int) =~= capabilities@);
        }
        h
    }

    /// Parse an `AAuth-Capabilities` header value, keeping the known values in order.
    pub fn parse_header(header_value: &str) -> (caps: Vec<Capability>)
        ensures
            caps@ == known_capabilities(split(header_value@, ',')),
    {
        let v = chars_of(header_value);
        let mut caps: Vec<Capability> = Vec::new();
        let mut start: usize = 0;
        let ghost mut done: Seq<Seq<char>> = Seq::empty();
        proof {
            assert(v@.subrange(0, v@.len() as int) =~= v@);
            assert(done + split(v@, ',') =~= split(v@, ','));
        }
        loop
            invariant
                v@ == header_value@,
                start <= v.len(),
                split(v@, ',') == done + split(v@.subrange(start as int, v@.len() as int), ','),
                caps@ == known_capabilities(done),
            decreases v.len() - start,
        {
            let ghost tail = v@.subrange(start as int, v@.len() as int);
            let end = match find_char_from(&v, ',', start) {
                Some(e) => e,
                None => v.len(),
            };
            proof {
                if end < v.len() {
                    assert forall|j: int| 0 <= j < end - start implies #[trigger] tail[j]
                        != ',' by {
                        assert(tail[j] == v@[start + j]);
                    }
                    lemma_find_char_is(tail, ',', end - start);
                } else {
                    assert forall|j: int| 0 <= j < tail.len() implies #[trigger] tail[j]
                        != ',' by {
                        assert(tail[j] == v@[start + j]);
                    }
                    lemma_find_char_none(tail, ',');
                }
            }
            let (pa, pb) = trim_range(&v, start, end);
            let piece = string_of(&v, pa, pb);
            let ghost p = v@.subrange(start as int, end as int);
            proof {
                assert(tail.subrange(0, end - start) =~= p);
                let nd = done.push(p);
                assert(nd.drop_last() =~= done);
                assert(nd.last() == p);
            }
            let ghost old_caps = caps@;
            match Capability::from_str(piece.as_str()) {
                Ok(c) => caps.push(c),
                Err(_) => {},
            }
            proof {
                let nd = done.push(p);
                assert(known_capabilities(nd) == match Capability::from_wire_spec(trim(p)) {
                    Some(c) => old_caps.push(c),
                    None => old_caps,
                });
                done = nd;
            }
            if end == v.len() {
                proof {
                    assert(split(tail, ',') == seq![tail]);
                    assert(p =~= tail);
                    assert(split(v@, ',') =~= done);
                }
                return caps;
            }
            proof {
                assert(tail.subrange(end - start + 1, tail.len() as int) =~= v@.subrange(
                    end + 1,
                    v@.len() as int,
                ));
                assert(split(tail, ',') == seq![p] + split(
                    v@.subrange(end + 1, v@.len() as int),
                    ',',
                ));
                assert(done.drop_last() + seq![p] =~= done);
            }
            start = end + 1;
        }
    }
}

impl Mission {
    /// Serialize to an `AAuth-Mission` header value.
    pub fn to_header(&self) -> (h: String)
        ensures
            h@ == mission_header(self.approver@, self.s256@),
    {
        let mut h = "approver=\"".to_owned();
        h.append(self.approver.as_str());
        h.append("\"; s256=\"");
        h.append(self.s256.as_str());
        h.append("\"");
        h
    }

    /// Parse an `AAuth-Mission` header value.
    pub fn from_header(header_value: &str) -> (r: Result<Mission, HeaderError>)
        ensures
            match parse_mission(header_value@) {
                Ok((a, s)) => r matches Ok(m) && m.approver@ == a && m.s256@ == s,
                Err(e) => r matches Err(x) && x@ == e,
            },
    {
        let v = chars_of(header_value);
        let approver = match quoted_param_exec(&v, "approver") {
            Some(a) => a,
            None => {
                return Err(HeaderError::MissingApprover);
            },
        };
        let s256 = match quoted_param_exec(&v, "s256") {
            Some(s) => s,
            None => {
                return Err(HeaderError::MissingS256);
            },
        };
        Ok(Mission { approver, s256 })
    }
}

// ---------------------------------------------------------------------------------------------
// Laws
// ---------------------------------------------------------------------------------------------

/// `quoted_param` finds `v` when the first `key="` of `pre + v + "..."` ends `pre`.
proof fn lemma_quoted_param_at(
    pre: Seq<char>,
    key: Seq<char>,
    pat: Seq<char>,
    v: Seq<char>,
    post: Seq<char>,
)
    requires
        pat == key + seq!['=', '"'],
        ends_with(pre, pat),
        forall|j: int| 0 <= j < pre.len() - pat.len() ==> !#[trigger] matches_at(pre, pat, j),
        forall|k: int| 0 <= k < v.len() ==> #[trigger] v[k] != '"',
    ensures
        quoted_param(pre + v + seq!['"'] + post, key) == Some(v),
{
    let pl = pat.len() as int;
    let t = pre + v + seq!['"'] + post;
    let i0 = pre.len() - pl;
    assert(t.subrange(i0, i0 + pl) =~= pre.subrange(i0, pre.len() as int));
    assert forall|j: int| 0 <= j < i0 implies !#[trigger] matches_at(t, pat, j) by {
        if matches_at(t, pat, j) {
            assert(t.subrange(j, j + pl) =~= pre.subrange(j, j + pl));
            assert(matches_at(pre, pat, j));
        }
    }
    lemma_find_is(t, pat, i0);
    let rest = t.subrange(i0 + pl, t.len() as int);
    assert(rest =~= v + seq!['"'] + post);
    assert forall|j: int| 0 <= j < v.len() implies #[trigger] rest[j] != '"' by {
        assert(rest[j] == v[j]);
    }
    assert(rest[v.len() as int] == '"');
    lemma_find_char_is(rest, '"', v.len() as int);
    assert(rest.subrange(0, v.len() as int) =~= v);
}

/// No `...="` matches before the end of `pre` when `pre` holds `"` only at its end.
proof fn lemma_no_early_match(pre: Seq<char>, pat: Seq<char>)
    requires
        pat.len() >= 1,
        pat[pat.len() - 1] == '"',
        forall|k: int| 0 <= k < pre.len() - 1 ==> #[trigger] pre[k] != '"',
    ensures
        forall|j: int| 0 <= j < pre.len() - pat.len() ==> !#[trigger] matches_at(pre, pat, j),
{
    assert forall|j: int| 0 <= j < pre.len() - pat.len() implies !#[trigger] matches_at(
        pre,
        pat,
        j,
    ) by {
        if matches_at(pre, pat, j) {
            assert(pre.subrange(j, j + pat.len())[pat.len() - 1] == pre[j + pat.len() - 1]);
        }
    }
}

/// The `requirement` member of `requirement=<w><tail>` is `w`.
#[verifier::rlimit(40)]
proof fn lemma_requirement_member(w: Seq<char>, tail: Seq<char>)
    requires
        w.len() > 0,
        no_char(w, ';'),
        !is_ws(w[0]),
        !is_ws(w[w.len() - 1]),
        tail.len() == 0 || tail[0] == ';',
    ensures
        requirement_member("requirement="@ + w + tail) == Some(w),
{
    reveal_strlit("requirement=");
    let p = "requirement="@;
    let t = p + w + tail;
    assert(p.len() == 12);
    assert(t.subrange(0, 12) =~= p);
    assert(starts_with(t, p));
    let rest = t.subrange(12, t.len() as int);
    assert(rest =~= w + tail);
    lemma_no_char(w, ';');
    lemma_split_first_prefix(w, tail);
    lemma_trim_noop(w);
}

/// Splitting `w + tail` at the first `;` gives `w` when `w` has none and `tail` starts with one.
proof fn lemma_split_first_prefix(w: Seq<char>, tail: Seq<char>)
    requires
        forall|k: int| 0 <= k < w.len() ==> #[trigger] w[k] != ';',
        tail.len() == 0 || tail[0] == ';',
    ensures
        split_first(w + tail, ';') == w,
{
    let rest = w + tail;
    if tail.len() == 0 {
        assert(rest =~= w);
        lemma_find_char_none(rest, ';');
    } else {
        assert forall|k: int| 0 <= k < w.len() implies #[trigger] rest[k] != ';' by {
            assert(rest[k] == w[k]);
        }
        assert(rest[w.len() as int] == ';');
        lemma_find_char_is(rest, ';', w.len() as int);
        assert(rest.subrange(0, w.len() as int) =~= w);
    }
}

/// The only `"` of `s` are at the listed indices.
proof fn lemma_no_quote_but(s: Seq<char>, n: int)
    requires
        0 <= n <= s.len(),
        no_char(s.subrange(0, n), '"'),
    ensures
        forall|k: int| 0 <= k < n ==> #[trigger] s[k] != '"',
{
    lemma_no_char(s.subrange(0, n), '"');
    assert forall|k: int| 0 <= k < n implies #[trigger] s[k] != '"' by {
        assert(s[k] == s.subrange(0, n)[k]);
    }
}

/// In `pre1 + v + mid`, where `pre1` and `mid` end in the only `"`s besides the first of
/// `mid`, the first `kw="` is the one that ends the whole sequence.
proof fn lemma_second_param_first(
    pre1: Seq<char>,
    v: Seq<char>,
    mid: Seq<char>,
    pat: Seq<char>,
    kw: Seq<char>,
)
    requires
        pat == kw + seq!['=', '"'],
        pre1.len() >= pat.len(),
        pre1[pre1.len() - 1] == '"',
        forall|k: int| 0 <= k < pre1.len() - 1 ==> #[trigger] pre1[k] != '"',
        forall|k: int| 0 <= k < v.len() ==> #[trigger] v[k] != '"',
        forall|k: int| 0 <= k < kw.len() + 1 ==> #[trigger] (kw + seq!['='])[k] != '"',
        mid.len() >= 2,
        mid[0] == '"',
        forall|k: int| 1 <= k < mid.len() - 1 ==> #[trigger] mid[k] != '"',
        pre1[pre1.len() - pat.len()] != pat[0],
        !ends_with(v, kw + seq!['=']),
    ensures
        forall|j: int|
            0 <= j < (pre1 + v + mid).len() - pat.len() ==> !#[trigger] matches_at(
                pre1 + v + mid,
                pat,
                j,
            ),
{
    let pre2 = pre1 + v + mid;
    let pl = pat.len() as int;
    let n1 = pre1.len() as int;
    let vl = v.len() as int;
    let kq = kw + seq!['='];
    assert forall|j: int| 0 <= j < pre2.len() - pl implies !#[trigger] matches_at(pre2, pat, j) by {
        if matches_at(pre2, pat, j) {
            let win = pre2.subrange(j, j + pl);
            assert(win == pat);
            let q = j + pl - 1;
            assert(win[pl - 1] == pre2[q]);
            assert(pat[pl - 1] == '"');
            if q < n1 - 1 {
                assert(pre2[q] == pre1[q]);
            } else if q == n1 - 1 {
                assert(win[0] == pre2[j]);
                assert(pre2[j] == pre1[j]);
            } else if q < n1 + vl {
                assert(pre2[q] == v[q - n1]);
            } else if q == n1 + vl {
                if vl >= pl - 1 {
                    assert(v.subrange(vl - (pl - 1), vl) =~= kq) by {
                        assert forall|m: int| 0 <= m < pl - 1 implies #[trigger] v.subrange(
                            vl - (pl - 1),
                            vl,
                        )[m] == kq[m] by {
                            assert(pre2[j + m] == v[vl - (pl - 1) + m]);
                            assert(win[m] == pat[m]);
                            assert(pat[m] == kq[m]);
                        }
                    }
                } else {
                    let m = n1 - 1 - j;
                    assert(pre2[j + m] == pre1[n1 - 1]);
                    assert(win[m] == pat[m]);
                    assert(pat[m] == kq[m]);
                }
            } else {
                assert(pre2[q] == mid[q - n1 - vl]);
            }
        }
    }
}

/// An `AAuth-Requirement` value parses back to the challenge it was made from, when no
/// parameter holds `"` and the interaction URL does not end with `code=`.
pub proof fn lemma_challenge_round_trip(c: ChallengeView)
    requires
        c matches ChallengeView::AuthToken(t) ==> forall|k: int|
            0 <= k < t.len() ==> #[trigger] t[k] != '"',
        c matches ChallengeView::Interaction(u, x) ==> (forall|k: int|
            0 <= k < u.len() ==> #[trigger] u[k] != '"') && (forall|k: int|
            0 <= k < x.len() ==> #[trigger] x[k] != '"') && !ends_with(u, "code="@),
    ensures
        parse_challenge(c.header()) == Ok::<ChallengeView, HeaderErrorView>(c),
{
    reveal_strlit("requirement=");
    reveal_strlit("agent-token");
    reveal_strlit("auth-token");
    reveal_strlit("approval");
    reveal_strlit("interaction");
    reveal_strlit("clarification");
    reveal_strlit("claims");
    reveal_strlit("; resource-token=\"");
    reveal_strlit("; url=\"");
    reveal_strlit("\"; code=\"");
    reveal_strlit("\"");
    reveal_strlit("resource-token");
    reveal_strlit("url");
    reveal_strlit("code");
    reveal_strlit("code=");
    reveal_strlit("; code=\"");
    reveal_strlit("; resource-token=");
    reveal_strlit("; url=");
    reveal_with_fuel(no_char, 20);
    assert("requirement="@.len() == 12);
    assert("; resource-token=\""@.len() == 18);
    assert("; resource-token="@.len() == 17);
    assert("; url=\""@.len() == 7);
    assert("; url="@.len() == 6);
    assert("\"; code=\""@.len() == 9);
    assert("; code=\""@.len() == 8);
    assert("\""@.len() == 1);
    assert("resource-token"@.len() == 14);
    assert("url"@.len() == 3);
    assert("code"@.len() == 4);
    assert("code="@.len() == 5);
    let w = c.level().wire();
    let h = c.header();
    crate::common::lemma_requirement_level_round_trip(c.level());
    assert(no_char(w, ';'));
    assert(!is_ws(w[0]) && !is_ws(w[w.len() - 1]));
    assert(h[0] == 'r');
    assert(h[h.len() - 1] != ' ' && !is_ws(h[h.len() - 1]));
    lemma_trim_noop(h);
    lemma_requirement_member(w, c.params());
    match c {
        ChallengeView::AuthToken(t) => {
            let pre = "requirement="@ + w + "; resource-token=\""@;
            assert(h =~= pre + t + seq!['"'] + Seq::empty());
            let pat = "resource-token"@ + seq!['=', '"'];
            assert(pre.subrange(0, pre.len() - 1) =~= "requirement="@ + w + "; resource-token="@);
            assert(no_char("requirement="@, '"'));
            assert(no_char(w, '"'));
            assert(no_char("; resource-token="@, '"'));
            lemma_no_char_concat("requirement="@, w, '"');
            lemma_no_char_concat("requirement="@ + w, "; resource-token="@, '"');
            lemma_no_quote_but(pre, pre.len() - 1);
            lemma_no_early_match(pre, pat);
            assert(pre.subrange(pre.len() - pat.len(), pre.len() as int) =~= pat);
            lemma_quoted_param_at(pre, "resource-token"@, pat, t, Seq::empty());
        },
        ChallengeView::Interaction(u, x) => {
            let pre1 = "requirement="@ + w + "; url=\""@;
            let post1 = "; code=\""@ + x + "\""@;
            assert(h =~= pre1 + u + seq!['"'] + post1);
            let pat1 = "url"@ + seq!['=', '"'];
            assert(pre1.subrange(0, pre1.len() - 1) =~= "requirement="@ + w + "; url="@);
            assert(no_char("requirement="@, '"'));
            assert(no_char(w, '"'));
            assert(no_char("; url="@, '"'));
            lemma_no_char_concat("requirement="@, w, '"');
            lemma_no_char_concat("requirement="@ + w, "; url="@, '"');
            lemma_no_quote_but(pre1, pre1.len() - 1);
            lemma_no_early_match(pre1, pat1);
            assert(pre1.subrange(pre1.len() - pat1.len(), pre1.len() as int) =~= pat1);
            lemma_quoted_param_at(pre1, "url"@, pat1, u, post1);
            let pre2 = pre1 + u + "\"; code=\""@;
            assert(h =~= pre2 + x + seq!['"'] + Seq::empty());
            let pat2 = "code"@ + seq!['=', '"'];
            assert(pre2.subrange(pre2.len() - pat2.len(), pre2.len() as int) =~= pat2);
            assert(no_char("code="@, '"'));
            lemma_no_char("code="@, '"');
            assert("code"@ + seq!['='] =~= "code="@);
            assert(pre1[pre1.len() - 6] == ' ');
            lemma_second_param_first(pre1, u, "\"; code=\""@, pat2, "code"@);
            lemma_quoted_param_at(pre2, "code"@, pat2, x, Seq::empty());
        },
        _ => {},
    }
}

/// A value that ends with `"` and holds `key="` before its last character has a
/// quoted `key` parameter.
proof fn lemma_quoted_param_some(t: Seq<char>, key: Seq<char>, k: int)
    requires
        matches_at(t, key + seq!['=', '"'], k),
        k + key.len() + 2 < t.len(),
        t[t.len() - 1] == '"',
    ensures
        quoted_param(t, key) is Some,
{
    let pat = key + seq!['=', '"'];
    crate::text::lemma_find_from(t, pat, 0);
    let i = find(t, pat)->0;
    let rest = t.subrange(i + pat.len(), t.len() as int);
    assert(rest[rest.len() - 1] == '"');
    assert(rest.subrange(rest.len() - 1, rest.len() as int) =~= seq!['"']);
    assert(matches_at(rest, seq!['"'], rest.len() - 1));
    crate::text::lemma_find_from(rest, seq!['"'], 0);
}

/// Whatever its parameters hold, an `AAuth-Requirement` value parses back to a
/// challenge of the level it was made with.
pub proof fn lemma_challenge_level_round_trip(c: ChallengeView)
    ensures
        parse_challenge(c.header()) matches Ok(d) && d.level() == c.level(),
{
    reveal_strlit("requirement=");
    reveal_strlit("agent-token");
    reveal_strlit("auth-token");
    reveal_strlit("approval");
    reveal_strlit("interaction");
    reveal_strlit("clarification");
    reveal_strlit("claims");
    reveal_strlit("; resource-token=\"");
    reveal_strlit("; url=\"");
    reveal_strlit("\"; code=\"");
    reveal_strlit("\"");
    reveal_strlit("resource-token");
    reveal_strlit("url");
    reveal_strlit("code");
    reveal_with_fuel(no_char, 20);
    assert("requirement="@.len() == 12);
    let w = c.level().wire();
    let h = c.header();
    crate::common::lemma_requirement_level_round_trip(c.level());
    assert(no_char(w, ';'));
    assert(!is_ws(w[0]) && !is_ws(w[w.len() - 1]));
    assert(h[0] == 'r');
    assert(h[h.len() - 1] != ' ' && !is_ws(h[h.len() - 1]));
    lemma_trim_noop(h);
    lemma_requirement_member(w, c.params());
    match c {
        ChallengeView::AuthToken(tok) => {
            let pat = "resource-token"@ + seq!['=', '"'];
            let a = "requirement="@ + w + seq![';', ' '];
            assert("; resource-token=\""@ =~= seq![';', ' '] + pat);
            assert(h =~= a + pat + (tok + seq!['"']));
            assert((a + pat + (tok + seq!['"'])).subrange(a.len() as int, (a.len() + pat.len()) as int)
                =~= pat);
            lemma_quoted_param_some(h, "resource-token"@, a.len() as int);
        },
        ChallengeView::Interaction(u, x) => {
            let pat1 = "url"@ + seq!['=', '"'];
            let pat2 = "code"@ + seq!['=', '"'];
            let a1 = "requirement="@ + w + seq![';', ' '];
            assert("; url=\""@ =~= seq![';', ' '] + pat1);
            assert("\"; code=\""@ =~= seq!['"', ';', ' '] + pat2);
            let tail1 = u + seq!['"', ';', ' '] + pat2 + x + seq!['"'];
            assert(h =~= a1 + pat1 + tail1);
            assert((a1 + pat1 + tail1).subrange(a1.len() as int, (a1.len() + pat1.len()) as int) =~= pat1);
            lemma_quoted_param_some(h, "url"@, a1.len() as int);
            let a2 = a1 + pat1 + u + seq!['"', ';', ' '];
            assert(h =~= a2 + pat2 + (x + seq!['"']));
            assert((a2 + pat2 + (x + seq!['"'])).subrange(a2.len() as int, (a2.len() + pat2.len()) as int)
                =~= pat2);
            lemma_quoted_param_some(h, "code"@, a2.len() as int);
        },
        _ => {},
    }
}

/// An `AAuth-Mission` value parses back to the mission it was made from, when neither
/// parameter holds `"` and the approver does not end with `s256=`.
pub proof fn lemma_mission_round_trip(a: Seq<char>, s: Seq<char>)
    requires
        forall|k: int| 0 <= k < a.len() ==> #[trigger] a[k] != '"',
        forall|k: int| 0 <= k < s.len() ==> #[trigger] s[k] != '"',
        !ends_with(a, "s256="@),
    ensures
        parse_mission(mission_header(a, s)) == Ok::<(Seq<char>, Seq<char>), HeaderErrorView>((a, s)),
{
    reveal_strlit("approver=\"");
    reveal_strlit("\"; s256=\"");
    reveal_strlit("\"");
    reveal_strlit("approver");
    reveal_strlit("s256");
    reveal_strlit("s256=");
    reveal_strlit("; s256=\"");
    let h = mission_header(a, s);
    let pre1 = "approver=\""@;
    let post1 = "; s256=\""@ + s + "\""@;
    assert(h =~= pre1 + a + seq!['"'] + post1);
    let pat1 = "approver"@ + seq!['=', '"'];
    assert(pre1 =~= pat1);
    assert(pre1.subrange(0, pre1.len() as int) =~= pre1);
    lemma_quoted_param_at(pre1, "approver"@, pat1, a, post1);
    let pre2 = pre1 + a + "\"; s256=\""@;
    assert(h =~= pre2 + s + seq!['"'] + Seq::empty());
    let pat2 = "s256"@ + seq!['=', '"'];
    assert(pre2.subrange(pre2.len() - pat2.len(), pre2.len() as int) =~= pat2);
    reveal_with_fuel(no_char, 8);
    assert(no_char("s256="@, '"'));
    lemma_no_char("s256="@, '"');
    assert("s256"@ + seq!['='] =~= "s256="@);
    reveal_strlit("approver=");
    assert("approver="@.len() == 9);
    assert(pre1.subrange(0, pre1.len() - 1) =~= "approver="@);
    reveal_with_fuel(no_char, 11);
    assert(no_char("approver="@, '"'));
    lemma_no_quote_but(pre1, pre1.len() - 1);
    assert(pre1[4] == 'o');
    lemma_second_param_first(pre1, a, "\"; s256=\""@, pat2, "s256"@);
    lemma_quoted_param_at(pre2, "s256"@, pat2, s, Seq::empty());
}

/// Pieces of a joined capabilities header.
proof fn lemma_capabilities_split(caps: Seq<Capability>)
    requires
        caps.len() > 0,
    ensures
        known_capabilities(split(capabilities_header(caps), ',')) == caps,
    decreases caps.len(),
{
    reveal_strlit("interaction");
    reveal_strlit("clarification");
    reveal_strlit("payment");
    reveal_strlit(", ");
    assert(", "@.len() == 2);
    assert("interaction"@.len() == 11);
    assert("clarification"@.len() == 13);
    assert("payment"@.len() == 7);
    reveal_with_fuel(no_char, 14);
    let w = caps.last().wire();
    crate::common::lemma_capability_round_trip(caps.last());
    assert(no_char(w, ','));
    lemma_no_char(w, ',');
    if caps.len() == 1 {
        assert(capabilities_header(caps) == w);
        lemma_split_single(w, ',');
        let pieces = seq![w];
        assert(pieces.drop_last() =~= Seq::<Seq<char>>::empty());
        assert(pieces.last() == w);
        lemma_trim_noop(w);
        assert(trim(pieces.last()) == w);
        assert(Capability::from_wire_spec(w) == Some(caps.last()));
        assert(known_capabilities(pieces.drop_last()) == Seq::<Capability>::empty());
        assert(known_capabilities(pieces) == Seq::<Capability>::empty().push(caps.last()));
        assert(caps =~= Seq::<Capability>::empty().push(caps.last()));
    } else {
        let prev = caps.drop_last();
        lemma_capabilities_split(prev);
        let hp = capabilities_header(prev);
        let y = seq![' '] + w;
        assert(", "@ =~= seq![','] + seq![' ']);
        assert(capabilities_header(caps) =~= hp + seq![','] + y);
        lemma_split_concat(hp, y, ',');
        assert forall|k: int| 0 <= k < y.len() implies #[trigger] y[k] != ',' by {
            if k > 0 {
                assert(y[k] == w[k - 1]);
            }
        }
        lemma_split_single(y, ',');
        let pieces = split(hp, ',') + seq![y];
        assert(split(capabilities_header(caps), ',') == pieces);
        assert(pieces.drop_last() =~= split(hp, ','));
        assert(pieces.last() == y);
        assert(is_ws(y[0]));
        assert(y.subrange(1, y.len() as int) =~= w);
        lemma_trim_noop(w);
        assert(trim(y) == w);
        assert(known_capabilities(pieces) == prev.push(caps.last()));
        assert(caps =~= prev.push(caps.last()));
    }
}

/// Parsing a joined `AAuth-Capabilities` value gives back the capabilities that were joined.
pub proof fn lemma_capabilities_round_trip(caps: Seq<Capability>)
    ensures
        known_capabilities(split(capabilities_header(caps), ',')) == caps,
{
    if caps.len() == 0 {
        lemma_split_single(Seq::empty(), ',');
        assert(split(Seq::<char>::empty(), ',').drop_last() =~= Seq::<Seq<char>>::empty());
        assert(trim(Seq::<char>::empty()) =~= Seq::<char>::empty());
        reveal_strlit("interaction");
        reveal_strlit("clarification");
        reveal_strlit("payment");
        assert("interaction"@.len() == 11);
        assert("clarification"@.len() == 13);
        assert("payment"@.len() == 7);
        let pieces = seq![Seq::<char>::empty()];
        assert(capabilities_header(caps) == Seq::<char>::empty());
        assert(pieces.last() == Seq::<char>::empty());
        assert(Capability::from_wire_spec(Seq::<char>::empty()) is None);
        assert(known_capabilities(pieces.drop_last()) == Seq::<Capability>::empty());
        assert(known_capabilities(pieces) =~= caps);
    } else {
        lemma_capabilities_split(caps);
    }
}

} // verus!
