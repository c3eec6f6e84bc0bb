//! The access decisions of a resource's request layer: what to do after the
//! request signature, an opaque access token, or the agent's token was checked.
use vstd::prelude::*;

use crate::header_map::{
    first_named, header_entries, header_map_get, is_visible_ascii, lemma_first_named,
    static_header_name, visible_ascii, ascii_chars,
};
use crate::headers::{AAuthChallenge, ChallengeView};
use crate::respond::{header_views, ResponseBody, ResponseBodyView, ResponsePlan};
use crate::resource_token::{ResourceTokenOptions, TokenKind};
use crate::signature::{SignatureError, VerifiedSignature};
use crate::text::{push_char, strip_prefix};

verus! {

/// How a resource server evaluates access for incoming agent requests.
#[derive(Debug, Clone, PartialEq, Eq)]
pub enum ResourceAccessPolicy {
    /// Grant based on the verified agent or auth token identity alone.
    IdentityBased,
    /// Delegate authorization to the agent's Person Server (or Access Server when federated).
    PsAsserted {
        require_auth_token: bool,
        access_server_url: Option<String>,
        person_server_fallback: Option<String>,
    },
    /// The resource manages authorization via interaction and opaque access tokens.
    ResourceManaged,
}

/// How a resource server evaluates access, with the consent service of a
/// resource-managed resource.
#[derive(Debug, Clone)]
pub enum ResourceAccessMode<S> {
    IdentityBased,
    PsAsserted {
        require_auth_token: bool,
        access_server_url: Option<String>,
        person_server_fallback: Option<String>,
    },
    ResourceManaged { service: S },
}

/// Where a resource-managed resource sends users and keeps pending requests.
#[derive(Debug, Clone)]
pub struct ResourceAccessConfig {
    pub interaction_url: String,
    pub pending_base_url: String,
    pub pending_path: String,
    pub pending_ttl_secs: u64,
}

/// Marker service for access modes that use no consent service.
#[derive(Debug, Clone, Copy, Default)]
pub struct NoResourceAccessService;

impl NoResourceAccessService {
    /// No opaque token is valid without a consent service.
    pub fn validate_opaque(&self, token: &str, agent_id: &str) -> (b: bool)
        ensures
            !b,
    {
        false
    }
}

/// Marker provider when no resource-initiated interaction claim is needed.
#[derive(Debug, Clone, Copy, Default)]
pub struct NoResourceInteraction;

/// State of a resource's pending routes.
#[derive(Debug, Clone)]
pub struct ResourceServerState<S> {
    pub service: S,
}

/// What the access layer does next with a request.
#[derive(Debug, Clone, PartialEq, Eq)]
pub enum AccessStep {
    /// Answer `401` with this text.
    Unauthorized(String),
    /// Check this opaque access token against the resource's store, for the agent that signed.
    CheckOpaque(String),
    /// Verify the agent or auth token the request was signed with.
    VerifyToken,
    /// Pass the request on, with its verified token.
    Forward,
    /// Mint a resource token for the agent and answer with an auth-token challenge.
    RequireAuthToken,
    /// Start a resource-managed consent flow and answer `202`.
    CreatePending,
}

/// Mathematical value of an [`AccessStep`].
pub enum AccessStepView {
    Unauthorized(Seq<char>),
    CheckOpaque(Seq<char>),
    VerifyToken,
    Forward,
    RequireAuthToken,
    CreatePending,
}

impl View for AccessStep {
    type V = AccessStepView;

    open spec fn view(&self) -> AccessStepView {
        match self {
            AccessStep::Unauthorized(m) => AccessStepView::Unauthorized(m@),
            AccessStep::CheckOpaque(t) => AccessStepView::CheckOpaque(t@),
            AccessStep::VerifyToken => AccessStepView::VerifyToken,
            AccessStep::Forward => AccessStepView::Forward,
            AccessStep::RequireAuthToken => AccessStepView::RequireAuthToken,
            AccessStep::CreatePending => AccessStepView::CreatePending,
        }
    }
}

/// The opaque token of an `Authorization: AAuth <token>` value, when non-empty.
pub open spec fn aauth_access_token(authorization: Seq<char>) -> Option<Seq<char>> {
    match strip_prefix(authorization, "AAuth "@) {
        Some(rest) => if rest.len() > 0 {
            Some(rest)
        } else {
            None
        },
        None => None,
    }
}

/// The opaque token of the request's `Authorization` header (its first value,
/// when visible ASCII, with the `AAuth ` scheme).
pub open spec fn request_access_token(entries: Seq<(Seq<char>, Seq<u8>)>) -> Option<Seq<char>> {
    match first_named(entries, "authorization"@) {
        Some(i) => if visible_ascii(entries[i].1) {
            aauth_access_token(ascii_chars(entries[i].1))
        } else {
            None
        },
        None => None,
    }
}

fn aauth_access_token_exec(authorization: &Vec<u8>) -> (r: Option<String>)
    requires
        visible_ascii(authorization@),
    ensures
        match aauth_access_token(ascii_chars(authorization@)) {
            Some(t) => r matches Some(s) && s@ == t,
            None => r is None,
        },
{
    let mut text = String::new();
    let mut i: usize = 0;
    while i < authorization.len()
        invariant
            i <= authorization.len(),
            text@ == ascii_chars(authorization@.subrange(0, i as int)),
        decreases authorization.len() - i,
    {
        push_char(&mut text, authorization[i] as char);
        proof {
            assert(ascii_chars(authorization@.subrange(0, i + 1)) =~= ascii_chars(
                authorization@.subrange(0, i as int),
            ).push(authorization@[i as int] as char));
        }
        i = i + 1;
    }
    proof {
        assert(authorization@.subrange(0, authorization@.len() as int) =~= authorization@);
    }
    let v = crate::text::chars_of(text.as_str());
    let prefix = crate::text::chars_of("AAuth ");
    if !crate::headers::starts_with_exec(&v, &prefix) {
        return None;
    }
    if v.len() == prefix.len() {
        return None;
    }
    Some(crate::text::string_of(&v, prefix.len(), v.len()))
}

/// The opaque access token of a request: `Authorization: AAuth <token>`.
pub fn extract_aauth_access(headers: &http::HeaderMap) -> (r: Option<String>)
    ensures
        match request_access_token(header_entries(*headers)) {
            Some(t) => r matches Some(s) && s@ == t,
            None => r is None,
        },
{
    proof {
        reveal_strlit("authorization");
        assert("authorization"@ =~= seq![
            'a', 'u', 't', 'h', 'o', 'r', 'i', 'z', 'a', 't', 'i', 'o', 'n',
        ]);
        assert(static_header_name("authorization"@));
        lemma_first_named(header_entries(*headers), "authorization"@);
    }
    match header_map_get(headers, "authorization") {
        None => None,
        Some(v) => {
            let mut k: usize = 0;
            while k < v.len()
                invariant
                    k <= v.len(),
                    forall|j: int| 0 <= j < k ==> is_visible_ascii(#[trigger] v@[j]),
                    first_named(header_entries(*headers), "authorization"@) matches Some(i)
                        && header_entries(*headers)[i].1 == v@,
                decreases v.len() - k,
            {
                let b = v[k];
                if !((32 <= b && b < 127) || b == 9) {
                    proof {
                        assert(!is_visible_ascii(v@[k as int]));
                    }
                    return None;
                }
                k = k + 1;
            }
            aauth_access_token_exec(&v)
        },
    }
}

/// The first step after the request signature was checked.
pub open spec fn signature_step(
    policy: ResourceAccessPolicy,
    signature: Result<(), SignatureError>,
    access_token: Option<Seq<char>>,
) -> AccessStepView {
    if signature is Err {
        AccessStepView::Unauthorized(signature->Err_0.message())
    } else if policy == ResourceAccessPolicy::ResourceManaged && access_token is Some {
        AccessStepView::CheckOpaque(access_token->0)
    } else {
        AccessStepView::VerifyToken
    }
}

/// Decides what follows the check of a request's signature: an invalid signature
/// is answered `401` with the error's text; a resource-managed resource checks a
/// presented opaque access token; otherwise the signing token is verified.
pub fn after_signature(
    policy: &ResourceAccessPolicy,
    signature: &Result<VerifiedSignature, SignatureError>,
    access_token: Option<String>,
) -> (step: AccessStep)
    ensures
        step@ == signature_step(
            *policy,
            match signature {
                Ok(_) => Ok(()),
                Err(e) => Err(*e),
            },
            match access_token {
                Some(t) => Some(t@),
                None => None,
            },
        ),
{
    match signature {
        Err(e) => AccessStep::Unauthorized(e.to_string()),
        Ok(_) => match policy {
            ResourceAccessPolicy::ResourceManaged => match access_token {
                Some(t) => AccessStep::CheckOpaque(t),
                None => AccessStep::VerifyToken,
            },
            _ => AccessStep::VerifyToken,
        },
    }
}

/// Decides what follows the check of an opaque access token: pass the request on
/// when the store accepts the token for the agent and the agent token decodes;
/// otherwise answer `401`.
pub fn after_opaque(valid: bool, agent_decoded: bool) -> (step: AccessStep)
    ensures
        step@ == if valid && agent_decoded {
            AccessStepView::Forward
        } else {
            AccessStepView::Unauthorized("invalid opaque access token"@)
        },
{
    if valid && agent_decoded {
        AccessStep::Forward
    } else {
        AccessStep::Unauthorized(String::from_str("invalid opaque access token"))
    }
}

/// The step after the agent's token was verified, by policy and token kind.
pub open spec fn token_step(policy: ResourceAccessPolicy, verified: Result<TokenKind, Seq<char>>) -> AccessStepView {
    match verified {
        Err(m) => AccessStepView::Unauthorized(m),
        Ok(kind) => match policy {
            ResourceAccessPolicy::IdentityBased => AccessStepView::Forward,
            ResourceAccessPolicy::PsAsserted { require_auth_token, .. } => if require_auth_token
                && kind == TokenKind::Agent {
                AccessStepView::RequireAuthToken
            } else {
                AccessStepView::Forward
            },
            ResourceAccessPolicy::ResourceManaged => if kind == TokenKind::Agent {
                AccessStepView::CreatePending
            } else {
                AccessStepView::Forward
            },
        },
    }
}

/// A resource challenges for an auth token only when its policy is PS-asserted
/// with `require_auth_token` set and the verified token is an agent token; a
/// PS-asserted resource that does not require one passes on every verified token.
pub proof fn lemma_auth_token_required_only_when_asked(
    policy: ResourceAccessPolicy,
    verified: Result<TokenKind, Seq<char>>,
)
    ensures
        token_step(policy, verified) == AccessStepView::RequireAuthToken ==> (policy matches
            ResourceAccessPolicy::PsAsserted { require_auth_token, .. } && require_auth_token)
            && verified == Ok::<TokenKind, Seq<char>>(TokenKind::Agent),
        (policy matches ResourceAccessPolicy::PsAsserted { require_auth_token, .. }
            && !require_auth_token) && verified is Ok ==> token_step(policy, verified)
            == AccessStepView::Forward,
        verified matches Err(m) ==> token_step(policy, verified) == AccessStepView::Unauthorized(m),
{
}

/// Decides what follows the verification of the agent's token: a failure is
/// answered `401` with its text; an identity-based resource passes the request
/// on; a PS-asserted resource that requires an auth token challenges an agent
/// token; a resource-managed resource starts its consent flow for an agent token.
pub fn after_token(policy: &ResourceAccessPolicy, verified: Result<TokenKind, String>) -> (step:
    AccessStep)
    ensures
        step@ == token_step(
            *policy,
            match verified {
                Ok(k) => Ok(k),
                Err(m) => Err(m@),
            },
        ),
{
    match verified {
        Err(m) => AccessStep::Unauthorized(m),
        Ok(kind) => match policy {
            ResourceAccessPolicy::IdentityBased => AccessStep::Forward,
            ResourceAccessPolicy::PsAsserted { require_auth_token, .. } => {
                if *require_auth_token && kind == TokenKind::Agent {
                    AccessStep::RequireAuthToken
                } else {
                    AccessStep::Forward
                }
            },
            ResourceAccessPolicy::ResourceManaged => {
                if kind == TokenKind::Agent {
                    AccessStep::CreatePending
                } else {
                    AccessStep::Forward
                }
            },
        },
    }
}

/// `401` with a text body.
pub fn unauthorized(message: String) -> (r: ResponsePlan)
    ensures
        r@ == (401u16, Seq::<(Seq<char>, Seq<char>)>::empty(), ResponseBodyView::Text(message@)),
{
    let r = ResponsePlan { status: 401, headers: Vec::new(), body: ResponseBody::Text(message) };
    proof {
        assert(header_views(r.headers@) =~= Seq::<(Seq<char>, Seq<char>)>::empty());
    }
    r
}

/// The resource token a resource mints for an agent that must bring an auth
/// token: issued by the resource (`resource_url`) to the audience the agent's
/// token resolved to, for the agent identifier (`sub` of its agent token) and
/// bound to the thumbprint of the key that signed the request; no scope, mission
/// or interaction, and the default lifetime.
pub fn auth_token_resource_options(
    resource_url: String,
    audience: String,
    agent_id: String,
    agent_jkt: String,
) -> (o: ResourceTokenOptions)
    ensures
        o.resource == resource_url,
        o.audience == audience,
        o.agent == agent_id,
        o.agent_jkt == agent_jkt,
        o.scope is None,
        o.mission is None,
        o.lifetime is None,
        o.interaction is None,
{
    ResourceTokenOptions {
        resource: resource_url,
        audience,
        agent: agent_id,
        agent_jkt,
        scope: None,
        mission: None,
        lifetime: None,
        interaction: None,
    }
}

/// The answer once a resource token was (or could not be) minted for an agent
/// that must bring an auth token: `401` with the auth-token challenge carrying
/// the resource token, or `401` with the minting error.
pub fn auth_token_challenge(resource_token: Result<String, String>) -> (r: ResponsePlan)
    ensures
        r@ == match resource_token {
            Err(e) => (401u16, Seq::<(Seq<char>, Seq<char>)>::empty(), ResponseBodyView::Text(e@)),
            Ok(t) => (
                401u16,
                seq![("AAuth-Requirement"@, ChallengeView::AuthToken(t@).header())],
                ResponseBodyView::Text("Auth token required"@),
            ),
        },
{
    match resource_token {
        Err(e) => unauthorized(e),
        Ok(t) => {
            let challenge = AAuthChallenge::AuthToken { resource_token: t };
            let value = challenge.to_header();
            let mut headers: Vec<(String, String)> = Vec::new();
            headers.push((String::from_str("AAuth-Requirement"), value));
            proof {
                assert(header_views(headers@) =~= seq![("AAuth-Requirement"@, challenge@.header())]);
            }
            ResponsePlan {
                status: 401,
                headers,
                body: ResponseBody::Text(String::from_str("Auth token required")),
            }
        },
    }
}

/// The `@authority` a request is verified against: its `Host` header when
/// present and readable, else the URI's host with `:port` when it names one,
/// else empty.
pub open spec fn signature_authority(
    host_header: Option<Seq<char>>,
    uri_host: Option<Seq<char>>,
    uri_port: Option<u16>,
) -> Seq<char> {
    match host_header {
        Some(h) => h,
        None => match uri_host {
            Some(host) => match uri_port {
                Some(p) => host + seq![':'] + crate::signature::decimal(p as nat),
                None => host,
            },
            None => Seq::empty(),
        },
    }
}

/// The `@authority` of a request, from its `Host` header or its URI.
pub fn request_authority(host_header: Option<&str>, uri_host: Option<&str>, uri_port: Option<u16>) -> (r:
    String)
    ensures
        r@ == signature_authority(
            crate::resource_token::opt_view(host_header),
            crate::resource_token::opt_view(uri_host),
            uri_port,
        ),
{
    match host_header {
        Some(h) => String::from_str(h),
        None => match uri_host {
            Some(host) => match uri_port {
                Some(p) => {
                    let mut r = String::from_str(host);
                    push_char(&mut r, ':');
                    let digits = crate::signature::u64_to_decimal(p as u64);
                    r.append(digits.as_str());
                    proof {
                        assert(r@ =~= host@ + seq![':'] + crate::signature::decimal(p as nat));
                    }
                    r
                },
                None => String::from_str(host),
            },
            None => String::new(),
        },
    }
}

} // verus!
