//! Resource tokens: the claims a resource issues to an agent, and the checks a
//! verifier applies to them before fetching the issuer's key.
use vstd::prelude::*;

use crate::clock::now_unix_secs;
use crate::common::{str_eq, Mission};
use crate::wire::{ResourceClaims, ResourceInteractionClaim};

verus! {

/// Seconds a resource token lives when the options name no lifetime.
pub const DEFAULT_RESOURCE_TOKEN_LIFETIME_SECS: u64 = 300;

/// Clock skew tolerated when checking token expiry, in seconds.
pub const CLOCK_SKEW: i64 = 60;

/// A lowercase hexadecimal digit.
pub open spec fn is_lower_hex(c: char) -> bool {
    ('0' <= c && c <= '9') || ('a' <= c && c <= 'f')
}

/// The hyphenated lowercase text of a random (version 4, RFC 4122 variant) UUID:
/// 36 characters, `-` at 8, 13, 18 and 23, the version digit `4` at 14, one of
/// `8`, `9`, `a`, `b` at 19, and lowercase hexadecimal digits elsewhere.
pub open spec fn uuid_v4_text(s: Seq<char>) -> bool {
    &&& s.len() == 36
    &&& s[8] == '-' && s[13] == '-' && s[18] == '-' && s[23] == '-'
    &&& s[14] == '4'
    &&& (s[19] == '8' || s[19] == '9' || s[19] == 'a' || s[19] == 'b')
    &&& forall|i: int|
        0 <= i < 36 && i != 8 && i != 13 && i != 18 && i != 23 ==> is_lower_hex(#[trigger] s[i])
}

/// A fresh random UUID, `Uuid::new_v4().to_string()`, used as a token's `jti`.
/// Which UUID is chance; its form is what the crate documents and writes: the
/// hyphenated lowercase text with the version and variant bits set.
#[verifier::external_body]
pub(crate) fn new_jti() -> (jti: String)
    ensures
        uuid_v4_text(jti@),
{
    uuid::Uuid::new_v4().to_string()
}

/// The JOSE header a resource token is signed under.
#[derive(Debug, Clone, PartialEq, Eq)]
pub struct ResourceTokenHeader {
    pub alg: String,
    pub typ: String,
}

/// The header of every resource token: Ed25519 (`alg` `EdDSA`) and `typ`
/// `aa-resource+jwt`.
pub fn resource_token_header() -> (h: ResourceTokenHeader)
    ensures
        h.alg@ == "EdDSA"@,
        h.typ@ == "aa-resource+jwt"@,
{
    ResourceTokenHeader { alg: String::from_str("EdDSA"), typ: String::from_str("aa-resource+jwt") }
}

/// The claims of a header-and-claims result.
pub open spec fn claims_part(r: Result<(ResourceTokenHeader, ResourceClaims), ResourceTokenError>) -> Result<
    ResourceClaims,
    ResourceTokenError,
> {
    match r {
        Ok((_, c)) => Ok(c),
        Err(e) => Err(e),
    }
}

/// What a resource puts in the resource tokens it signs.
#[derive(Debug, Clone)]
pub struct ResourceTokenOptions {
    pub resource: String,
    pub audience: String,
    pub agent: String,
    pub agent_jkt: String,
    pub scope: Option<String>,
    pub mission: Option<Mission>,
    pub lifetime: Option<u64>,
    pub interaction: Option<ResourceInteractionClaim>,
}

/// Why resource token claims could not be made.
#[derive(Debug, Clone, Copy, PartialEq, Eq, Structural)]
pub enum ResourceTokenError {
    /// The expiry would lie beyond the largest representable time.
    LifetimeTooLong,
    /// The system clock reads a time before the Unix epoch.
    SystemTime,
}

pub open spec fn lifetime_of(lifetime: Option<u64>) -> u64 {
    match lifetime {
        Some(l) => l,
        None => DEFAULT_RESOURCE_TOKEN_LIFETIME_SECS,
    }
}

impl ResourceTokenOptions {
    /// The claims of a resource token issued at `now` (seconds since the Unix
    /// epoch) with identifier `jti`: `dwk` is `aauth-resource.json` and the token
    /// expires after the lifetime (300 seconds unless given).
    pub fn claims_at(self, now: u64, jti: String) -> (c: ResourceClaims)
        requires
            now + lifetime_of(self.lifetime) <= u64::MAX,
        ensures
            c.iss == self.resource,
            c.dwk@ == "aauth-resource.json"@,
            c.aud == self.audience,
            c.jti == jti,
            c.agent == self.agent,
            c.agent_jkt == self.agent_jkt,
            c.iat == now,
            c.exp == now + lifetime_of(self.lifetime),
            c.scope == self.scope,
            c.mission == self.mission,
            c.interaction == self.interaction,
    {
        let lifetime = match self.lifetime {
            Some(l) => l,
            None => DEFAULT_RESOURCE_TOKEN_LIFETIME_SECS,
        };
        ResourceClaims {
            iss: self.resource,
            dwk: String::from_str("aauth-resource.json"),
            aud: self.audience,
            jti,
            agent: self.agent,
            agent_jkt: self.agent_jkt,
            iat: now,
            exp: now + lifetime,
            scope: self.scope,
            mission: self.mission,
            interaction: self.interaction,
        }
    }

    /// What [`Self::claims`] gives when the clock reads `clock` (seconds since the
    /// Unix epoch, `None` before it): refused with `SystemTime` when the clock
    /// reads before the epoch, refused with `LifetimeTooLong` exactly when the
    /// expiry would overflow, and otherwise issued at that time.
    pub open spec fn claims_outcome_at(
        self,
        clock: Option<u64>,
        r: Result<ResourceClaims, ResourceTokenError>,
    ) -> bool {
        match clock {
            None => r == Err::<ResourceClaims, ResourceTokenError>(ResourceTokenError::SystemTime),
            Some(now) => {
                &&& (r is Err <==> now + lifetime_of(self.lifetime) > u64::MAX)
                &&& (r is Err ==> r == Err::<ResourceClaims, ResourceTokenError>(
                    ResourceTokenError::LifetimeTooLong,
                ))
                &&& (r matches Ok(c) ==> c.iat == now)
            },
        }
    }

    /// The claims of a resource token issued now (by the system clock) with a
    /// fresh random `jti`; refused when the clock reads before the Unix epoch or
    /// the expiry would overflow.
    pub fn claims(self) -> (r: Result<ResourceClaims, ResourceTokenError>)
        ensures
            exists|clock: Option<u64>| #[trigger] self.claims_outcome_at(clock, r),
            r matches Ok(c) ==> c.iss == self.resource && c.dwk@ == "aauth-resource.json"@
                && c.aud == self.audience && c.agent == self.agent && c.agent_jkt == self.agent_jkt
                && c.exp == c.iat + lifetime_of(self.lifetime) && c.scope == self.scope
                && c.mission == self.mission && c.interaction == self.interaction,
            r matches Ok(c) ==> uuid_v4_text(c.jti@),
    {
        let ghost opts = self;
        let clock = now_unix_secs();
        let now = match clock {
            Some(n) => n,
            None => {
                let r = Err(ResourceTokenError::SystemTime);
                assert(opts.claims_outcome_at(clock, r));
                return r;
            },
        };
        let lifetime = match self.lifetime {
            Some(l) => l,
            None => DEFAULT_RESOURCE_TOKEN_LIFETIME_SECS,
        };
        if lifetime > u64::MAX - now {
            let r = Err(ResourceTokenError::LifetimeTooLong);
            assert(opts.claims_outcome_at(clock, r));
            return r;
        }
        let jti = new_jti();
        let r = Ok(self.claims_at(now, jti));
        assert(opts.claims_outcome_at(clock, r));
        r
    }

    /// The header and claims a resource token is signed over, issued now (by the
    /// system clock): the resource token header (`alg` `EdDSA`, `typ`
    /// `aa-resource+jwt`) with [`Self::claims`].
    pub fn to_sign(self) -> (r: Result<(ResourceTokenHeader, ResourceClaims), ResourceTokenError>)
        ensures
            exists|clock: Option<u64>| #[trigger] self.claims_outcome_at(clock, claims_part(r)),
            r matches Ok((h, c)) ==> h.alg@ == "EdDSA"@ && h.typ@ == "aa-resource+jwt"@
                && c.iss == self.resource && c.dwk@ == "aauth-resource.json"@
                && c.aud == self.audience && c.agent == self.agent && c.agent_jkt == self.agent_jkt
                && c.exp == c.iat + lifetime_of(self.lifetime) && c.scope == self.scope
                && c.mission == self.mission && c.interaction == self.interaction,
            r matches Ok((_, c)) ==> uuid_v4_text(c.jti@),
    {
        let ghost opts = self;
        match self.claims() {
            Ok(c) => {
                let r = Ok((resource_token_header(), c));
                assert(claims_part(r) == Ok::<ResourceClaims, ResourceTokenError>(c));
                r
            },
            Err(e) => {
                let r = Err(e);
                assert(claims_part(r) == Err::<ResourceClaims, ResourceTokenError>(e));
                r
            },
        }
    }
}

// ---------------------------------------------------------------------------------------------
// Checks before the issuer's key is fetched
// ---------------------------------------------------------------------------------------------

/// The kind of a parsed AAuth token.
#[derive(Debug, Clone, Copy, PartialEq, Eq, Structural)]
pub enum TokenKind {
    Agent,
    Auth,
    Resource,
}

/// Why a token was refused.
#[derive(Debug, Clone, Copy, PartialEq, Eq, Structural)]
pub enum VerifyError {
    /// A resource token where an agent or auth token was expected.
    UnsupportedTyp,
    /// An agent or auth token where a resource token was expected.
    WrongTyp,
    /// The token expired (beyond the clock skew).
    Expired(TokenKind),
    /// No `cnf.jwk`, or its thumbprint is not that of the request's signing key.
    KeyBindingFailed,
    /// A resource token whose `dwk` is not `aauth-resource.json`.
    InvalidDwk,
    /// The token names another agent.
    AgentMismatch,
    /// The token binds another agent key.
    AgentJktMismatch,
}

/// The token expired: its `exp`, read as a signed 64-bit time, lies more than the
/// clock skew before `now`.
pub open spec fn expired_i64(exp: i64, now: i64) -> bool {
    exp < now - CLOCK_SKEW
}

/// `exp as i64` of an unsigned expiry.
pub open spec fn signed_exp(exp: u64) -> int {
    if exp <= i64::MAX {
        exp as int
    } else {
        exp - 0x1_0000_0000_0000_0000
    }
}

/// What [`check_token`] decides for an agent or auth token before its signature is checked.
pub open spec fn token_check(
    kind: TokenKind,
    exp: i64,
    now: i64,
    cnf_thumbprint: Option<Seq<char>>,
    signature_thumbprint: Seq<char>,
) -> Result<TokenKind, VerifyError> {
    if kind == TokenKind::Resource {
        Err(VerifyError::UnsupportedTyp)
    } else if expired_i64(exp, now) {
        Err(VerifyError::Expired(kind))
    } else {
        match cnf_thumbprint {
            None => Err(VerifyError::KeyBindingFailed),
            Some(t) => if t != signature_thumbprint {
                Err(VerifyError::KeyBindingFailed)
            } else {
                Ok(kind)
            },
        }
    }
}

pub open spec fn opt_view(o: Option<&str>) -> Option<Seq<char>> {
    match o {
        Some(s) => Some(s@),
        None => None,
    }
}

/// The checks on an agent or auth token before its issuer's key is fetched: it
/// is not a resource token, it has not expired (at `now`, with the clock skew),
/// and its `cnf.jwk` thumbprint is that of the key that signed the request.
pub fn check_token(
    kind: TokenKind,
    exp: i64,
    now: i64,
    cnf_thumbprint: Option<&str>,
    signature_thumbprint: &str,
) -> (r: Result<TokenKind, VerifyError>)
    requires
        now - CLOCK_SKEW >= i64::MIN,
    ensures
        r == token_check(kind, exp, now, opt_view(cnf_thumbprint), signature_thumbprint@),
{
    if kind == TokenKind::Resource {
        return Err(VerifyError::UnsupportedTyp);
    }
    if exp < now - CLOCK_SKEW {
        return Err(VerifyError::Expired(kind));
    }
    match cnf_thumbprint {
        None => Err(VerifyError::KeyBindingFailed),
        Some(t) => if !str_eq(t, signature_thumbprint) {
            Err(VerifyError::KeyBindingFailed)
        } else {
            Ok(kind)
        },
    }
}

/// What [`check_resource_claims`] decides for a resource token.
pub open spec fn resource_claims_check(
    kind: TokenKind,
    claims: ResourceClaims,
    now: i64,
    expected_agent: Option<Seq<char>>,
    expected_agent_jkt: Option<Seq<char>>,
) -> Result<(), VerifyError> {
    if kind != TokenKind::Resource {
        Err(VerifyError::WrongTyp)
    } else if signed_exp(claims.exp) < now - CLOCK_SKEW {
        Err(VerifyError::Expired(TokenKind::Resource))
    } else if claims.dwk@ != "aauth-resource.json"@ {
        Err(VerifyError::InvalidDwk)
    } else if expected_agent matches Some(a) && claims.agent@ != a {
        Err(VerifyError::AgentMismatch)
    } else if expected_agent_jkt matches Some(j) && claims.agent_jkt@ != j {
        Err(VerifyError::AgentJktMismatch)
    } else {
        Ok(())
    }
}

/// The checks on a resource token before its issuer's key is fetched: it is a
/// resource token, not expired at `now` (with the clock skew), its `dwk` is
/// `aauth-resource.json`, and it names the expected agent and agent key.
pub fn check_resource_claims(
    kind: TokenKind,
    claims: &ResourceClaims,
    now: i64,
    expected_agent: Option<&str>,
    expected_agent_jkt: Option<&str>,
) -> (r: Result<(), VerifyError>)
    requires
        now - CLOCK_SKEW >= i64::MIN,
    ensures
        r == resource_claims_check(
            kind,
            *claims,
            now,
            opt_view(expected_agent),
            opt_view(expected_agent_jkt),
        ),
{
    if kind != TokenKind::Resource {
        return Err(VerifyError::WrongTyp);
    }
    let exp: i128 = if claims.exp <= (i64::MAX as u64) {
        claims.exp as i128
    } else {
        (claims.exp as i128) - 0x1_0000_0000_0000_0000i128
    };
    if exp < (now as i128) - (CLOCK_SKEW as i128) {
        return Err(VerifyError::Expired(TokenKind::Resource));
    }
    if !str_eq(claims.dwk.as_str(), "aauth-resource.json") {
        return Err(VerifyError::InvalidDwk);
    }
    if let Some(a) = expected_agent {
        if !str_eq(claims.agent.as_str(), a) {
            return Err(VerifyError::AgentMismatch);
        }
    }
    if let Some(j) = expected_agent_jkt {
        if !str_eq(claims.agent_jkt.as_str(), j) {
            return Err(VerifyError::AgentJktMismatch);
        }
    }
    Ok(())
}

/// Options of an agent or auth token verification.
pub struct VerifyTokenOptions<F> {
    pub jwt: String,
    pub http_signature_thumbprint: String,
    pub fetcher: F,
}

/// Options of a resource token verification.
pub struct VerifyResourceTokenOptions<F> {
    pub jwt: String,
    pub expected_agent: Option<String>,
    pub expected_agent_jkt: Option<String>,
    pub fetcher: F,
}

} // verus!
