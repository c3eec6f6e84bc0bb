//! Resource tokens of a resource that names the authorization server directly.
use vstd::prelude::*;

use crate::common::Mission;
use crate::clock::now_unix_secs;
use crate::resource_token::{
    new_jti, resource_token_header, uuid_v4_text, ResourceTokenError, ResourceTokenHeader,
    DEFAULT_RESOURCE_TOKEN_LIFETIME_SECS,
};
use crate::wire::ResourceClaims;

verus! {

/// What a resource puts in a resource token addressed to an authorization server.
#[derive(Debug, Clone)]
pub struct ResourceTokenOptions {
    pub resource: String,
    pub auth_server: String,
    pub agent: String,
    pub agent_jkt: String,
    pub scope: Option<String>,
    pub mission: Option<Mission>,
    pub lifetime: Option<u64>,
}

pub open spec fn token_lifetime(lifetime: Option<u64>) -> u64 {
    match lifetime {
        Some(l) => l,
        None => DEFAULT_RESOURCE_TOKEN_LIFETIME_SECS,
    }
}

/// The payload of a resource token issued at `now` (seconds since the Unix epoch)
/// with identifier `jti`: addressed to the authorization server, `dwk`
/// `aauth-resource.json`, expiring after the lifetime (300 seconds unless given),
/// with the scope and mission when present.
pub fn resource_token_payload(options: ResourceTokenOptions, now: u64, jti: String) -> (c:
    ResourceClaims)
    requires
        now + token_lifetime(options.lifetime) <= u64::MAX,
    ensures
        c.iss == options.resource,
        c.dwk@ == "aauth-resource.json"@,
        c.aud == options.auth_server,
        c.jti == jti,
        c.agent == options.agent,
        c.agent_jkt == options.agent_jkt,
        c.iat == now,
        c.exp == now + token_lifetime(options.lifetime),
        c.scope == options.scope,
        c.mission == options.mission,
        c.interaction is None,
{
    let lifetime = match options.lifetime {
        Some(l) => l,
        None => DEFAULT_RESOURCE_TOKEN_LIFETIME_SECS,
    };
    ResourceClaims {
        iss: options.resource,
        dwk: String::from_str("aauth-resource.json"),
        aud: options.auth_server,
        jti,
        agent: options.agent,
        agent_jkt: options.agent_jkt,
        iat: now,
        exp: now + lifetime,
        scope: options.scope,
        mission: options.mission,
        interaction: None,
    }
}

/// What [`resource_token_to_sign`] gives when the clock reads `clock` (seconds
/// since the Unix epoch, `None` before it): refused with `SystemTime` before the
/// epoch, refused with `LifetimeTooLong` exactly when the expiry would overflow,
/// and otherwise the resource token header with the payload issued at that time.
pub open spec fn to_sign_at(
    options: ResourceTokenOptions,
    clock: Option<u64>,
    r: Result<(ResourceTokenHeader, ResourceClaims), ResourceTokenError>,
) -> bool {
    match clock {
        None => r == Err::<(ResourceTokenHeader, ResourceClaims), ResourceTokenError>(
            ResourceTokenError::SystemTime,
        ),
        Some(now) => {
            &&& (r is Err <==> now + token_lifetime(options.lifetime) > u64::MAX)
            &&& (r is Err ==> r == Err::<(ResourceTokenHeader, ResourceClaims), ResourceTokenError>(
                ResourceTokenError::LifetimeTooLong,
            ))
            &&& (r matches Ok((_, c)) ==> c.iat == now)
        },
    }
}

/// The header and payload a resource token is signed over, issued now (by the
/// system clock) with a fresh random `jti`: header `alg` `EdDSA`, `typ`
/// `aa-resource+jwt`, and the payload of [`resource_token_payload`]. Refused when
/// the clock reads before the Unix epoch or the expiry would overflow.
pub fn resource_token_to_sign(options: ResourceTokenOptions) -> (r: Result<
    (ResourceTokenHeader, ResourceClaims),
    ResourceTokenError,
>)
    ensures
        exists|clock: Option<u64>| #[trigger] to_sign_at(options, clock, r),
        r matches Ok((h, c)) ==> {
            &&& h.alg@ == "EdDSA"@
            &&& h.typ@ == "aa-resource+jwt"@
            &&& c.iss == options.resource
            &&& c.dwk@ == "aauth-resource.json"@
            &&& c.aud == options.auth_server
            &&& c.agent == options.agent
            &&& c.agent_jkt == options.agent_jkt
            &&& c.exp == c.iat + token_lifetime(options.lifetime)
            &&& c.scope == options.scope
            &&& c.mission == options.mission
            &&& c.interaction is None
            &&& uuid_v4_text(c.jti@)
        },
{
    let ghost opts = options;
    let clock = now_unix_secs();
    let now = match clock {
        Some(n) => n,
        None => {
            let r = Err(ResourceTokenError::SystemTime);
            assert(to_sign_at(opts, clock, r));
            return r;
        },
    };
    let lifetime = match options.lifetime {
        Some(l) => l,
        None => DEFAULT_RESOURCE_TOKEN_LIFETIME_SECS,
    };
    if lifetime > u64::MAX - now {
        let r = Err(ResourceTokenError::LifetimeTooLong);
        assert(to_sign_at(opts, clock, r));
        return r;
    }
    let jti = new_jti();
    let r = Ok((resource_token_header(), resource_token_payload(options, now, jti)));
    assert(to_sign_at(opts, clock, r));
    r
}

} // verus!
