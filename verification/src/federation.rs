//! The decisions of a Person Server that issues an auth token itself or
//! federates the token exchange to the resource's Access Server.
use vstd::prelude::*;

use crate::common::str_eq;
use crate::text::{chars_of, string_of, trim_char_end, lemma_trim_char_end_at};
use crate::wire::TokenExchangeRequest;

verus! {

/// Lifetime of the auth tokens a Person Server issues itself, in seconds.
pub const LOCAL_AUTH_TOKEN_LIFETIME_SECS: u64 = 3600;

/// A URL without its trailing slashes.
pub open spec fn normalized_url(url: Seq<char>) -> Seq<char> {
    trim_char_end(url, '/')
}

/// `url` without its trailing slashes (`str::trim_end_matches('/')`).
pub fn normalize_url(url: &str) -> (r: String)
    ensures
        r@ == normalized_url(url@),
{
    let v = chars_of(url);
    let mut end = v.len();
    while end > 0 && v[end - 1] == '/'
        invariant
            end <= v.len(),
            v@ == url@,
            forall|j: int| end <= j < v.len() ==> #[trigger] v@[j] == '/',
        decreases end,
    {
        end = end - 1;
    }
    proof {
        lemma_trim_char_end_at(v@, '/', end as int);
    }
    string_of(&v, 0, end)
}

/// Whether the Person Server issues the auth token itself: the resource token is
/// addressed to it (equal URLs up to trailing slashes); otherwise it federates
/// to the Access Server named by the token's audience.
pub fn issues_locally(person_server_url: &str, audience: &str) -> (b: bool)
    ensures
        b == (normalized_url(person_server_url@) == normalized_url(audience@)),
{
    let ps = normalize_url(person_server_url);
    let aud = normalize_url(audience);
    str_eq(ps.as_str(), aud.as_str())
}

/// Where an Access Server publishes its metadata.
pub open spec fn access_metadata_url(access_server_url: Seq<char>) -> Seq<char> {
    normalized_url(access_server_url) + "/.well-known/aauth-access.json"@
}

/// The metadata URL of an Access Server: its URL without trailing slashes, then
/// `/.well-known/aauth-access.json`.
pub fn federation_metadata_url(access_server_url: &str) -> (r: String)
    ensures
        r@ == access_metadata_url(access_server_url@),
{
    let mut r = normalize_url(access_server_url);
    r.append("/.well-known/aauth-access.json");
    r
}

/// The token request a Person Server sends an Access Server: the resource token
/// alone.
pub fn federation_token_request(resource_token: &str) -> (r: TokenExchangeRequest)
    ensures
        r.resource_token@ == resource_token@,
        r.upstream_token is None,
        r.subagent_token is None,
        r.justification is None,
        r.login_hint is None,
        r.tenant is None,
        r.domain_hint is None,
        r.capabilities is None,
        r.prompt is None,
        r.platform is None,
        r.device is None,
{
    TokenExchangeRequest {
        resource_token: String::from_str(resource_token),
        upstream_token: None,
        subagent_token: None,
        justification: None,
        login_hint: None,
        tenant: None,
        domain_hint: None,
        capabilities: None,
        prompt: None,
        platform: None,
        device: None,
    }
}

/// An HTTP status in the success class (200 to 299).
pub open spec fn is_success(status: u16) -> bool {
    200 <= status && status <= 299
}

fn status_failure(prefix: &str, status_text: &str) -> (r: String)
    ensures
        r@ == prefix@ + status_text@,
{
    let mut r = String::from_str(prefix);
    r.append(status_text);
    r
}

/// The Access Server's answer to the metadata request: accepted when its status
/// is a success, else an error naming the status (`status_text` is how the
/// status is displayed).
pub fn check_metadata_response(status: u16, status_text: &str) -> (r: Result<(), String>)
    ensures
        r is Ok <==> is_success(status),
        r matches Err(m) ==> m@ == "Failed to fetch access server metadata: "@ + status_text@,
{
    if 200 <= status && status <= 299 {
        Ok(())
    } else {
        Err(status_failure("Failed to fetch access server metadata: ", status_text))
    }
}

/// The Access Server's answer to the token request: accepted when its status is
/// a success, else an error naming the status.
pub fn check_token_response(status: u16, status_text: &str) -> (r: Result<(), String>)
    ensures
        r is Ok <==> is_success(status),
        r matches Err(m) ==> m@ == "Access server token exchange failed: "@ + status_text@,
{
    if 200 <= status && status <= 299 {
        Ok(())
    } else {
        Err(status_failure("Access server token exchange failed: ", status_text))
    }
}

} // verus!
