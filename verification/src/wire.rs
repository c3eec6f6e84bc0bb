//! AAuth wire bodies: authorization, token exchange, interaction, missions,
//! permissions, pending URLs, server metadata, JWT payloads and signature keys.
use vstd::prelude::*;

use crate::common::{Capability, Mission, PendingStatus};
use crate::signature::OkpSigningJwk;

verus! {

// ---------------------------------------------------------------------------------------------
// Resource authorization endpoint
// ---------------------------------------------------------------------------------------------

/// Agent -> Resource POST `{authorization_endpoint}`.
#[derive(Debug, Clone, PartialEq, Eq)]
pub struct AuthorizationRequest {
    pub scope: String,
}

/// Resource -> Agent `200` from the authorization endpoint.
#[derive(Debug, Clone, PartialEq, Eq)]
pub struct ResourceTokenResponse {
    pub resource_token: String,
}

/// Resource -> Agent `200` when access is granted without a token exchange.
#[derive(Debug, Clone, PartialEq, Eq)]
pub struct AuthorizationGrantedResponse {
    pub status: String,
    pub scope: String,
}

/// Resource -> Agent `200` for an agent-token protected call.
#[derive(Debug, Clone)]
pub struct AgentOkResponse {
    pub status: String,
    pub agent: String,
}

/// Resource -> Agent `200` for an auth-token protected call.
#[derive(Debug, Clone)]
pub struct AuthOkResponse {
    pub status: String,
    pub user: Option<String>,
}

// ---------------------------------------------------------------------------------------------
// Token endpoint
// ---------------------------------------------------------------------------------------------

/// Agent -> PS POST `{token_endpoint}`.
#[derive(Debug, Clone, PartialEq, Eq)]
pub struct TokenExchangeRequest {
    pub resource_token: String,
    pub upstream_token: Option<String>,
    pub subagent_token: Option<String>,
    pub justification: Option<String>,
    pub login_hint: Option<String>,
    pub tenant: Option<String>,
    pub domain_hint: Option<String>,
    pub capabilities: Option<Vec<Capability>>,
    pub prompt: Option<String>,
    pub platform: Option<String>,
    pub device: Option<String>,
}

/// PS -> AS POST `{token_endpoint}` (federated exchange).
#[derive(Debug, Clone)]
pub struct AccessTokenExchangeRequest {
    pub resource_token: String,
    pub agent_token: String,
    pub upstream_token: Option<String>,
    pub subagent_token: Option<String>,
}

/// `200` body of a token endpoint.
#[derive(Debug, Clone, PartialEq, Eq)]
pub struct TokenResponseBody {
    pub auth_token: String,
    pub expires_in: u64,
}

impl View for TokenResponseBody {
    type V = (Seq<char>, u64);

    open spec fn view(&self) -> (Seq<char>, u64) {
        (self.auth_token@, self.expires_in)
    }
}

// ---------------------------------------------------------------------------------------------
// Interaction, missions, permissions
// ---------------------------------------------------------------------------------------------

/// Kind of a user interaction requested by an agent.
#[derive(Debug, Clone, Copy, PartialEq, Eq, Structural)]
pub enum InteractionType {
    Interaction,
    Payment,
    Question,
    Completion,
}

/// Agent -> PS POST `{interaction_endpoint}`.
#[derive(Debug, Clone, PartialEq, Eq)]
pub struct InteractionRequest {
    pub interaction_type: InteractionType,
    pub description: Option<String>,
    pub url: Option<String>,
    pub code: Option<String>,
    pub max_wait: Option<u64>,
    pub question: Option<String>,
    pub summary: Option<String>,
    pub mission: Option<Mission>,
}

/// PS -> Agent answer to a question interaction.
#[derive(Debug, Clone, PartialEq, Eq)]
pub struct InteractionQuestionResponse {
    pub answer: String,
}

/// Error body when a mission is no longer active.
#[derive(Debug, Clone, PartialEq, Eq)]
pub struct MissionStatusError {
    pub error: String,
    pub mission_status: String,
}

/// A tool named in a mission proposal.
#[derive(Debug, Clone, PartialEq, Eq)]
pub struct MissionTool {
    pub name: String,
    pub description: String,
}

/// Agent -> PS POST `{mission_endpoint}`.
#[derive(Debug, Clone, PartialEq, Eq)]
pub struct MissionProposalRequest {
    pub description: String,
    pub tools: Option<Vec<MissionTool>>,
}

/// Approved mission document.
#[derive(Debug, Clone, PartialEq, Eq)]
pub struct MissionBlob {
    pub approver: String,
    pub agent: String,
    pub approved_at: String,
    pub description: String,
    pub approved_tools: Option<Vec<MissionTool>>,
    pub capabilities: Option<Vec<Capability>>,
}

/// Outcome of a permission request.
#[derive(Debug, Clone, Copy, PartialEq, Eq, Structural)]
pub enum PermissionDecision {
    Granted,
    Denied,
}

/// PS -> Agent answer to a permission request.
#[derive(Debug, Clone, PartialEq, Eq)]
pub struct PermissionResponse {
    pub permission: PermissionDecision,
    pub reason: Option<String>,
}

// ---------------------------------------------------------------------------------------------
// Pending URLs
// ---------------------------------------------------------------------------------------------

/// The `status` a clarification challenge has when the body names none.
pub fn default_pending_status() -> (s: PendingStatus)
    ensures
        s == PendingStatus::Pending,
{
    PendingStatus::Pending
}

/// Status-only pending response body (`interaction` / `approval`).
#[derive(Debug, Clone, Copy, PartialEq, Eq, Structural)]
pub struct PendingStatusBody {
    pub status: PendingStatus,
}

/// Pending body of `requirement=clarification`.
#[derive(Debug, Clone)]
pub struct ClarificationChallenge {
    pub status: PendingStatus,
    pub clarification: String,
    pub timeout: Option<u64>,
    pub options: Option<Vec<String>>,
}

/// Pending body of `requirement=claims`.
#[derive(Debug, Clone)]
pub struct ClaimsChallenge {
    pub status: PendingStatus,
    pub required_claims: Vec<String>,
}

/// JSON body on a `202` pending / defer response.
#[derive(Debug, Clone)]
pub enum PendingBody {
    Status(PendingStatusBody),
    Clarification(ClarificationChallenge),
    Claims(ClaimsChallenge),
}

pub open spec fn strings_view(v: Seq<String>) -> Seq<Seq<char>> {
    v.map_values(|s: String| s@)
}

/// Mathematical value of a [`PendingBody`].
pub enum PendingBodyView {
    Status(PendingStatus),
    Clarification {
        status: PendingStatus,
        clarification: Seq<char>,
        timeout: Option<u64>,
        options: Option<Seq<Seq<char>>>,
    },
    Claims { status: PendingStatus, required_claims: Seq<Seq<char>> },
}

impl View for PendingBody {
    type V = PendingBodyView;

    open spec fn view(&self) -> PendingBodyView {
        match self {
            PendingBody::Status(b) => PendingBodyView::Status(b.status),
            PendingBody::Clarification(c) => PendingBodyView::Clarification {
                status: c.status,
                clarification: c.clarification@,
                timeout: c.timeout,
                options: match c.options {
                    Some(o) => Some(strings_view(o@)),
                    None => None,
                },
            },
            PendingBody::Claims(c) => PendingBodyView::Claims {
                status: c.status,
                required_claims: strings_view(c.required_claims@),
            },
        }
    }
}

/// Agent POST answering a clarification.
#[derive(Debug, Clone)]
pub struct ClarificationResponse {
    pub clarification_response: String,
}

/// Agent POST replacing the resource token of a pending request.
#[derive(Debug, Clone, PartialEq, Eq)]
pub struct UpdatedTokenRequest {
    pub resource_token: String,
    pub justification: Option<String>,
}

/// Empty `{}` or omitted body: interaction completed on a pending URL.
#[derive(Debug, Clone, Copy)]
pub struct InteractionCompletedBody {}

/// `402 Payment Required` body.
#[derive(Debug, Clone)]
pub struct PaymentRequiredBody {
    pub status: String,
}

impl PaymentRequiredBody {
    /// `{"status": "pending"}`.
    pub fn pending() -> (b: PaymentRequiredBody)
        ensures
            b.status@ == "pending"@,
    {
        PaymentRequiredBody { status: String::from_str("pending") }
    }
}

// ---------------------------------------------------------------------------------------------
// Server metadata
// ---------------------------------------------------------------------------------------------

/// Person server metadata document.
#[derive(Debug, Clone)]
pub struct PersonServerMetadata {
    pub issuer: Option<String>,
    pub token_endpoint: String,
    pub jwks_uri: Option<String>,
    pub name: Option<String>,
    pub description: Option<String>,
    pub logo_uri: Option<String>,
    pub logo_dark_uri: Option<String>,
    pub documentation_uri: Option<String>,
    pub tos_uri: Option<String>,
    pub policy_uri: Option<String>,
    pub mission_endpoint: Option<String>,
    pub permission_endpoint: Option<String>,
    pub audit_endpoint: Option<String>,
    pub interaction_endpoint: Option<String>,
    pub mission_control_endpoint: Option<String>,
    pub revocation_endpoint: Option<String>,
    pub scopes_supported: Option<Vec<String>>,
    pub claims_supported: Option<Vec<String>>,
}

impl PersonServerMetadata {
    /// Accepts the document exactly when it names a token endpoint.
    pub fn validate(&self) -> (r: Result<(), String>)
        ensures
            r is Ok <==> self.token_endpoint@.len() > 0,
            r matches Err(m) ==> m@ == "Person server metadata missing token_endpoint"@,
    {
        if self.token_endpoint.as_str().unicode_len() == 0 {
            return Err(String::from_str("Person server metadata missing token_endpoint"));
        }
        Ok(())
    }
}

/// Access server metadata document.
#[derive(Debug, Clone)]
pub struct AccessServerMetadata {
    pub issuer: Option<String>,
    pub token_endpoint: String,
    pub jwks_uri: Option<String>,
    pub name: Option<String>,
    pub description: Option<String>,
    pub logo_uri: Option<String>,
    pub logo_dark_uri: Option<String>,
    pub documentation_uri: Option<String>,
    pub tos_uri: Option<String>,
    pub policy_uri: Option<String>,
    pub revocation_endpoint: Option<String>,
}

impl AccessServerMetadata {
    /// Accepts the document exactly when it names a token endpoint.
    pub fn validate(&self) -> (r: Result<(), String>)
        ensures
            r is Ok <==> self.token_endpoint@.len() > 0,
            r matches Err(m) ==> m@ == "Access server metadata missing token_endpoint"@,
    {
        if self.token_endpoint.as_str().unicode_len() == 0 {
            return Err(String::from_str("Access server metadata missing token_endpoint"));
        }
        Ok(())
    }
}

/// How a resource expects to be accessed (`access_mode` metadata member).
#[derive(Debug, Clone, Copy, PartialEq, Eq, Structural)]
pub enum ResourceAccessModeWire {
    AgentToken,
    AauthAccessToken,
    AuthToken,
}

/// Resource server metadata document.
#[derive(Debug, Clone)]
pub struct ResourceServerMetadata {
    pub issuer: Option<String>,
    pub jwks_uri: Option<String>,
    pub access_mode: Option<ResourceAccessModeWire>,
    pub name: Option<String>,
    pub description: Option<String>,
    pub logo_uri: Option<String>,
    pub logo_dark_uri: Option<String>,
    pub documentation_uri: Option<String>,
    pub tos_uri: Option<String>,
    pub policy_uri: Option<String>,
    pub authorization_endpoint: Option<String>,
    pub login_endpoint: Option<String>,
    pub scope_descriptions: Option<std::collections::HashMap<String, String>>,
    pub signature_window: Option<u64>,
    pub additional_signature_components: Option<Vec<String>>,
    pub revocation_endpoint: Option<String>,
    pub r3_vocabularies: Option<Vec<String>>,
}

/// Agent provider metadata document.
#[derive(Debug, Clone)]
pub struct AgentProviderMetadata {
    pub issuer: Option<String>,
    pub jwks_uri: String,
    pub name: Option<String>,
    pub description: Option<String>,
    pub logo_uri: Option<String>,
    pub logo_dark_uri: Option<String>,
    pub documentation_uri: Option<String>,
    pub callback_endpoint: Option<String>,
    pub event_endpoint: Option<String>,
    pub login_endpoint: Option<String>,
    pub localhost_callback_allowed: Option<bool>,
    pub tos_uri: Option<String>,
    pub policy_uri: Option<String>,
}

impl AgentProviderMetadata {
    /// Metadata naming only its JWKS location.
    pub fn from_jwks_uri(jwks_uri: &str) -> (m: AgentProviderMetadata)
        ensures
            m.jwks_uri@ == jwks_uri@,
            m.issuer is None,
            m.name is None,
            m.description is None,
            m.logo_uri is None,
            m.logo_dark_uri is None,
            m.documentation_uri is None,
            m.callback_endpoint is None,
            m.event_endpoint is None,
            m.login_endpoint is None,
            m.localhost_callback_allowed is None,
            m.tos_uri is None,
            m.policy_uri is None,
    {
        AgentProviderMetadata {
            issuer: None,
            jwks_uri: String::from_str(jwks_uri),
            name: None,
            description: None,
            logo_uri: None,
            logo_dark_uri: None,
            documentation_uri: None,
            callback_endpoint: None,
            event_endpoint: None,
            login_endpoint: None,
            localhost_callback_allowed: None,
            tos_uri: None,
            policy_uri: None,
        }
    }
}

/// POST `{revocation_endpoint}`.
#[derive(Debug, Clone, PartialEq, Eq)]
pub struct RevocationRequest {
    pub jti: String,
}

// ---------------------------------------------------------------------------------------------
// JWT payloads
// ---------------------------------------------------------------------------------------------

/// Delegation chain node in an auth token.
#[derive(Debug, PartialEq, Eq)]
pub struct ActClaim {
    pub agent: String,
    pub act: Option<Box<ActClaim>>,
}

impl ActClaim {
    /// A copy of the delegation chain.
    pub fn duplicate(&self) -> (r: ActClaim)
        ensures
            r == *self,
        decreases self,
    {
        ActClaim {
            agent: self.agent.clone(),
            act: match &self.act {
                Some(b) => Some(Box::new(b.duplicate())),
                None => None,
            },
        }
    }
}

impl Clone for ActClaim {
    fn clone(&self) -> (r: ActClaim)
        ensures
            r == *self,
    {
        self.duplicate()
    }
}

/// Resource-initiated interaction embedded in a resource token.
#[derive(Debug, Clone, PartialEq, Eq)]
pub struct ResourceInteractionClaim {
    pub url: String,
    pub code: String,
}

/// Resource token payload (`typ: aa-resource+jwt`).
#[derive(Debug, Clone, PartialEq, Eq)]
pub struct ResourceClaims {
    pub iss: String,
    pub dwk: String,
    pub aud: String,
    pub jti: String,
    pub agent: String,
    pub agent_jkt: String,
    pub iat: u64,
    pub exp: u64,
    pub scope: Option<String>,
    pub mission: Option<Mission>,
    pub interaction: Option<ResourceInteractionClaim>,
}

// ---------------------------------------------------------------------------------------------
// Signature-Key schemes
// ---------------------------------------------------------------------------------------------

/// `Signature-Key` value using `scheme=jwt`.
#[derive(Debug, Clone)]
pub struct SignatureKeyJwt {
    pub jwt: String,
}

/// `Signature-Key` value using `scheme=jkt-jwt`.
#[derive(Debug, Clone)]
pub struct SignatureKeyJktJwt {
    pub jwt: String,
}

/// `Signature-Key` value using `scheme=hwk`.
#[derive(Debug, Clone, Copy)]
pub struct SignatureKeyHwk;

/// Parsed `Signature-Key` header scheme.
#[derive(Debug, Clone)]
pub enum SignatureKey {
    Jwt(SignatureKeyJwt),
    JktJwt(SignatureKeyJktJwt),
    Hwk(SignatureKeyHwk),
}

/// Local signing key material bound to a `Signature-Key` presentation.
#[derive(Debug, Clone)]
pub struct KeyMaterial {
    pub signing_jwk: OkpSigningJwk,
    pub signature_key: SignatureKey,
}

} // verus!
