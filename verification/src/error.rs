//! Protocol error codes and error response bodies, and the library's own error types.
use vstd::prelude::*;

use crate::common::str_eq;

verus! {

/// Spec-defined AAuth protocol error codes, plus extension codes carried verbatim.
#[derive(Debug, Clone, PartialEq, Eq)]
pub enum AAuthErrorCode {
    InvalidRequest,
    InvalidAgentToken,
    ExpiredAgentToken,
    InvalidResourceToken,
    ExpiredResourceToken,
    UserUnreachable,
    ServerError,
    InvalidSignature,
    InvalidScope,
    Denied,
    Abandoned,
    Expired,
    InvalidCode,
    SlowDown,
    InvalidInput,
    InvalidKey,
    UnknownKey,
    InvalidJwt,
    ExpiredJwt,
    AccessDenied,
    UserAbandoned,
    InteractionExpired,
    TemporarilyUnavailable,
    InteractionUnavailable,
    MissionTerminated,
    /// Extension or future code not listed in the specification.
    Custom(String),
}

impl AAuthErrorCode {
    /// Wire spelling of the code.
    pub open spec fn wire(self) -> Seq<char> {
        match self {
            AAuthErrorCode::InvalidRequest => "invalid_request"@,
            AAuthErrorCode::InvalidAgentToken => "invalid_agent_token"@,
            AAuthErrorCode::ExpiredAgentToken => "expired_agent_token"@,
            AAuthErrorCode::InvalidResourceToken => "invalid_resource_token"@,
            AAuthErrorCode::ExpiredResourceToken => "expired_resource_token"@,
            AAuthErrorCode::UserUnreachable => "user_unreachable"@,
            AAuthErrorCode::ServerError => "server_error"@,
            AAuthErrorCode::InvalidSignature => "invalid_signature"@,
            AAuthErrorCode::InvalidScope => "invalid_scope"@,
            AAuthErrorCode::Denied => "denied"@,
            AAuthErrorCode::Abandoned => "abandoned"@,
            AAuthErrorCode::Expired => "expired"@,
            AAuthErrorCode::InvalidCode => "invalid_code"@,
            AAuthErrorCode::SlowDown => "slow_down"@,
            AAuthErrorCode::InvalidInput => "invalid_input"@,
            AAuthErrorCode::InvalidKey => "invalid_key"@,
            AAuthErrorCode::UnknownKey => "unknown_key"@,
            AAuthErrorCode::InvalidJwt => "invalid_jwt"@,
            AAuthErrorCode::ExpiredJwt => "expired_jwt"@,
            AAuthErrorCode::AccessDenied => "access_denied"@,
            AAuthErrorCode::UserAbandoned => "user_abandoned"@,
            AAuthErrorCode::InteractionExpired => "interaction_expired"@,
            AAuthErrorCode::TemporarilyUnavailable => "temporarily_unavailable"@,
            AAuthErrorCode::InteractionUnavailable => "interaction_unavailable"@,
            AAuthErrorCode::MissionTerminated => "mission_terminated"@,
            AAuthErrorCode::Custom(code) => code@,
        }
    }

    /// The listed (non-extension) code whose wire spelling is `s`, if any.
    pub open spec fn known(s: Seq<char>) -> Option<AAuthErrorCode> {
        if s == "invalid_request"@ {
            Some(AAuthErrorCode::InvalidRequest)
        } else if s == "invalid_agent_token"@ {
            Some(AAuthErrorCode::InvalidAgentToken)
        } else if s == "expired_agent_token"@ {
            Some(AAuthErrorCode::ExpiredAgentToken)
        } else if s == "invalid_resource_token"@ {
            Some(AAuthErrorCode::InvalidResourceToken)
        } else if s == "expired_resource_token"@ {
            Some(AAuthErrorCode::ExpiredResourceToken)
        } else if s == "user_unreachable"@ {
            Some(AAuthErrorCode::UserUnreachable)
        } else if s == "server_error"@ {
            Some(AAuthErrorCode::ServerError)
        } else if s == "invalid_signature"@ {
            Some(AAuthErrorCode::InvalidSignature)
        } else if s == "invalid_scope"@ {
            Some(AAuthErrorCode::InvalidScope)
        } else if s == "denied"@ {
            Some(AAuthErrorCode::Denied)
        } else if s == "abandoned"@ {
            Some(AAuthErrorCode::Abandoned)
        } else if s == "expired"@ {
            Some(AAuthErrorCode::Expired)
        } else if s == "invalid_code"@ {
            Some(AAuthErrorCode::InvalidCode)
        } else if s == "slow_down"@ {
            Some(AAuthErrorCode::SlowDown)
        } else if s == "invalid_input"@ {
            Some(AAuthErrorCode::InvalidInput)
        } else if s == "invalid_key"@ {
            Some(AAuthErrorCode::InvalidKey)
        } else if s == "unknown_key"@ {
            Some(AAuthErrorCode::UnknownKey)
        } else if s == "invalid_jwt"@ {
            Some(AAuthErrorCode::InvalidJwt)
        } else if s == "expired_jwt"@ {
            Some(AAuthErrorCode::ExpiredJwt)
        } else if s == "access_denied"@ {
            Some(AAuthErrorCode::AccessDenied)
        } else if s == "user_abandoned"@ {
            Some(AAuthErrorCode::UserAbandoned)
        } else if s == "interaction_expired"@ {
            Some(AAuthErrorCode::InteractionExpired)
        } else if s == "temporarily_unavailable"@ {
            Some(AAuthErrorCode::TemporarilyUnavailable)
        } else if s == "interaction_unavailable"@ {
            Some(AAuthErrorCode::InteractionUnavailable)
        } else if s == "mission_terminated"@ {
            Some(AAuthErrorCode::MissionTerminated)
        } else {
            None
        }
    }

    /// The code parsed from the wire spelling `s`: a listed code, or `Custom(s)`.
    pub open spec fn parsed_from(self, s: Seq<char>) -> bool {
        match Self::known(s) {
            Some(c) => self == c,
            None => self matches AAuthErrorCode::Custom(x) && x@ == s,
        }
    }

    pub fn as_str(&self) -> (s: &str)
        ensures
            s@ == self.wire(),
    {
        match self {
            AAuthErrorCode::InvalidRequest => "invalid_request",
            AAuthErrorCode::InvalidAgentToken => "invalid_agent_token",
            AAuthErrorCode::ExpiredAgentToken => "expired_agent_token",
            AAuthErrorCode::InvalidResourceToken => "invalid_resource_token",
            AAuthErrorCode::ExpiredResourceToken => "expired_resource_token",
            AAuthErrorCode::UserUnreachable => "user_unreachable",
            AAuthErrorCode::ServerError => "server_error",
            AAuthErrorCode::InvalidSignature => "invalid_signature",
            AAuthErrorCode::InvalidScope => "invalid_scope",
            AAuthErrorCode::Denied => "denied",
            AAuthErrorCode::Abandoned => "abandoned",
            AAuthErrorCode::Expired => "expired",
            AAuthErrorCode::InvalidCode => "invalid_code",
            AAuthErrorCode::SlowDown => "slow_down",
            AAuthErrorCode::InvalidInput => "invalid_input",
            AAuthErrorCode::InvalidKey => "invalid_key",
            AAuthErrorCode::UnknownKey => "unknown_key",
            AAuthErrorCode::InvalidJwt => "invalid_jwt",
            AAuthErrorCode::ExpiredJwt => "expired_jwt",
            AAuthErrorCode::AccessDenied => "access_denied",
            AAuthErrorCode::UserAbandoned => "user_abandoned",
            AAuthErrorCode::InteractionExpired => "interaction_expired",
            AAuthErrorCode::TemporarilyUnavailable => "temporarily_unavailable",
            AAuthErrorCode::InteractionUnavailable => "interaction_unavailable",
            AAuthErrorCode::MissionTerminated => "mission_terminated",
            AAuthErrorCode::Custom(code) => code.as_str(),
        }
    }

    pub fn from_wire(s: &str) -> (r: AAuthErrorCode)
        ensures
            r.parsed_from(s@),
    {
        if str_eq(s, "invalid_request") {
            AAuthErrorCode::InvalidRequest
        } else if str_eq(s, "invalid_agent_token") {
            AAuthErrorCode::InvalidAgentToken
        } else if str_eq(s, "expired_agent_token") {
            AAuthErrorCode::ExpiredAgentToken
        } else if str_eq(s, "invalid_resource_token") {
            AAuthErrorCode::InvalidResourceToken
        } else if str_eq(s, "expired_resource_token") {
            AAuthErrorCode::ExpiredResourceToken
        } else if str_eq(s, "user_unreachable") {
            AAuthErrorCode::UserUnreachable
        } else if str_eq(s, "server_error") {
            AAuthErrorCode::ServerError
        } else if str_eq(s, "invalid_signature") {
            AAuthErrorCode::InvalidSignature
        } else if str_eq(s, "invalid_scope") {
            AAuthErrorCode::InvalidScope
        } else if str_eq(s, "denied") {
            AAuthErrorCode::Denied
        } else if str_eq(s, "abandoned") {
            AAuthErrorCode::Abandoned
        } else if str_eq(s, "expired") {
            AAuthErrorCode::Expired
        } else if str_eq(s, "invalid_code") {
            AAuthErrorCode::InvalidCode
        } else if str_eq(s, "slow_down") {
            AAuthErrorCode::SlowDown
        } else if str_eq(s, "invalid_input") {
            AAuthErrorCode::InvalidInput
        } else if str_eq(s, "invalid_key") {
            AAuthErrorCode::InvalidKey
        } else if str_eq(s, "unknown_key") {
            AAuthErrorCode::UnknownKey
        } else if str_eq(s, "invalid_jwt") {
            AAuthErrorCode::InvalidJwt
        } else if str_eq(s, "expired_jwt") {
            AAuthErrorCode::ExpiredJwt
        } else if str_eq(s, "access_denied") {
            AAuthErrorCode::AccessDenied
        } else if str_eq(s, "user_abandoned") {
            AAuthErrorCode::UserAbandoned
        } else if str_eq(s, "interaction_expired") {
            AAuthErrorCode::InteractionExpired
        } else if str_eq(s, "temporarily_unavailable") {
            AAuthErrorCode::TemporarilyUnavailable
        } else if str_eq(s, "interaction_unavailable") {
            AAuthErrorCode::InteractionUnavailable
        } else if str_eq(s, "mission_terminated") {
            AAuthErrorCode::MissionTerminated
        } else {
            AAuthErrorCode::Custom(s.to_owned())
        }
    }

    /// The wire spelling as an owned string.
    pub fn to_string(&self) -> (s: String)
        ensures
            s@ == self.wire(),
    {
        self.as_str().to_owned()
    }
}

/// Leading characters and lengths of the listed code spellings: the facts that
/// tell the spellings apart when a wire string is matched against them.
pub proof fn lemma_known_spellings()
    ensures
        "expired_agent_token"@[0] == 'e',
        "invalid_agent_token"@[0] == 'i',
        "invalid_agent_token"@[2] == 'v',
        "interaction_expired"@[0] == 'i',
        "interaction_expired"@[2] == 't',
        "expired_resource_token"@[0] == 'e',
        "invalid_resource_token"@[0] == 'i',
        "abandoned"@[0] == 'a',
        "slow_down"@[0] == 's',
        "invalid_code"@[0] == 'i',
        "server_error"@[0] == 's',
        "invalid_input"@[0] == 'i',
        "invalid_input"@[8] == 'i',
        "invalid_scope"@[0] == 'i',
        "invalid_scope"@[8] == 's',
        "invalid_key"@[0] == 'i',
        "invalid_key"@[8] == 'k',
        "unknown_key"@[0] == 'u',
        "invalid_jwt"@[0] == 'i',
        "invalid_jwt"@[8] == 'j',
        "expired_jwt"@[0] == 'e',
        "access_denied"@[0] == 'a',
        "interaction_unavailable"@[0] == 'i',
        "temporarily_unavailable"@[0] == 't',
        "invalid_request"@.len() == 15,
        "invalid_agent_token"@.len() == 19,
        "expired_agent_token"@.len() == 19,
        "invalid_resource_token"@.len() == 22,
        "expired_resource_token"@.len() == 22,
        "user_unreachable"@.len() == 16,
        "server_error"@.len() == 12,
        "invalid_signature"@.len() == 17,
        "invalid_scope"@.len() == 13,
        "denied"@.len() == 6,
        "abandoned"@.len() == 9,
        "expired"@.len() == 7,
        "invalid_code"@.len() == 12,
        "slow_down"@.len() == 9,
        "invalid_input"@.len() == 13,
        "invalid_key"@.len() == 11,
        "unknown_key"@.len() == 11,
        "invalid_jwt"@.len() == 11,
        "expired_jwt"@.len() == 11,
        "access_denied"@.len() == 13,
        "user_abandoned"@.len() == 14,
        "interaction_expired"@.len() == 19,
        "temporarily_unavailable"@.len() == 23,
        "interaction_unavailable"@.len() == 23,
        "mission_terminated"@.len() == 18,
{
    reveal_strlit("invalid_request");
    reveal_strlit("invalid_agent_token");
    reveal_strlit("expired_agent_token");
    reveal_strlit("invalid_resource_token");
    reveal_strlit("expired_resource_token");
    reveal_strlit("user_unreachable");
    reveal_strlit("server_error");
    reveal_strlit("invalid_signature");
    reveal_strlit("invalid_scope");
    reveal_strlit("denied");
    reveal_strlit("abandoned");
    reveal_strlit("expired");
    reveal_strlit("invalid_code");
    reveal_strlit("slow_down");
    reveal_strlit("invalid_input");
    reveal_strlit("invalid_key");
    reveal_strlit("unknown_key");
    reveal_strlit("invalid_jwt");
    reveal_strlit("expired_jwt");
    reveal_strlit("access_denied");
    reveal_strlit("user_abandoned");
    reveal_strlit("interaction_expired");
    reveal_strlit("temporarily_unavailable");
    reveal_strlit("interaction_unavailable");
    reveal_strlit("mission_terminated");
}

/// Parsing the spelling of a code gives the code back, unless it is an extension code that
/// spells a listed one.
pub proof fn lemma_error_code_round_trip(c: AAuthErrorCode)
    requires
        c matches AAuthErrorCode::Custom(x) ==> AAuthErrorCode::known(x@) is None,
    ensures
        c.parsed_from(c.wire()),
{
    lemma_known_spellings();
}

/// The spelling of a parsed code is the input it was parsed from.
pub proof fn lemma_error_code_spelling(c: AAuthErrorCode, s: Seq<char>)
    requires
        c.parsed_from(s),
    ensures
        c.wire() == s,
{
}

/// Error response body of token, polling and authorization endpoints.
#[derive(Debug, Clone, PartialEq, Eq)]
pub struct AAuthProtocolError {
    pub error: AAuthErrorCode,
    pub error_description: Option<String>,
    pub error_uri: Option<String>,
}

impl AAuthProtocolError {
    pub fn new(code: AAuthErrorCode) -> (r: AAuthProtocolError)
        ensures
            r.error == code,
            r.error_description is None,
            r.error_uri is None,
    {
        AAuthProtocolError { error: code, error_description: None, error_uri: None }
    }

    pub fn with_description(code: AAuthErrorCode, description: &str) -> (r: AAuthProtocolError)
        ensures
            r.error == code,
            r.error_description matches Some(d) && d@ == description@,
            r.error_uri is None,
    {
        AAuthProtocolError {
            error: code,
            error_description: Some(description.to_owned()),
            error_uri: None,
        }
    }

    /// `server_error`: internal failure on token or pending endpoints.
    pub fn server_error() -> (r: AAuthProtocolError)
        ensures
            r.error == AAuthErrorCode::ServerError,
            r.error_description is None,
            r.error_uri is None,
    {
        Self::new(AAuthErrorCode::ServerError)
    }
}

impl AAuthErrorCode {
    /// A copy of the code.
    pub fn duplicate(&self) -> (r: AAuthErrorCode)
        ensures
            r == *self,
    {
        match self {
            AAuthErrorCode::InvalidRequest => AAuthErrorCode::InvalidRequest,
            AAuthErrorCode::InvalidAgentToken => AAuthErrorCode::InvalidAgentToken,
            AAuthErrorCode::ExpiredAgentToken => AAuthErrorCode::ExpiredAgentToken,
            AAuthErrorCode::InvalidResourceToken => AAuthErrorCode::InvalidResourceToken,
            AAuthErrorCode::ExpiredResourceToken => AAuthErrorCode::ExpiredResourceToken,
            AAuthErrorCode::UserUnreachable => AAuthErrorCode::UserUnreachable,
            AAuthErrorCode::ServerError => AAuthErrorCode::ServerError,
            AAuthErrorCode::InvalidSignature => AAuthErrorCode::InvalidSignature,
            AAuthErrorCode::InvalidScope => AAuthErrorCode::InvalidScope,
            AAuthErrorCode::Denied => AAuthErrorCode::Denied,
            AAuthErrorCode::Abandoned => AAuthErrorCode::Abandoned,
            AAuthErrorCode::Expired => AAuthErrorCode::Expired,
            AAuthErrorCode::InvalidCode => AAuthErrorCode::InvalidCode,
            AAuthErrorCode::SlowDown => AAuthErrorCode::SlowDown,
            AAuthErrorCode::InvalidInput => AAuthErrorCode::InvalidInput,
            AAuthErrorCode::InvalidKey => AAuthErrorCode::InvalidKey,
            AAuthErrorCode::UnknownKey => AAuthErrorCode::UnknownKey,
            AAuthErrorCode::InvalidJwt => AAuthErrorCode::InvalidJwt,
            AAuthErrorCode::ExpiredJwt => AAuthErrorCode::ExpiredJwt,
            AAuthErrorCode::AccessDenied => AAuthErrorCode::AccessDenied,
            AAuthErrorCode::UserAbandoned => AAuthErrorCode::UserAbandoned,
            AAuthErrorCode::InteractionExpired => AAuthErrorCode::InteractionExpired,
            AAuthErrorCode::TemporarilyUnavailable => AAuthErrorCode::TemporarilyUnavailable,
            AAuthErrorCode::InteractionUnavailable => AAuthErrorCode::InteractionUnavailable,
            AAuthErrorCode::MissionTerminated => AAuthErrorCode::MissionTerminated,
            AAuthErrorCode::Custom(s) => AAuthErrorCode::Custom(s.clone()),
        }
    }
}

impl AAuthProtocolError {
    /// A copy of the error body.
    pub fn duplicate(&self) -> (r: AAuthProtocolError)
        ensures
            r == *self,
    {
        AAuthProtocolError {
            error: self.error.duplicate(),
            error_description: match &self.error_description {
                Some(d) => Some(d.clone()),
                None => None,
            },
            error_uri: match &self.error_uri {
                Some(u) => Some(u.clone()),
                None => None,
            },
        }
    }
}

/// Why an AAuth header value could not be parsed.
#[derive(Debug, Clone, PartialEq, Eq)]
pub enum HeaderError {
    /// The `AAuth-Requirement` value is empty.
    EmptyRequirement,
    /// The value does not begin with `requirement=`.
    MissingRequirementMember,
    /// The `requirement` member names no known level.
    UnknownRequirement(String),
    /// `requirement=auth-token` without a quoted `resource-token` parameter.
    MissingResourceToken,
    /// `requirement=interaction` without a quoted `url` parameter.
    MissingInteractionUrl,
    /// `requirement=interaction` without a quoted `code` parameter.
    MissingInteractionCode,
    /// `AAuth-Mission` without a quoted `approver` parameter.
    MissingApprover,
    /// `AAuth-Mission` without a quoted `s256` parameter.
    MissingS256,
    /// The credential is malformed; the string says how.
    Invalid(String),
}

} // verus!
