//! Shared protocol enums and value types: requirement levels, capabilities, pending status,
//! mission references and JWT `typ` values.
use vstd::prelude::*;

use crate::text::chars_of;

verus! {

/// Whether two string slices hold the same characters (`a == b`).
pub(crate) fn str_eq(a: &str, b: &str) -> (r: bool)
    ensures
        r == (a@ == b@),
{
    let va = chars_of(a);
    let vb = chars_of(b);
    if va.len() != vb.len() {
        return false;
    }
    let mut i: usize = 0;
    while i < va.len()
        invariant
            i <= va.len() == vb.len(),
            va@ == a@,
            vb@ == b@,
            forall|j: int| 0 <= j < i ==> va@[j] == vb@[j],
        decreases va.len() - i,
    {
        if va[i] != vb[i] {
            return false;
        }
        i = i + 1;
    }
    proof {
        assert(va@ =~= vb@);
    }
    true
}

/// Returned when a wire string names no known value.
#[derive(Debug, Clone, Copy, PartialEq, Eq, Structural)]
pub struct ParseStrError;

/// `AAuth-Requirement` `requirement` member values.
#[derive(Debug, Clone, Copy, PartialEq, Eq, Structural)]
pub enum RequirementLevel {
    /// `401`: agent token required for identity-only access.
    AgentToken,
    /// `401`: auth token required; carries a `resource-token` parameter.
    AuthToken,
    /// `202`: approval pending.
    Approval,
    /// `202`: user action required at an interaction endpoint.
    Interaction,
    /// `202`: question posed to the recipient.
    Clarification,
    /// `202`: identity claims required.
    Claims,
}

impl RequirementLevel {
    /// Wire spelling of the level.
    pub open spec fn wire(self) -> Seq<char> {
        match self {
            RequirementLevel::AgentToken => "agent-token"@,
            RequirementLevel::AuthToken => "auth-token"@,
            RequirementLevel::Approval => "approval"@,
            RequirementLevel::Interaction => "interaction"@,
            RequirementLevel::Clarification => "clarification"@,
            RequirementLevel::Claims => "claims"@,
        }
    }

    /// The level whose wire spelling is `s`, if any.
    pub open spec fn from_wire_spec(s: Seq<char>) -> Option<RequirementLevel> {
        if s == "agent-token"@ {
            Some(RequirementLevel::AgentToken)
        } else if s == "auth-token"@ {
            Some(RequirementLevel::AuthToken)
        } else if s == "approval"@ {
            Some(RequirementLevel::Approval)
        } else if s == "interaction"@ {
            Some(RequirementLevel::Interaction)
        } else if s == "clarification"@ {
            Some(RequirementLevel::Clarification)
        } else if s == "claims"@ {
            Some(RequirementLevel::Claims)
        } else {
            None
        }
    }

    pub fn as_str(self) -> (s: &'static str)
        ensures
            s@ == self.wire(),
    {
        match self {
            RequirementLevel::AgentToken => "agent-token",
            RequirementLevel::AuthToken => "auth-token",
            RequirementLevel::Approval => "approval",
            RequirementLevel::Interaction => "interaction",
            RequirementLevel::Clarification => "clarification",
            RequirementLevel::Claims => "claims",
        }
    }

    /// The wire spelling as an owned string.
    pub fn to_string(&self) -> (s: String)
        ensures
            s@ == self.wire(),
    {
        self.as_str().to_owned()
    }

    pub fn from_str(value: &str) -> (r: Result<RequirementLevel, ParseStrError>)
        ensures
            r matches Ok(l) ==> Self::from_wire_spec(value@) == Some(l),
            r is Err <==> Self::from_wire_spec(value@) is None,
    {
        if str_eq(value, "agent-token") {
            Ok(RequirementLevel::AgentToken)
        } else if str_eq(value, "auth-token") {
            Ok(RequirementLevel::AuthToken)
        } else if str_eq(value, "approval") {
            Ok(RequirementLevel::Approval)
        } else if str_eq(value, "interaction") {
            Ok(RequirementLevel::Interaction)
        } else if str_eq(value, "clarification") {
            Ok(RequirementLevel::Clarification)
        } else if str_eq(value, "claims") {
            Ok(RequirementLevel::Claims)
        } else {
            Err(ParseStrError)
        }
    }
}

impl core::str::FromStr for RequirementLevel {
    type Err = ParseStrError;

    fn from_str(value: &str) -> (r: Result<RequirementLevel, ParseStrError>)
        ensures
            r matches Ok(l) ==> RequirementLevel::from_wire_spec(value@) == Some(l),
            r is Err <==> RequirementLevel::from_wire_spec(value@) is None,
    {
        RequirementLevel::from_str(value)
    }
}

/// Parsing the wire spelling of a level gives the level back, and no two levels share a
/// spelling.
pub proof fn lemma_requirement_level_round_trip(l: RequirementLevel)
    ensures
        RequirementLevel::from_wire_spec(l.wire()) == Some(l),
{
    reveal_strlit("agent-token");
    reveal_strlit("auth-token");
    reveal_strlit("approval");
    reveal_strlit("interaction");
    reveal_strlit("clarification");
    reveal_strlit("claims");
    assert("agent-token"@.len() == 11);
    assert("auth-token"@.len() == 10);
    assert("approval"@.len() == 8);
    assert("interaction"@.len() == 11);
    assert("clarification"@.len() == 13);
    assert("claims"@.len() == 6);
    assert("agent-token"@[0] != "interaction"@[0]);
}

/// `AAuth-Capabilities` header and token-request capability values.
#[derive(Debug, Clone, Copy, PartialEq, Eq, Structural)]
pub enum Capability {
    /// The agent can bring a user to an interaction URL.
    Interaction,
    /// The agent can engage in clarification chat.
    Clarification,
    /// The agent can handle `402` payment flows.
    Payment,
}

impl Capability {
    /// Wire spelling of the capability.
    pub open spec fn wire(self) -> Seq<char> {
        match self {
            Capability::Interaction => "interaction"@,
            Capability::Clarification => "clarification"@,
            Capability::Payment => "payment"@,
        }
    }

    /// The capability whose wire spelling is `s`, if any.
    pub open spec fn from_wire_spec(s: Seq<char>) -> Option<Capability> {
        if s == "interaction"@ {
            Some(Capability::Interaction)
        } else if s == "clarification"@ {
            Some(Capability::Clarification)
        } else if s == "payment"@ {
            Some(Capability::Payment)
        } else {
            None
        }
    }

    pub fn as_str(self) -> (s: &'static str)
        ensures
            s@ == self.wire(),
    {
        match self {
            Capability::Interaction => "interaction",
            Capability::Clarification => "clarification",
            Capability::Payment => "payment",
        }
    }

    /// The wire spelling as an owned string.
    pub fn to_string(&self) -> (s: String)
        ensures
            s@ == self.wire(),
    {
        self.as_str().to_owned()
    }

    pub fn from_str(value: &str) -> (r: Result<Capability, ParseStrError>)
        ensures
            r matches Ok(c) ==> Self::from_wire_spec(value@) == Some(c),
            r is Err <==> Self::from_wire_spec(value@) is None,
    {
        if str_eq(value, "interaction") {
            Ok(Capability::Interaction)
        } else if str_eq(value, "clarification") {
            Ok(Capability::Clarification)
        } else if str_eq(value, "payment") {
            Ok(Capability::Payment)
        } else {
            Err(ParseStrError)
        }
    }
}

impl core::str::FromStr for Capability {
    type Err = ParseStrError;

    fn from_str(value: &str) -> (r: Result<Capability, ParseStrError>)
        ensures
            r matches Ok(l) ==> Capability::from_wire_spec(value@) == Some(l),
            r is Err <==> Capability::from_wire_spec(value@) is None,
    {
        Capability::from_str(value)
    }
}

/// Parsing the wire spelling of a capability gives the capability back.
pub proof fn lemma_capability_round_trip(c: Capability)
    ensures
        Capability::from_wire_spec(c.wire()) == Some(c),
{
    reveal_strlit("interaction");
    reveal_strlit("clarification");
    reveal_strlit("payment");
    assert("interaction"@.len() == 11);
    assert("clarification"@.len() == 13);
    assert("payment"@.len() == 7);
}

/// `202` pending response body `status` values.
#[derive(Debug, Clone, Copy, PartialEq, Eq, Structural)]
pub enum PendingStatus {
    /// The request is waiting for completion.
    Pending,
    /// The user has arrived at the interaction endpoint.
    Interacting,
}

/// Mission reference (`approver`, `s256`) carried in headers and JWT claims.
#[derive(Debug, Clone, PartialEq, Eq)]
pub struct Mission {
    /// URL of the entity that approved the mission.
    pub approver: String,
    /// Unpadded base64url SHA-256 digest of the approved mission JSON.
    pub s256: String,
}

/// AAuth JWT `typ` header values.
#[derive(Debug, Clone, Copy, PartialEq, Eq, Hash, Structural)]
pub enum JwtTyp {
    /// `aa-agent+jwt`: agent token.
    Agent,
    /// `aa-auth+jwt`: auth token.
    Auth,
    /// `aa-resource+jwt`: resource token.
    Resource,
}

impl JwtTyp {
    /// Wire spelling of the `typ` value.
    pub open spec fn wire(self) -> Seq<char> {
        match self {
            JwtTyp::Agent => "aa-agent+jwt"@,
            JwtTyp::Auth => "aa-auth+jwt"@,
            JwtTyp::Resource => "aa-resource+jwt"@,
        }
    }

    /// Error code reported when a token of this type fails verification.
    pub open spec fn error_code(self) -> Seq<char> {
        match self {
            JwtTyp::Agent => "invalid_agent_token"@,
            JwtTyp::Auth => "invalid_auth_token"@,
            JwtTyp::Resource => "invalid_resource_token"@,
        }
    }

    /// The `typ` whose wire spelling is `s`, if any.
    pub open spec fn from_wire_spec(s: Seq<char>) -> Option<JwtTyp> {
        if s == "aa-agent+jwt"@ {
            Some(JwtTyp::Agent)
        } else if s == "aa-auth+jwt"@ {
            Some(JwtTyp::Auth)
        } else if s == "aa-resource+jwt"@ {
            Some(JwtTyp::Resource)
        } else {
            None
        }
    }

    pub fn as_str(self) -> (s: &'static str)
        ensures
            s@ == self.wire(),
    {
        match self {
            JwtTyp::Agent => "aa-agent+jwt",
            JwtTyp::Auth => "aa-auth+jwt",
            JwtTyp::Resource => "aa-resource+jwt",
        }
    }

    pub fn verify_error_code(self) -> (s: &'static str)
        ensures
            s@ == self.error_code(),
    {
        match self {
            JwtTyp::Agent => "invalid_agent_token",
            JwtTyp::Auth => "invalid_auth_token",
            JwtTyp::Resource => "invalid_resource_token",
        }
    }

    /// The wire spelling as an owned string.
    pub fn to_string(&self) -> (s: String)
        ensures
            s@ == self.wire(),
    {
        self.as_str().to_owned()
    }

    pub fn from_str(value: &str) -> (r: Result<JwtTyp, ParseStrError>)
        ensures
            r matches Ok(t) ==> Self::from_wire_spec(value@) == Some(t),
            r is Err <==> Self::from_wire_spec(value@) is None,
    {
        if str_eq(value, "aa-agent+jwt") {
            Ok(JwtTyp::Agent)
        } else if str_eq(value, "aa-auth+jwt") {
            Ok(JwtTyp::Auth)
        } else if str_eq(value, "aa-resource+jwt") {
            Ok(JwtTyp::Resource)
        } else {
            Err(ParseStrError)
        }
    }
}

impl core::str::FromStr for JwtTyp {
    type Err = ParseStrError;

    fn from_str(value: &str) -> (r: Result<JwtTyp, ParseStrError>)
        ensures
            r matches Ok(l) ==> JwtTyp::from_wire_spec(value@) == Some(l),
            r is Err <==> JwtTyp::from_wire_spec(value@) is None,
    {
        JwtTyp::from_str(value)
    }
}

/// Parsing the wire spelling of a `typ` gives it back.
pub proof fn lemma_jwt_typ_round_trip(t: JwtTyp)
    ensures
        JwtTyp::from_wire_spec(t.wire()) == Some(t),
{
    reveal_strlit("aa-agent+jwt");
    reveal_strlit("aa-auth+jwt");
    reveal_strlit("aa-resource+jwt");
    assert("aa-agent+jwt"@.len() == 12);
    assert("aa-auth+jwt"@.len() == 11);
    assert("aa-resource+jwt"@.len() == 15);
}

} // verus!
