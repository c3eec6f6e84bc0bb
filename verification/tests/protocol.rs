use aauth::common::{Capability, JwtTyp, Mission, RequirementLevel};
use aauth::error::{AAuthErrorCode, AAuthProtocolError};
use aauth::headers::AAuthChallenge;
use aauth::identifiers::{is_valid_agent_identifier, is_valid_server_identifier};
use aauth::token68::{is_token68, parse_aauth_access_header, parse_aauth_credential};
use aauth::wire::{
    default_pending_status, AccessServerMetadata, AgentProviderMetadata, PaymentRequiredBody,
    PersonServerMetadata,
};

#[test]
fn requirement_round_trip() {
    let challenge = AAuthChallenge::Interaction {
        url: "https://ps.example/interact".into(),
        code: "ABCD-EFGH".into(),
    };
    let header = challenge.to_header();
    assert_eq!(AAuthChallenge::from_header(&header).unwrap(), challenge);
}

#[test]
fn auth_token_challenge_round_trip() {
    let challenge = AAuthChallenge::AuthToken { resource_token: "eyJ.abc.def".into() };
    let header = challenge.to_header();
    assert_eq!(header, "requirement=auth-token; resource-token=\"eyJ.abc.def\"");
    assert_eq!(AAuthChallenge::from_header(&header).unwrap(), challenge);
    assert_eq!(challenge.level(), RequirementLevel::AuthToken);
}

#[test]
fn mission_header_round_trip() {
    let mission = Mission { approver: "https://ps.example".into(), s256: "abc123".into() };
    let header = mission.to_header();
    assert_eq!(header, "approver=\"https://ps.example\"; s256=\"abc123\"");
    assert_eq!(Mission::from_header(&header).unwrap(), mission);
}

#[test]
fn capabilities_header_round_trip() {
    let caps = vec![Capability::Interaction, Capability::Payment];
    let header = Capability::join_header(&caps);
    assert_eq!(header, "interaction, payment");
    assert_eq!(Capability::parse_header(&header), caps);
}

#[test]
fn server_identifier_examples() {
    assert!(is_valid_server_identifier("https://agent.example"));
    assert!(is_valid_server_identifier("https://xn--nxasmq6b.example"));
    assert!(!is_valid_server_identifier("http://agent.example"));
    assert!(!is_valid_server_identifier("https://Agent.Example"));
    assert!(!is_valid_server_identifier("https://agent.example:8443"));
    assert!(!is_valid_server_identifier("https://agent.example/v1"));
    assert!(!is_valid_server_identifier("https://agent.example/"));
    assert!(is_valid_server_identifier("http://127.0.0.1:18765"));
    assert!(is_valid_server_identifier("http://localhost"));
    assert!(!is_valid_server_identifier("http://example.com"));
}

#[test]
fn server_identifier_rejects_default_port_written_out() {
    assert!(!is_valid_server_identifier("https://agent.example:443"));
    assert!(!is_valid_server_identifier("https://agent.example:"));
    assert!(is_valid_server_identifier("http://localhost:443"));
}

#[test]
fn server_identifier_rejects_credentials_query_and_fragment() {
    assert!(!is_valid_server_identifier("https://user@agent.example"));
    assert!(!is_valid_server_identifier("https://agent.example?x=1"));
    assert!(!is_valid_server_identifier("https://agent.example#top"));
    assert!(!is_valid_server_identifier(""));
    assert!(!is_valid_server_identifier("not a url"));
}

#[test]
fn agent_identifier_examples() {
    assert!(is_valid_agent_identifier("aauth:assistant-v2@agent.example"));
    assert!(is_valid_agent_identifier("aauth:planner.7f3c@vendor.example"));
    assert!(is_valid_agent_identifier("aauth:planner.7f3c+search1@vendor.example"));
    assert!(!is_valid_agent_identifier("My Agent@agent.example"));
    assert!(!is_valid_agent_identifier("@agent.example"));
    assert!(!is_valid_agent_identifier("agent@http://agent.example"));
    assert!(!is_valid_agent_identifier("aauth:@agent.example"));
}

#[test]
fn agent_identifier_domain_rules() {
    assert!(!is_valid_agent_identifier("aauth:a@-bad.example"));
    assert!(!is_valid_agent_identifier("aauth:a@bad-.example"));
    assert!(!is_valid_agent_identifier("aauth:a@agent..example"));
    assert!(!is_valid_agent_identifier("aauth:a@Agent.example"));
    assert!(!is_valid_agent_identifier("aauth:A@agent.example"));
    let long_local = format!("aauth:{}@agent.example", "a".repeat(256));
    assert!(!is_valid_agent_identifier(&long_local));
    let ok_local = format!("aauth:{}@agent.example", "a".repeat(255));
    assert!(is_valid_agent_identifier(&ok_local));
}

#[test]
fn jwt_parse_and_display() {
    assert_eq!(JwtTyp::from_str("aa-agent+jwt"), Ok(JwtTyp::Agent));
    assert_eq!(JwtTyp::Auth.as_str(), "aa-auth+jwt");
    assert_eq!(JwtTyp::Resource.to_string(), "aa-resource+jwt");
}

#[test]
fn types_parse_and_display() {
    assert_eq!(JwtTyp::from_str("aa-agent+jwt"), Ok(JwtTyp::Agent));
    assert_eq!(JwtTyp::Auth.as_str(), "aa-auth+jwt");
    assert_eq!(JwtTyp::Resource.to_string(), "aa-resource+jwt");
}

#[test]
fn jwt_typ_error_codes() {
    assert_eq!(JwtTyp::Agent.verify_error_code(), "invalid_agent_token");
    assert_eq!(JwtTyp::Auth.verify_error_code(), "invalid_auth_token");
    assert_eq!(JwtTyp::Resource.verify_error_code(), "invalid_resource_token");
    assert!(JwtTyp::from_str("jwt").is_err());
}

#[test]
fn token68_grammar() {
    assert!(is_token68("abcXYZ012-_+/="));
    assert!(is_token68("dGVzdA=="));
    assert!(!is_token68(""));
    assert!(!is_token68("a b"));
    assert!(!is_token68("=abc"));
    assert!(!is_token68("ab?c"));
}

#[test]
fn parse_credential() {
    assert_eq!(parse_aauth_credential("AAuth dGVzdA").unwrap(), "dGVzdA");
    assert!(parse_aauth_credential("AAuth ").is_err());
    assert!(parse_aauth_credential("AAuth a b").is_err());
    assert!(parse_aauth_credential("Bearer dGVzdA").is_err());
}

#[test]
fn parse_access_header() {
    assert_eq!(parse_aauth_access_header("dGVzdA").unwrap(), "dGVzdA");
    assert!(parse_aauth_access_header("").is_err());
    assert!(parse_aauth_access_header("a b").is_err());
}

#[test]
fn error_code_round_trip() {
    assert_eq!(AAuthErrorCode::from_wire("slow_down"), AAuthErrorCode::SlowDown);
    assert_eq!(AAuthErrorCode::SlowDown.as_str(), "slow_down");
    assert_eq!(
        AAuthErrorCode::from_wire("vendor_specific"),
        AAuthErrorCode::Custom("vendor_specific".into())
    );
    let e = AAuthProtocolError::with_description(AAuthErrorCode::Denied, "no");
    assert_eq!(e.error, AAuthErrorCode::Denied);
    assert_eq!(e.error_description.as_deref(), Some("no"));
    assert_eq!(AAuthProtocolError::server_error().error, AAuthErrorCode::ServerError);
}

#[test]
fn requirement_levels_parse() {
    assert_eq!(RequirementLevel::from_str("interaction"), Ok(RequirementLevel::Interaction));
    assert_eq!(RequirementLevel::Claims.as_str(), "claims");
    assert!(RequirementLevel::from_str("nope").is_err());
}

#[test]
fn metadata_validation() {
    let mut person = PersonServerMetadata {
        issuer: None,
        token_endpoint: String::new(),
        jwks_uri: None,
        name: None,
        description: None,
        logo_uri: None,
        logo_dark_uri: None,
        documentation_uri: None,
        tos_uri: None,
        policy_uri: None,
        mission_endpoint: None,
        permission_endpoint: None,
        audit_endpoint: None,
        interaction_endpoint: None,
        mission_control_endpoint: None,
        revocation_endpoint: None,
        scopes_supported: None,
        claims_supported: None,
    };
    assert_eq!(
        person.validate().unwrap_err(),
        "Person server metadata missing token_endpoint"
    );
    person.token_endpoint = "https://person.example/token".into();
    assert!(person.validate().is_ok());

    let access = AccessServerMetadata {
        issuer: Some("https://as.example".into()),
        token_endpoint: String::new(),
        jwks_uri: None,
        name: None,
        description: None,
        logo_uri: None,
        logo_dark_uri: None,
        documentation_uri: None,
        tos_uri: None,
        policy_uri: None,
        revocation_endpoint: None,
    };
    assert_eq!(
        access.validate().unwrap_err(),
        "Access server metadata missing token_endpoint"
    );
}

#[test]
fn agent_provider_metadata_from_jwks_uri() {
    let m = AgentProviderMetadata::from_jwks_uri("https://agent.example/jwks");
    assert_eq!(m.jwks_uri, "https://agent.example/jwks");
    assert!(m.issuer.is_none());
    assert!(m.localhost_callback_allowed.is_none());
}

#[test]
fn payment_and_pending_defaults() {
    assert_eq!(PaymentRequiredBody::pending().status, "pending");
    assert_eq!(default_pending_status(), aauth::common::PendingStatus::Pending);
}
