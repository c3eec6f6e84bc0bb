use aauth::access::{
    after_opaque, after_signature, after_token, auth_token_challenge, extract_aauth_access,
    request_authority, AccessStep, ResourceAccessPolicy,
};
use aauth::common::PendingStatus;
use aauth::deferred::{
    poll_outcome_from_snapshot, resource_poll_outcome_from_snapshot, AuthTokenFlowOutcome,
    AuthTokenPollOutcome, DeferCreated, DeferError, DeferRequirement, DeferWaiting,
    PaymentRequiredDefer, PendingOutcome, PendingRecord, PendingSnapshot, PersonTokenFlowOutcome,
    ResourceConsentFlowOutcome,
};
use aauth::error::{AAuthErrorCode, AAuthProtocolError};
use aauth::federation::{
    check_metadata_response, check_token_response, federation_metadata_url,
    federation_token_request, issues_locally, normalize_url,
};
use aauth::headers::AAuthChallenge;
use aauth::opaque::InMemoryOpaqueAccessStore;
use aauth::resource_token::{
    check_resource_claims, check_token, ResourceTokenOptions, TokenKind, VerifyError,
};
use aauth::respond::{polling_status, InternalServiceError, ResponseBody};
use aauth::server_token::resource_token_payload;
use aauth::signature::{SignatureError, VerifiedSignature};
use aauth::token_claims::{check_token_claims, TokenClaimValues};
use aauth::wire::{PendingBody, ResourceClaims, TokenResponseBody};
use aauth::common::JwtTyp;
use http::HeaderMap;

fn err(code: AAuthErrorCode) -> AAuthProtocolError {
    AAuthProtocolError::new(code)
}

#[test]
fn polling_status_codes() {
    assert_eq!(polling_status(&err(AAuthErrorCode::Denied)), 403);
    assert_eq!(polling_status(&err(AAuthErrorCode::AccessDenied)), 403);
    assert_eq!(polling_status(&err(AAuthErrorCode::Expired)), 408);
    assert_eq!(polling_status(&err(AAuthErrorCode::InteractionExpired)), 408);
    assert_eq!(polling_status(&err(AAuthErrorCode::InvalidCode)), 410);
    assert_eq!(polling_status(&err(AAuthErrorCode::SlowDown)), 429);
    assert_eq!(polling_status(&err(AAuthErrorCode::TemporarilyUnavailable)), 500);
    assert_eq!(polling_status(&err(AAuthErrorCode::InvalidScope)), 403);
    assert_eq!(polling_status(&err(AAuthErrorCode::Custom("slow_down".into()))), 429);
    assert_eq!(polling_status(&err(AAuthErrorCode::Custom("server_error".into()))), 500);
    assert_eq!(polling_status(&err(AAuthErrorCode::Custom("other".into()))), 403);
}

#[test]
fn polling_status_follows_spelling() {
    for code in ["denied", "expired", "invalid_code", "slow_down", "server_error", "invalid_scope"] {
        let parsed = polling_status(&err(AAuthErrorCode::from_wire(code)));
        let custom = polling_status(&err(AAuthErrorCode::Custom(code.into())));
        assert_eq!(parsed, custom);
    }
}

#[test]
fn header_challenges_of_requirements() {
    let interaction = DeferRequirement::Interaction { url: "https://u".into(), code: "C".into() };
    assert_eq!(
        interaction.header_challenge().unwrap(),
        AAuthChallenge::Interaction { url: "https://u".into(), code: "C".into() }
    );
    assert_eq!(DeferRequirement::Approval.header_challenge().unwrap(), AAuthChallenge::Approval);
    let payment = DeferRequirement::Payment { location: "/p".into() };
    assert_eq!(payment.header_challenge(), Err(DeferError::PaymentHasNoChallenge));
    assert_eq!(
        DeferError::PaymentHasNoChallenge.to_string(),
        "payment defer uses 402, not AAuth-Requirement"
    );
}

#[test]
fn pending_bodies_of_requirements() {
    let clar = DeferRequirement::Clarification { question: "Why?".into(), timeout: Some(30) };
    match PendingBody::for_waiting(&clar, PendingStatus::Interacting).unwrap() {
        PendingBody::Clarification(c) => {
            assert_eq!(c.status, PendingStatus::Interacting);
            assert_eq!(c.clarification, "Why?");
            assert_eq!(c.timeout, Some(30));
            assert!(c.options.is_none());
        }
        _ => panic!("expected clarification body"),
    }
    let claims = DeferRequirement::Claims { required_claims: vec!["email".into()] };
    match PendingBody::for_created(&claims).unwrap() {
        PendingBody::Claims(c) => {
            assert_eq!(c.status, PendingStatus::Pending);
            assert_eq!(c.required_claims, vec!["email".to_string()]);
        }
        _ => panic!("expected claims body"),
    }
    match PendingBody::for_created(&DeferRequirement::Approval).unwrap() {
        PendingBody::Status(s) => assert_eq!(s.status, PendingStatus::Pending),
        _ => panic!("expected status body"),
    }
    assert!(matches!(
        PendingBody::for_created(&DeferRequirement::Payment { location: "/p".into() }),
        Err(DeferError::PaymentHasNoPendingBody)
    ));
}

#[test]
fn snapshots_map_to_poll_outcomes() {
    let waiting = PendingSnapshot::waiting(DeferRequirement::Approval);
    match poll_outcome_from_snapshot(&waiting) {
        AuthTokenPollOutcome::Pending(w) => {
            assert_eq!(w.status, PendingStatus::Pending);
            assert_eq!(w.requirement, DeferRequirement::Approval);
        }
        _ => panic!("expected pending"),
    }
    let done = PendingSnapshot::complete(PendingOutcome::OpaqueAccess("tok".into()));
    assert_eq!(
        resource_poll_outcome_from_snapshot(&done),
        AuthTokenPollOutcome::Complete(PendingOutcome::OpaqueAccess("tok".into()))
    );
}

#[test]
fn pending_record_expiry() {
    let r = PendingRecord::new_at("id".into(), (), PendingSnapshot::waiting(DeferRequirement::Approval), 60, 1000);
    assert_eq!(r.created_at, 1000);
    assert_eq!(r.expires_at, 1060);
    assert!(!r.is_expired_at(1000));
    assert!(!r.is_expired_at(1060));
    assert!(r.is_expired_at(1061));
    let fresh = PendingRecord::new("id".into(), 5u8, PendingSnapshot::waiting(DeferRequirement::Approval), 600).unwrap();
    assert!(!fresh.is_expired());
    assert_eq!(fresh.expires_at, fresh.created_at + 600);
}

#[test]
fn defer_created_response() {
    let created = DeferCreated {
        location: "/pending/1".into(),
        requirement: DeferRequirement::Interaction { url: "https://i".into(), code: "AB".into() },
    };
    let plan = created.response_plan();
    assert_eq!(plan.status, 202);
    let names: Vec<&str> = plan.headers.iter().map(|(n, _)| n.as_str()).collect();
    assert_eq!(names, vec!["Location", "Retry-After", "Cache-Control", "AAuth-Requirement", "Content-Type"]);
    assert_eq!(plan.headers[3].1, "requirement=interaction; url=\"https://i\"; code=\"AB\"");
    assert!(matches!(plan.body, ResponseBody::Pending(PendingBody::Status(_))));

    let payment = DeferCreated { location: "/p".into(), requirement: DeferRequirement::Payment { location: "/p".into() } };
    let plan = payment.response_plan();
    assert_eq!(plan.status, 500);
    match plan.body {
        ResponseBody::Text(t) => assert_eq!(t, "payment defer uses 402, not pending JSON body"),
        _ => panic!("expected text"),
    }
}

#[test]
fn waiting_and_payment_responses() {
    let waiting = DeferWaiting { status: PendingStatus::Interacting, requirement: DeferRequirement::Approval };
    let plan = waiting.response_plan();
    assert_eq!(plan.status, 202);
    assert_eq!(plan.headers.len(), 4);
    assert_eq!(plan.headers[2].1, "requirement=approval");
    let pay = PaymentRequiredDefer { location: "/pay".into() }.response_plan();
    assert_eq!(pay.status, 402);
    assert_eq!(pay.headers[0], ("Location".to_string(), "/pay".to_string()));
    assert!(matches!(pay.body, ResponseBody::Payment(ref b) if b.status == "pending"));
}

#[test]
fn outcome_responses() {
    let granted = AuthTokenFlowOutcome::granted(TokenResponseBody { auth_token: "t".into(), expires_in: 60 });
    assert_eq!(granted.response_plan().status, 200);
    assert_eq!(AuthTokenFlowOutcome::denied(err(AAuthErrorCode::Denied)).response_plan().status, 403);
    assert_eq!(AuthTokenFlowOutcome::Gone.response_plan().status, 410);
    assert_eq!(PersonTokenFlowOutcome::Unauthorized.response_plan().status, 401);
    assert_eq!(PersonTokenFlowOutcome::BadGateway.response_plan().status, 502);
    assert_eq!(PersonTokenFlowOutcome::denied(err(AAuthErrorCode::Denied)).response_plan().status, 403);
    let grant = ResourceConsentFlowOutcome::GrantOpaque("op".into()).response_plan();
    assert_eq!(grant.status, 200);
    assert_eq!(grant.headers[0], ("AAuth-Access".to_string(), "op".to_string()));
    let slow = PendingOutcome::Error(err(AAuthErrorCode::SlowDown)).response_plan();
    assert_eq!(slow.status, 429);
    assert_eq!(AuthTokenPollOutcome::Gone.response_plan().status, 410);
    assert_eq!(InternalServiceError.response_plan().status, 500);
}

#[test]
fn opaque_store_issue_validate_revoke() {
    let mut store = InMemoryOpaqueAccessStore::new();
    let t1 = store.issue("https://agent.example");
    let t2 = store.issue("https://other.example");
    assert_ne!(t1, t2);
    assert_eq!(t1.len(), 86);
    assert!(store.validate(&t1, "https://agent.example"));
    assert!(!store.validate(&t1, "https://other.example"));
    assert!(store.validate(&t2, "https://other.example"));
    store.revoke(&t1);
    assert!(!store.validate(&t1, "https://agent.example"));
    assert!(store.validate(&t2, "https://other.example"));
    assert!(!store.validate("unknown", "https://agent.example"));
}

fn claims(exp: u64) -> ResourceClaims {
    ResourceClaims {
        iss: "https://resource.example".into(),
        dwk: "aauth-resource.json".into(),
        aud: "https://ps.example".into(),
        jti: "j".into(),
        agent: "https://agent.example".into(),
        agent_jkt: "jkt".into(),
        iat: 0,
        exp,
        scope: None,
        mission: None,
        interaction: None,
    }
}

#[test]
fn resource_token_options_claims() {
    let opts = ResourceTokenOptions {
        resource: "https://resource.example".into(),
        audience: "https://ps.example".into(),
        agent: "https://agent.example".into(),
        agent_jkt: "jkt".into(),
        scope: Some("read".into()),
        mission: None,
        lifetime: None,
        interaction: None,
    };
    let c = opts.clone().claims_at(1000, "jti-1".into());
    assert_eq!(c.dwk, "aauth-resource.json");
    assert_eq!(c.iat, 1000);
    assert_eq!(c.exp, 1300);
    assert_eq!(c.aud, "https://ps.example");
    let live = opts.claims().unwrap();
    assert_eq!(live.exp, live.iat + 300);
    assert_eq!(live.jti.len(), 36);
}

#[test]
fn resource_claims_checks() {
    let now = 10_000i64;
    assert_eq!(check_resource_claims(TokenKind::Resource, &claims(20_000), now, Some("https://agent.example"), Some("jkt")), Ok(()));
    assert_eq!(check_resource_claims(TokenKind::Agent, &claims(20_000), now, None, None), Err(VerifyError::WrongTyp));
    assert_eq!(check_resource_claims(TokenKind::Resource, &claims(9_000), now, None, None), Err(VerifyError::Expired(TokenKind::Resource)));
    assert_eq!(check_resource_claims(TokenKind::Resource, &claims(9_950), now, None, None), Ok(()));
    assert_eq!(check_resource_claims(TokenKind::Resource, &claims(u64::MAX), now, None, None), Err(VerifyError::Expired(TokenKind::Resource)));
    let mut bad_dwk = claims(20_000);
    bad_dwk.dwk = "x".into();
    assert_eq!(check_resource_claims(TokenKind::Resource, &bad_dwk, now, None, None), Err(VerifyError::InvalidDwk));
    assert_eq!(check_resource_claims(TokenKind::Resource, &claims(20_000), now, Some("https://x"), None), Err(VerifyError::AgentMismatch));
    assert_eq!(check_resource_claims(TokenKind::Resource, &claims(20_000), now, None, Some("other")), Err(VerifyError::AgentJktMismatch));
}

#[test]
fn token_binding_checks() {
    assert_eq!(check_token(TokenKind::Agent, 100, 100, Some("a"), "a"), Ok(TokenKind::Agent));
    assert_eq!(check_token(TokenKind::Resource, 100, 100, Some("a"), "a"), Err(VerifyError::UnsupportedTyp));
    assert_eq!(check_token(TokenKind::Auth, 10, 100, Some("a"), "a"), Err(VerifyError::Expired(TokenKind::Auth)));
    assert_eq!(check_token(TokenKind::Auth, 100, 100, None, "a"), Err(VerifyError::KeyBindingFailed));
    assert_eq!(check_token(TokenKind::Auth, 100, 100, Some("b"), "a"), Err(VerifyError::KeyBindingFailed));
}

fn agent_values() -> TokenClaimValues {
    TokenClaimValues {
        iss: Some("https://ap.example".into()),
        iat: Some(1),
        exp: Some(2_000),
        dwk: Some("aauth-agent.json".into()),
        has_cnf_jwk: true,
        sub: Some("aauth:a@ap.example".into()),
        has_aud: false,
        agent: None,
    }
}

#[test]
fn token_claim_checks() {
    assert!(check_token_claims(JwtTyp::Agent, &agent_values(), 1_000, "t", "t").is_ok());
    let e = check_token_claims(JwtTyp::Auth, &agent_values(), 1_000, "t", "t").unwrap_err();
    assert_eq!(e.code, "invalid_auth_token");
    assert_eq!(e.message, "Missing required claim: aud");
    let e = check_token_claims(JwtTyp::Resource, &agent_values(), 1_000, "t", "t").unwrap_err();
    assert_eq!(e.message, "Unsupported JWT typ for verification: aa-resource+jwt");
    assert_eq!(e.code, "invalid_resource_token");
    let mut no_iss = agent_values();
    no_iss.iss = None;
    assert_eq!(check_token_claims(JwtTyp::Agent, &no_iss, 1_000, "t", "t").unwrap_err().message, "Missing required claim: iss");
    let e = check_token_claims(JwtTyp::Agent, &agent_values(), 5_000, "t", "t").unwrap_err();
    assert_eq!(e.message, "Token has expired");
    let e = check_token_claims(JwtTyp::Agent, &agent_values(), 1_000, "t", "u").unwrap_err();
    assert_eq!(e.code, "key_binding_failed");
}

#[test]
fn agent_token_dwk_must_name_agent_metadata() {
    let mut other = agent_values();
    other.dwk = Some("aauth-access.json".into());
    let e = check_token_claims(JwtTyp::Agent, &other, 1_000, "t", "t").unwrap_err();
    assert_eq!(e.code, "invalid_agent_token");
    assert_eq!(e.message, "Invalid dwk: expected aauth-agent.json");
}

#[test]
fn access_layer_decisions() {
    let verified: Result<VerifiedSignature, SignatureError> =
        Ok(VerifiedSignature { jwt: "j".into(), thumbprint: "t".into() });
    assert_eq!(
        after_signature(&ResourceAccessPolicy::ResourceManaged, &verified, Some("op".into())),
        AccessStep::CheckOpaque("op".into())
    );
    assert_eq!(
        after_signature(&ResourceAccessPolicy::IdentityBased, &verified, Some("op".into())),
        AccessStep::VerifyToken
    );
    let failed: Result<VerifiedSignature, SignatureError> = Err(SignatureError::Expired);
    assert_eq!(
        after_signature(&ResourceAccessPolicy::IdentityBased, &failed, None),
        AccessStep::Unauthorized("signature expired".into())
    );
    assert_eq!(after_opaque(true, true), AccessStep::Forward);
    assert_eq!(after_opaque(true, false), AccessStep::Unauthorized("invalid opaque access token".into()));
    let ps = ResourceAccessPolicy::PsAsserted { require_auth_token: true, access_server_url: None, person_server_fallback: None };
    assert_eq!(after_token(&ps, Ok(TokenKind::Agent)), AccessStep::RequireAuthToken);
    assert_eq!(after_token(&ps, Ok(TokenKind::Auth)), AccessStep::Forward);
    assert_eq!(after_token(&ResourceAccessPolicy::ResourceManaged, Ok(TokenKind::Agent)), AccessStep::CreatePending);
    assert_eq!(after_token(&ResourceAccessPolicy::IdentityBased, Err("bad".into())), AccessStep::Unauthorized("bad".into()));
    let plan = auth_token_challenge(Ok("rt".into()));
    assert_eq!(plan.status, 401);
    assert_eq!(plan.headers[0].1, "requirement=auth-token; resource-token=\"rt\"");
}

#[test]
fn aauth_access_extraction() {
    let mut headers = HeaderMap::new();
    assert_eq!(extract_aauth_access(&headers), None);
    headers.insert("authorization", "AAuth abc".parse().unwrap());
    assert_eq!(extract_aauth_access(&headers), Some("abc".into()));
    headers.insert("authorization", "AAuth ".parse().unwrap());
    assert_eq!(extract_aauth_access(&headers), None);
    headers.insert("authorization", "Bearer abc".parse().unwrap());
    assert_eq!(extract_aauth_access(&headers), None);
}

#[test]
fn request_authority_sources() {
    assert_eq!(request_authority(Some("h.example"), Some("u.example"), Some(8443)), "h.example");
    assert_eq!(request_authority(None, Some("u.example"), Some(8443)), "u.example:8443");
    assert_eq!(request_authority(None, Some("u.example"), None), "u.example");
    assert_eq!(request_authority(None, None, None), "");
}

#[test]
fn federation_decisions() {
    assert_eq!(normalize_url("https://ps.example//"), "https://ps.example");
    assert!(issues_locally("https://ps.example/", "https://ps.example"));
    assert!(!issues_locally("https://ps.example", "https://as.example"));
    assert_eq!(
        federation_metadata_url("https://as.example/"),
        "https://as.example/.well-known/aauth-access.json"
    );
    let req = federation_token_request("rt");
    assert_eq!(req.resource_token, "rt");
    assert!(req.justification.is_none());
    assert!(check_metadata_response(200, "200 OK").is_ok());
    assert_eq!(
        check_metadata_response(404, "404 Not Found").unwrap_err(),
        "Failed to fetch access server metadata: 404 Not Found"
    );
    assert_eq!(
        check_token_response(502, "502 Bad Gateway").unwrap_err(),
        "Access server token exchange failed: 502 Bad Gateway"
    );
}

#[test]
fn server_resource_token_payload() {
    let opts = aauth::server_token::ResourceTokenOptions {
        resource: "https://resource.example".into(),
        auth_server: "https://as.example".into(),
        agent: "https://agent.example".into(),
        agent_jkt: "jkt".into(),
        scope: None,
        mission: Some(aauth::common::Mission { approver: "https://ps.example".into(), s256: "h".into() }),
        lifetime: Some(60),
    };
    let c = resource_token_payload(opts, 5, "id".into());
    assert_eq!(c.aud, "https://as.example");
    assert_eq!(c.dwk, "aauth-resource.json");
    assert_eq!((c.iat, c.exp), (5, 65));
    assert!(c.scope.is_none());
    assert_eq!(c.mission.unwrap().s256, "h");
    assert!(c.interaction.is_none());
}
