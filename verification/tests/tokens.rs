use aauth::access::auth_token_resource_options;
use aauth::opaque::InMemoryOpaqueAccessStore;
use aauth::resource_token::{resource_token_header, ResourceTokenError, ResourceTokenOptions};
use aauth::server_token::{resource_token_to_sign, ResourceTokenOptions as ServerTokenOptions};
use aauth::signature::{try_apply_outbound_signature, OkpSigningJwk};
use aauth::token68::is_token68;
use aauth::token_claims::{select_jwk, JwkEntry, JwkSelectError};
use base64::Engine as _;
use http::HeaderMap;

fn options(lifetime: Option<u64>) -> ResourceTokenOptions {
    auth_token_resource_options(
        "https://rs.example".into(),
        "https://as.example".into(),
        "aauth:agent@ap.example".into(),
        "jkt".into(),
    )
    .with_lifetime(lifetime)
}

trait WithLifetime {
    fn with_lifetime(self, lifetime: Option<u64>) -> Self;
}

impl WithLifetime for ResourceTokenOptions {
    fn with_lifetime(mut self, lifetime: Option<u64>) -> Self {
        self.lifetime = lifetime;
        self
    }
}

#[test]
fn resource_token_header_is_eddsa_resource_jwt() {
    let h = resource_token_header();
    assert_eq!(h.alg, "EdDSA");
    assert_eq!(h.typ, "aa-resource+jwt");
}

#[test]
fn challenge_token_options_name_agent_and_key() {
    let o = options(None);
    assert_eq!(o.resource, "https://rs.example");
    assert_eq!(o.audience, "https://as.example");
    assert_eq!(o.agent, "aauth:agent@ap.example");
    assert_eq!(o.agent_jkt, "jkt");
    assert!(o.scope.is_none() && o.mission.is_none() && o.interaction.is_none());
    let (h, c) = o.to_sign().unwrap();
    assert_eq!(h.typ, "aa-resource+jwt");
    assert_eq!(c.exp, c.iat + 300);
    assert_eq!(c.agent, "aauth:agent@ap.example");
}

#[test]
fn resource_token_refused_when_expiry_overflows() {
    assert_eq!(options(Some(u64::MAX)).to_sign().unwrap_err(), ResourceTokenError::LifetimeTooLong);
}

#[test]
fn server_resource_token_to_sign() {
    let (h, c) = resource_token_to_sign(ServerTokenOptions {
        resource: "https://rs.example".into(),
        auth_server: "https://as.example".into(),
        agent: "aauth:a@ap.example".into(),
        agent_jkt: "jkt".into(),
        scope: Some("read".into()),
        mission: None,
        lifetime: Some(60),
    })
    .unwrap();
    assert_eq!(h.alg, "EdDSA");
    assert_eq!(c.aud, "https://as.example");
    assert_eq!(c.dwk, "aauth-resource.json");
    assert_eq!(c.scope.as_deref(), Some("read"));
    assert_eq!(c.exp, c.iat + 60);
}

#[test]
fn jwks_key_selected_by_kid() {
    let keys = vec![
        JwkEntry { kid: Some("a".into()), x: Some("xa".into()) },
        JwkEntry { kid: None, x: Some("xn".into()) },
        JwkEntry { kid: Some("b".into()), x: None },
        JwkEntry { kid: Some("b".into()), x: Some("xb".into()) },
    ];
    assert_eq!(select_jwk(&keys, "a"), Ok("xa".to_string()));
    assert_eq!(select_jwk(&keys, "b"), Err(JwkSelectError::MissingX));
    assert_eq!(select_jwk(&keys, "c"), Err(JwkSelectError::UnknownKid));
}

#[test]
fn issued_opaque_token_is_token68() {
    let mut store = InMemoryOpaqueAccessStore::new();
    let t = store.issue("aauth:a@ap.example");
    assert_eq!(t.len(), 86);
    assert!(is_token68(&t));
    assert!(t.bytes().all(|b| b.is_ascii_alphanumeric() || b == b'-' || b == b'_'));
}

#[test]
fn outbound_signature_needs_room_in_the_map() {
    let jwk = OkpSigningJwk { d: base64::engine::general_purpose::URL_SAFE_NO_PAD.encode([7u8; 32]) };
    let mut headers = HeaderMap::new();
    assert_eq!(try_apply_outbound_signature(&mut headers, "GET", "a", "/", "j", &jwk, None), Some(Ok(())));
    assert!(headers.get("signature").is_some());
    let mut full = HeaderMap::new();
    for i in 0..6551 {
        full.append(http::header::HeaderName::from_bytes(format!("x-h{i}").as_bytes()).unwrap(), "v".parse().unwrap());
    }
    assert_eq!(try_apply_outbound_signature(&mut full, "GET", "a", "/", "j", &jwk, None), None);
    assert_eq!(full.len(), 6551);
}

#[test]
fn resource_token_jti_is_a_v4_uuid() {
    let (_, c) = options(None).to_sign().unwrap();
    let j: Vec<char> = c.jti.chars().collect();
    assert_eq!(j.len(), 36);
    for i in [8, 13, 18, 23] {
        assert_eq!(j[i], '-');
    }
    assert_eq!(j[14], '4');
    assert!(matches!(j[19], '8' | '9' | 'a' | 'b'));
    assert!(j.iter().enumerate().all(|(i, c)| [8, 13, 18, 23].contains(&i) || c.is_ascii_hexdigit() && !c.is_ascii_uppercase()));
}
