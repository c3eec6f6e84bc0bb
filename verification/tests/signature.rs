use base64::Engine as _;
use aauth::signature::{
    apply_outbound_signature_at, build_signature_base, build_signature_base_with_extras,
    parse_covered_components, parse_signature_created, parse_signature_key_jwt,
    parse_signature_value, signing_key_from_jwk, u64_to_decimal, verify_request_signature_at,
    verify_request_signature_with_options, ConfirmationKey, CoveredComponent, OkpSigningJwk,
    SignatureError, SignatureVerifyOptions,
};
use ed25519_dalek::{Signer, SigningKey};
use http::HeaderMap;

fn test_secret() -> [u8; 32] {
    [7u8; 32]
}

fn b64(bytes: &[u8]) -> String {
    base64::engine::general_purpose::URL_SAFE_NO_PAD.encode(bytes)
}

fn confirmation_for(secret: &[u8; 32]) -> ConfirmationKey {
    let sk = SigningKey::from_bytes(secret);
    ConfirmationKey {
        x: b64(sk.verifying_key().as_bytes()),
        thumbprint: "thumb-1".into(),
    }
}

#[test]
fn signature_base_includes_components() {
    let base = build_signature_base(
        "GET",
        "resource.example",
        "/api/data",
        "sig=jwt;jwt=\"abc\"",
        1,
    );
    assert!(base.contains("@method"));
    assert!(base.contains("@authority"));
    assert!(base.contains("@path"));
    assert!(base.contains("signature-key"));
}

#[test]
fn signature_base_exact_text() {
    let base = build_signature_base("GET", "resource.example", "/api/data", "sig=jwt;jwt=\"abc\"", 1700000000);
    assert_eq!(
        base,
        "\"@method\": get\n\"@authority\": resource.example\n\"@path\": /api/data\n\"signature-key\": sig=jwt;jwt=\"abc\"\n\"@signature-params\": (\"@method\" \"@authority\" \"@path\" \"signature-key\");created=1700000000"
    );
}

#[test]
fn signature_base_with_authorization_extra() {
    let (base, params) = build_signature_base_with_extras(
        "POST",
        "r.example",
        "/x",
        "k",
        42,
        &[("authorization", "AAuth tok")],
    );
    assert_eq!(
        params,
        "(\"@method\" \"@authority\" \"@path\" \"signature-key\" \"authorization\");created=42"
    );
    assert!(base.contains("\n\"authorization\": AAuth tok\n"));
    assert!(base.starts_with("\"@method\": post\n"));
}

#[test]
fn decimal_formatting() {
    assert_eq!(u64_to_decimal(0), "0");
    assert_eq!(u64_to_decimal(9), "9");
    assert_eq!(u64_to_decimal(10), "10");
    assert_eq!(u64_to_decimal(u64::MAX), "18446744073709551615");
}

#[test]
fn created_parameter() {
    assert_eq!(parse_signature_created("sig=(\"@method\");created=1618884473"), Ok(1618884473));
    assert_eq!(parse_signature_created("sig=();created= 17 ;keyid=\"a\""), Ok(17));
    assert_eq!(parse_signature_created("sig=();created=+5"), Ok(5));
    assert_eq!(parse_signature_created("sig=()"), Err(SignatureError::MissingCreated));
    assert_eq!(parse_signature_created("sig=();created=abc"), Err(SignatureError::InvalidCreated));
    assert_eq!(parse_signature_created("sig=();created="), Err(SignatureError::InvalidCreated));
    assert_eq!(
        parse_signature_created("sig=();created=18446744073709551616"),
        Err(SignatureError::InvalidCreated)
    );
    assert_eq!(
        parse_signature_created("sig=();created=18446744073709551615"),
        Ok(u64::MAX)
    );
}

#[test]
fn covered_components_list() {
    let c = parse_covered_components("sig=(\"@method\" \"@authority\"  \"@path\" \"signature-key\");created=1").unwrap();
    assert_eq!(c, vec!["@method", "@authority", "@path", "signature-key"]);
    let empty = parse_covered_components("sig=(\"\" );created=1").unwrap();
    assert!(empty.is_empty());
    assert_eq!(
        parse_covered_components("sig=;created=1"),
        Err(SignatureError::MissingCoveredComponents)
    );
    assert_eq!(
        parse_covered_components("sig=(\"@method\";created=1"),
        Err(SignatureError::MissingCoveredComponents)
    );
}

#[test]
fn signature_value_decoding() {
    assert_eq!(parse_signature_value("sig=:AQID:").unwrap(), vec![1u8, 2, 3]);
    assert_eq!(parse_signature_value("sig=AQID:"), Err(SignatureError::InvalidSignatureFormat));
    assert_eq!(parse_signature_value("sig=:AQID"), Err(SignatureError::InvalidSignatureFormat));
    assert_eq!(parse_signature_value("sig=:"), Err(SignatureError::InvalidSignatureFormat));
    assert_eq!(parse_signature_value("sig=:A*ID:"), Err(SignatureError::InvalidEncoding));
}

#[test]
fn parse_signature_key_jwt_from_header() {
    let mut headers = HeaderMap::new();
    headers.insert(
        "signature-key",
        "sig=jwt;jwt=\"eyJhbGciOiJIUzI1NiJ9.test\"".parse().unwrap(),
    );
    let jwt = parse_signature_key_jwt(&headers).unwrap();
    assert_eq!(jwt, "eyJhbGciOiJIUzI1NiJ9.test");
}

#[test]
fn signature_key_errors() {
    let headers = HeaderMap::new();
    assert_eq!(parse_signature_key_jwt(&headers), Err(SignatureError::MissingSignatureKey));
    let mut headers = HeaderMap::new();
    headers.insert("signature-key", "sig=hwk".parse().unwrap());
    assert_eq!(parse_signature_key_jwt(&headers), Err(SignatureError::MissingJwtParam));
    let mut headers = HeaderMap::new();
    headers.insert("signature-key", "sig=jwt;jwt=\"abc".parse().unwrap());
    assert_eq!(parse_signature_key_jwt(&headers), Err(SignatureError::JwtNotQuoted));
}

fn signed_headers(secret: &[u8; 32], created: u64) -> HeaderMap {
    let signature_key = "sig=jwt;jwt=\"agent.jwt.value\"".to_string();
    let base = build_signature_base("GET", "127.0.0.1", "/api/data", &signature_key, created);
    let sk = SigningKey::from_bytes(secret);
    let sig = b64(&sk.sign(base.as_bytes()).to_bytes());
    let mut headers = HeaderMap::new();
    headers.insert("signature-key", signature_key.parse().unwrap());
    headers.insert(
        "signature-input",
        format!("sig=(\"@method\" \"@authority\" \"@path\" \"signature-key\");created={created}")
            .parse()
            .unwrap(),
    );
    headers.insert("signature", format!("sig=:{sig}:").parse().unwrap());
    headers
}

#[test]
fn stale_signature_rejected() {
    let secret = test_secret();
    let headers = signed_headers(&secret, 1);
    let err = verify_request_signature_with_options(
        "GET",
        "127.0.0.1",
        "/api/data",
        &headers,
        &SignatureVerifyOptions::default(),
        &Some(confirmation_for(&secret)),
    )
    .unwrap_err();
    assert!(matches!(err, SignatureError::Expired));
    assert!(err.to_string().contains("signature expired"));
}

#[test]
fn fresh_signature_verifies() {
    let secret = test_secret();
    let now = 1_700_000_000u64;
    let headers = signed_headers(&secret, now - 5);
    let verified = verify_request_signature_at(
        "GET",
        "127.0.0.1",
        "/api/data",
        &headers,
        &SignatureVerifyOptions::default(),
        now,
        &Some(confirmation_for(&secret)),
    )
    .unwrap();
    assert_eq!(verified.jwt, "agent.jwt.value");
    assert_eq!(verified.thumbprint, "thumb-1");
}

#[test]
fn signature_checks_fail_in_order() {
    let secret = test_secret();
    let now = 1_700_000_000u64;
    let headers = signed_headers(&secret, now);
    let opts = SignatureVerifyOptions::default();
    let conf = Some(confirmation_for(&secret));
    assert_eq!(
        verify_request_signature_at("GET", "127.0.0.1", "/other", &headers, &opts, now, &conf).unwrap_err(),
        SignatureError::VerificationFailed
    );
    assert_eq!(
        verify_request_signature_at("GET", "127.0.0.1", "/api/data", &headers, &opts, now + 200, &conf).unwrap_err(),
        SignatureError::Expired
    );
    assert_eq!(
        verify_request_signature_at("GET", "127.0.0.1", "/api/data", &headers, &opts, now - 100, &conf).unwrap_err(),
        SignatureError::CreatedInFuture
    );
    assert_eq!(
        verify_request_signature_at("GET", "127.0.0.1", "/api/data", &headers, &opts, now, &None).unwrap_err(),
        SignatureError::Jwt
    );
    let other = Some(confirmation_for(&[9u8; 32]));
    assert_eq!(
        verify_request_signature_at("GET", "127.0.0.1", "/api/data", &headers, &opts, now, &other).unwrap_err(),
        SignatureError::VerificationFailed
    );
    let strict = SignatureVerifyOptions { require_authorization: true, ..SignatureVerifyOptions::default() };
    assert_eq!(
        verify_request_signature_at("GET", "127.0.0.1", "/api/data", &headers, &strict, now, &conf).unwrap_err(),
        SignatureError::MissingAuthorizationComponent
    );
    let mut partial = headers.clone();
    partial.insert("signature-input", "sig=(\"@method\");created=1".parse().unwrap());
    assert_eq!(
        verify_request_signature_at("GET", "127.0.0.1", "/api/data", &partial, &opts, now, &conf).unwrap_err(),
        SignatureError::MissingComponent(CoveredComponent::Authority)
    );
    let empty = HeaderMap::new();
    assert_eq!(
        verify_request_signature_at("GET", "127.0.0.1", "/api/data", &empty, &opts, now, &conf).unwrap_err(),
        SignatureError::MissingSignatureKey
    );
    let bad_key = Some(ConfirmationKey { x: "AAAA".into(), thumbprint: "t".into() });
    assert_eq!(
        verify_request_signature_at("GET", "127.0.0.1", "/api/data", &headers, &opts, now, &bad_key).unwrap_err(),
        SignatureError::InvalidKeyLength
    );
}

#[test]
fn outbound_signature_verifies() {
    let secret = test_secret();
    let jwk = OkpSigningJwk { d: b64(&secret) };
    let mut headers = HeaderMap::new();
    let created = 1_700_000_000u64;
    apply_outbound_signature_at(
        &mut headers,
        "POST",
        "as.example",
        "/token",
        "ps.jwt",
        &jwk,
        Some("AAuth opaque"),
        created,
    )
    .unwrap();
    assert_eq!(headers.get("signature-key").unwrap(), "sig=jwt;jwt=\"ps.jwt\"");
    assert_eq!(
        headers.get("signature-input").unwrap(),
        "sig=(\"@method\" \"@authority\" \"@path\" \"signature-key\" \"authorization\");created=1700000000"
    );
    headers.insert("authorization", "AAuth opaque".parse().unwrap());
    let verified = verify_request_signature_at(
        "POST",
        "as.example",
        "/token",
        &headers,
        &SignatureVerifyOptions::default(),
        created,
        &Some(confirmation_for(&secret)),
    )
    .unwrap();
    assert_eq!(verified.jwt, "ps.jwt");
}

#[test]
fn outbound_signature_key_errors() {
    let mut headers = HeaderMap::new();
    let bad = OkpSigningJwk { d: "*".into() };
    assert_eq!(
        apply_outbound_signature_at(&mut headers, "GET", "a", "/", "j", &bad, None, 1),
        Err(SignatureError::InvalidEncoding)
    );
    let short = OkpSigningJwk { d: b64(&[1u8; 16]) };
    assert_eq!(
        apply_outbound_signature_at(&mut headers, "GET", "a", "/", "j", &short, None, 1),
        Err(SignatureError::InvalidKeyLength)
    );
    assert!(headers.is_empty());
    let good = OkpSigningJwk { d: b64(&test_secret()) };
    assert_eq!(
        apply_outbound_signature_at(&mut headers, "GET", "a", "/", "bad\njwt", &good, None, 1),
        Err(SignatureError::InvalidHeaderValue)
    );
    assert!(signing_key_from_jwk(&good).is_ok());
}

#[test]
fn public_x_of_signing_jwk() {
    let secret = test_secret();
    let jwk = OkpSigningJwk { d: b64(&secret) };
    let sk = SigningKey::from_bytes(&secret);
    assert_eq!(jwk.public_x().unwrap(), b64(sk.verifying_key().as_bytes()));
    assert_eq!(OkpSigningJwk { d: "*".into() }.public_x(), Err(SignatureError::InvalidEncoding));
}

#[test]
fn signed_request_verifies_under_public_x() {
    let jwk = OkpSigningJwk { d: b64(&[42u8; 32]) };
    let x = jwk.public_x().unwrap();
    let mut headers = HeaderMap::new();
    let created = 1_800_000_000u64;
    apply_outbound_signature_at(&mut headers, "GET", "rs.example", "/data", "agent.jwt", &jwk, None, created)
        .unwrap();
    assert_eq!(
        headers.get("signature-input").unwrap(),
        "sig=(\"@method\" \"@authority\" \"@path\" \"signature-key\");created=1800000000"
    );
    assert_eq!(parse_signature_created(headers.get("signature-input").unwrap().to_str().unwrap()), Ok(created));
    let conf = Some(ConfirmationKey { x, thumbprint: "jkt".into() });
    for now in [created - 60, created, created + 120] {
        let v = verify_request_signature_at(
            "GET",
            "rs.example",
            "/data",
            &headers,
            &SignatureVerifyOptions::default(),
            now,
            &conf,
        )
        .unwrap();
        assert_eq!(v.jwt, "agent.jwt");
        assert_eq!(v.thumbprint, "jkt");
    }
}

#[test]
fn params_round_trip_with_equals_and_parens_in_names() {
    let extras = [("x=y", "1"), ("a(b", "2")];
    let (_, params) = build_signature_base_with_extras("GET", "a", "/", "k", 42, &extras);
    let input = format!("sig={params}");
    assert_eq!(parse_signature_created(&input), Ok(42));
    let (_, params) = build_signature_base_with_extras("GET", "a", "/", "k", 42, &[("x=y", "1")]);
    assert_eq!(
        parse_covered_components(&format!("sig={params}")).unwrap(),
        vec!["@method", "@authority", "@path", "signature-key", "x=y"]
    );
}

#[test]
fn uncovered_signature_key_refused_before_the_clock() {
    let mut h = HeaderMap::new();
    h.insert("signature-key", r#"sig=jwt;jwt="x""#.parse().unwrap());
    h.insert("signature-input", r#"sig=("@method" "@authority" "@path");created=1"#.parse().unwrap());
    h.insert("signature", "sig=:AA:".parse().unwrap());
    let err = verify_request_signature_with_options("GET", "r.example", "/", &h, &SignatureVerifyOptions::default(), &None)
        .unwrap_err();
    assert_eq!(err, SignatureError::MissingComponent(CoveredComponent::SignatureKey));
}
