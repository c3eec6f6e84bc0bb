//! The claim checks an agent or auth token passes before its issuer's keys are
//! fetched and its signature is checked.
use vstd::prelude::*;

use crate::common::{str_eq, JwtTyp};
use crate::resource_token::CLOCK_SKEW;

verus! {

/// The payload members of an agent or auth token that verification reads, as the
/// JSON gives them: string members as text, times as integers, and whether
/// `cnf.jwk` and `aud` are present.
#[derive(Debug, Clone)]
pub struct TokenClaimValues {
    pub iss: Option<String>,
    pub iat: Option<i64>,
    pub exp: Option<i64>,
    pub dwk: Option<String>,
    pub has_cnf_jwk: bool,
    pub sub: Option<String>,
    pub has_aud: bool,
    pub agent: Option<String>,
}

/// A token refused with an error code and a message.
#[derive(Debug, Clone, PartialEq, Eq)]
pub struct TokenError {
    pub code: String,
    pub message: String,
}

/// The code and message of a refused token.
pub open spec fn token_error(code: Seq<char>, message: Seq<char>) -> (Seq<char>, Seq<char>) {
    (code, message)
}

/// "Missing required claim: <name>".
pub open spec fn missing_claim(name: Seq<char>) -> Seq<char> {
    "Missing required claim: "@ + name
}

/// What [`check_token_claims`] decides: the first missing claim, expiry, or a key
/// binding mismatch, in the order the verifier checks them.
pub open spec fn token_claims_check(
    typ: JwtTyp,
    c: TokenClaimValues,
    now: i64,
    cnf_thumbprint: Seq<char>,
    signature_thumbprint: Seq<char>,
) -> Result<(), (Seq<char>, Seq<char>)> {
    let code = typ.error_code();
    if typ == JwtTyp::Resource {
        Err(token_error(code, "Unsupported JWT typ for verification: "@ + typ.wire()))
    } else if c.iss is None {
        Err(token_error(code, missing_claim("iss"@)))
    } else if c.iat is None {
        Err(token_error(code, missing_claim("iat"@)))
    } else if c.exp is None {
        Err(token_error(code, missing_claim("exp"@)))
    } else if c.dwk is None {
        Err(token_error(code, missing_claim("dwk"@)))
    } else if typ == JwtTyp::Agent && c.dwk->0@ != "aauth-agent.json"@ {
        Err(token_error(code, "Invalid dwk: expected aauth-agent.json"@))
    } else if !c.has_cnf_jwk {
        Err(token_error(code, missing_claim("cnf.jwk"@)))
    } else if typ == JwtTyp::Agent && c.sub is None {
        Err(token_error(code, missing_claim("sub"@)))
    } else if typ == JwtTyp::Auth && !c.has_aud {
        Err(token_error(code, missing_claim("aud"@)))
    } else if typ == JwtTyp::Auth && c.agent is None {
        Err(token_error(code, missing_claim("agent"@)))
    } else if c.exp->0 < now - CLOCK_SKEW {
        Err(token_error(code, "Token has expired"@))
    } else if cnf_thumbprint != signature_thumbprint {
        Err(
            token_error(
                "key_binding_failed"@,
                "cnf.jwk thumbprint does not match HTTP signature key"@,
            ),
        )
    } else {
        Ok(())
    }
}

/// A token passes the claim checks only if it is an agent or auth token carrying
/// `iss`, `iat`, `exp`, `dwk` and `cnf.jwk`, whatever its kind it has not expired
/// beyond the clock skew (`exp >= now - 60`), and its `cnf.jwk` is the key that
/// signed the request.
pub proof fn lemma_accepted_token_is_fresh(
    typ: JwtTyp,
    c: TokenClaimValues,
    now: i64,
    cnf_thumbprint: Seq<char>,
    signature_thumbprint: Seq<char>,
)
    requires
        token_claims_check(typ, c, now, cnf_thumbprint, signature_thumbprint) is Ok,
    ensures
        typ == JwtTyp::Agent || typ == JwtTyp::Auth,
        c.iss is Some && c.iat is Some && c.dwk is Some && c.has_cnf_jwk,
        c.exp matches Some(e) && e >= now - 60,
        cnf_thumbprint == signature_thumbprint,
{
}

/// An agent or auth token with every required claim but expired beyond the clock
/// skew is refused as expired, with its kind's error code.
pub proof fn lemma_expired_token_refused(
    typ: JwtTyp,
    c: TokenClaimValues,
    now: i64,
    cnf_thumbprint: Seq<char>,
    signature_thumbprint: Seq<char>,
)
    requires
        typ == JwtTyp::Agent || typ == JwtTyp::Auth,
        c.iss is Some && c.iat is Some && c.dwk is Some && c.has_cnf_jwk,
        typ == JwtTyp::Agent ==> c.sub is Some && c.dwk->0@ == "aauth-agent.json"@,
        typ == JwtTyp::Auth ==> c.has_aud && c.agent is Some,
        c.exp matches Some(e) && e < now - 60,
    ensures
        token_claims_check(typ, c, now, cnf_thumbprint, signature_thumbprint) == Err::<
            (),
            (Seq<char>, Seq<char>),
        >((typ.error_code(), "Token has expired"@)),
{
}

fn refuse(code: &str, message: String) -> (r: Result<(), TokenError>)
    ensures
        r matches Err(e) && e.code@ == code@ && e.message@ == message@,
{
    Err(TokenError { code: String::from_str(code), message })
}

fn missing(code: &str, name: &str) -> (r: Result<(), TokenError>)
    ensures
        r matches Err(e) && e.code@ == code@ && e.message@ == missing_claim(name@),
{
    let mut m = String::from_str("Missing required claim: ");
    m.append(name);
    refuse(code, m)
}

pub open spec fn error_view(r: Result<(), TokenError>) -> Result<(), (Seq<char>, Seq<char>)> {
    match r {
        Ok(_) => Ok(()),
        Err(e) => Err((e.code@, e.message@)),
    }
}

/// Checks the claims of an agent or auth token at `now` (seconds since the Unix
/// epoch) before its issuer's keys are fetched: the required members are present
/// (`iss`, `iat`, `exp`, `dwk`, `cnf.jwk`, then `sub` for an agent token or `aud`
/// and `agent` for an auth token), an agent token's `dwk` is `aauth-agent.json`,
/// the token has not expired beyond the clock
/// skew, and the thumbprint of its `cnf.jwk` is that of the request's signing key.
pub fn check_token_claims(
    typ: JwtTyp,
    claims: &TokenClaimValues,
    now: i64,
    cnf_thumbprint: &str,
    signature_thumbprint: &str,
) -> (r: Result<(), TokenError>)
    requires
        now - CLOCK_SKEW >= i64::MIN,
    ensures
        error_view(r) == token_claims_check(
            typ,
            *claims,
            now,
            cnf_thumbprint@,
            signature_thumbprint@,
        ),
{
    let code = typ.verify_error_code();
    if typ == JwtTyp::Resource {
        let mut m = String::from_str("Unsupported JWT typ for verification: ");
        m.append(typ.as_str());
        return refuse(code, m);
    }
    if claims.iss.is_none() {
        return missing(code, "iss");
    }
    if claims.iat.is_none() {
        return missing(code, "iat");
    }
    let exp = match claims.exp {
        Some(e) => e,
        None => {
            return missing(code, "exp");
        },
    };
    match &claims.dwk {
        None => {
            return missing(code, "dwk");
        },
        Some(dwk) => {
            if typ == JwtTyp::Agent && !str_eq(dwk.as_str(), "aauth-agent.json") {
                return refuse(code, String::from_str("Invalid dwk: expected aauth-agent.json"));
            }
        },
    }
    if !claims.has_cnf_jwk {
        return missing(code, "cnf.jwk");
    }
    if typ == JwtTyp::Agent && claims.sub.is_none() {
        return missing(code, "sub");
    }
    if typ == JwtTyp::Auth && !claims.has_aud {
        return missing(code, "aud");
    }
    if typ == JwtTyp::Auth && claims.agent.is_none() {
        return missing(code, "agent");
    }
    if exp < now - CLOCK_SKEW {
        return refuse(code, String::from_str("Token has expired"));
    }
    if !str_eq(cnf_thumbprint, signature_thumbprint) {
        return refuse(
            "key_binding_failed",
            String::from_str("cnf.jwk thumbprint does not match HTTP signature key"),
        );
    }
    Ok(())
}

/// A key of the issuer's JWKS, as far as the key lookup reads it: its `kid` and
/// its base64url public key `x`, each when the JSON gives it as a string.
#[derive(Debug, Clone)]
pub struct JwkEntry {
    pub kid: Option<String>,
    pub x: Option<String>,
}

/// Why no verification key could be taken from the JWKS.
#[derive(Debug, Clone, Copy, PartialEq, Eq, Structural)]
pub enum JwkSelectError {
    /// No key carries the token's `kid`.
    UnknownKid,
    /// The key with the token's `kid` has no `x`.
    MissingX,
}

/// The key with identifier `kid`: the first key whose `kid` it is, and its `x`.
pub open spec fn selected_key(keys: Seq<JwkEntry>, kid: Seq<char>) -> Result<Seq<char>, JwkSelectError>
    decreases keys.len(),
{
    if keys.len() == 0 {
        Err(JwkSelectError::UnknownKid)
    } else if keys[0].kid matches Some(k) && k@ == kid {
        match keys[0].x {
            Some(x) => Ok(x@),
            None => Err(JwkSelectError::MissingX),
        }
    } else {
        selected_key(keys.drop_first(), kid)
    }
}

/// Finds the key that verifies a token with header `kid` in the issuer's JWKS:
/// the first key with that `kid`, whose `x` is returned.
pub fn select_jwk(keys: &Vec<JwkEntry>, kid: &str) -> (r: Result<String, JwkSelectError>)
    ensures
        match r {
            Ok(x) => selected_key(keys@, kid@) == Ok::<Seq<char>, JwkSelectError>(x@),
            Err(e) => selected_key(keys@, kid@) == Err::<Seq<char>, JwkSelectError>(e),
        },
{
    let mut i: usize = 0;
    proof {
        assert(keys@.skip(0) =~= keys@);
    }
    while i < keys.len()
        invariant
            i <= keys.len(),
            selected_key(keys@, kid@) == selected_key(keys@.skip(i as int), kid@),
        decreases keys.len() - i,
    {
        let ghost rest = keys@.skip(i as int);
        proof {
            assert(rest[0] == keys@[i as int]);
            assert(rest.drop_first() =~= keys@.skip(i + 1));
        }
        let matches = match &keys[i].kid {
            Some(k) => str_eq(k.as_str(), kid),
            None => false,
        };
        if matches {
            return match &keys[i].x {
                Some(x) => Ok(x.clone()),
                None => Err(JwkSelectError::MissingX),
            };
        }
        i = i + 1;
    }
    proof {
        assert(keys@.skip(i as int).len() == 0);
    }
    Err(JwkSelectError::UnknownKid)
}

} // verus!
