use vstd::prelude::*;

use jsonwebtoken::{Algorithm, DecodingKey, Validation};

use crate::auth::error::Error;
use crate::text::{chars_eq_str, chars_of, push_str, string_from_chars};

verus! {

/// Google's JWKS endpoint, from its OpenID discovery document.
pub const GOOGLE_JWKS_URL: &'static str = "https://www.googleapis.com/oauth2/v3/certs";

/// How long a fetched key set is trusted before it is fetched again, in
/// seconds.
pub const JWKS_TTL_SECS: u64 = 3600;

/// The issuer values Google puts in its ID tokens.
pub fn google_issuers() -> (v: Vec<String>)
    ensures
        v.len() == 2,
        v[0]@ == "https://accounts.google.com"@,
        v[1]@ == "accounts.google.com"@,
{
    let mut v: Vec<String> = Vec::new();
    v.push("https://accounts.google.com".to_string());
    v.push("accounts.google.com".to_string());
    v
}

/// Standard OIDC claims of a Google ID token.
#[derive(Debug, Clone)]
pub struct GoogleClaims {
    pub iss: String,
    pub aud: String,
    /// Stable, opaque Google user identifier.
    pub sub: String,
    pub email: String,
    /// Absent in the token means `false`.
    pub email_verified: bool,
    pub name: Option<String>,
    pub picture: Option<String>,
    pub exp: i64,
    pub iat: i64,
}

fn invalid_token(prefix: &str, detail: &str) -> (e: Error)
    ensures
        e is InvalidToken,
        e->InvalidToken_0@ == prefix@ + detail@,
{
    let mut v: Vec<char> = Vec::new();
    push_str(&mut v, prefix);
    push_str(&mut v, detail);
    Error::InvalidToken(string_from_chars(&v))
}

/// An ID token whose header could not be decoded.
pub fn header_error(detail: &str) -> (e: Error)
    ensures
        e is InvalidToken,
        e->InvalidToken_0@ == "header: "@ + detail@,
{
    invalid_token("header: ", detail)
}

/// Check a decoded token header: the algorithm (by its name, such as
/// `RS256`) must be RS256 and a key id must be present; gives the key id.
pub fn check_header(alg: &str, kid: Option<String>) -> (r: Result<String, Error>)
    ensures
        alg@ != "RS256"@ ==> r is Err && r->Err_0 is InvalidToken && r->Err_0->InvalidToken_0@
            == "unexpected alg: "@ + alg@,
        alg@ == "RS256"@ && kid is None ==> r is Err && r->Err_0 is InvalidToken
            && r->Err_0->InvalidToken_0@ == "no kid in header"@,
        alg@ == "RS256"@ && kid is Some ==> r == Ok::<String, Error>(kid->Some_0),
{
    let a = chars_of(alg);
    if !chars_eq_str(&a, "RS256") {
        return Err(invalid_token("unexpected alg: ", alg));
    }
    match kid {
        Some(k) => Ok(k),
        None => Err(Error::InvalidToken("no kid in header".to_string())),
    }
}

/// A token that failed signature, audience, issuer or expiry checks.
pub fn claims_error(detail: String) -> (e: Error)
    ensures
        e == Error::InvalidToken(detail),
{
    Error::InvalidToken(detail)
}

/// Accept verified claims only when Google has verified the email.
pub fn require_verified_email(claims: GoogleClaims) -> (r: Result<GoogleClaims, Error>)
    ensures
        claims.email_verified ==> r == Ok::<GoogleClaims, Error>(claims),
        !claims.email_verified ==> r is Err && r->Err_0 is InvalidToken && r->Err_0->InvalidToken_0@
            == "email not verified by Google"@,
{
    if !claims.email_verified {
        return Err(Error::InvalidToken("email not verified by Google".to_string()));
    }
    Ok(claims)
}

/// Whether a key set fetched `elapsed_secs` seconds ago is still trusted.
pub fn jwks_fresh(elapsed_secs: u64) -> (b: bool)
    ensures
        b == (elapsed_secs < JWKS_TTL_SECS),
{
    elapsed_secs < JWKS_TTL_SECS
}

/// Whether a cached key can be used without fetching: a key set is cached,
/// still fresh, and holds the key id.
pub fn cached_key_usable(has_cache: bool, elapsed_secs: u64, has_kid: bool) -> (b: bool)
    ensures
        b == (has_cache && elapsed_secs < JWKS_TTL_SECS && has_kid),
{
    has_cache && jwks_fresh(elapsed_secs) && has_kid
}

/// Whether a lookup miss triggers a fetch: only when a JWKS URL is set
/// (verifiers built with static keys have none).
pub fn should_refresh(jwks_url: &str) -> (b: bool)
    ensures
        b == (jwks_url@.len() > 0),
{
    !jwks_url.is_empty()
}

/// The error when the key id is still not found after any refresh.
pub fn missing_key_error(has_cache: bool, kid: &str) -> (e: Error)
    ensures
        !has_cache ==> e is OAuth && e->OAuth_0@ == "jwks unavailable"@,
        has_cache ==> e is InvalidToken && e->InvalidToken_0@ == "unknown kid: "@ + kid@,
{
    if !has_cache {
        Error::OAuth("jwks unavailable".to_string())
    } else {
        invalid_token("unknown kid: ", kid)
    }
}

/// Only RSA keys of a fetched key set are kept.
pub fn keep_jwk(kty: &str) -> (b: bool)
    ensures
        b == (kty@ == "RSA"@),
{
    let v = chars_of(kty);
    chars_eq_str(&v, "RSA")
}

/// The error of a failed key-set fetch step: `stage` names the step
/// (`jwks fetch`, `jwks parse`, `invalid jwk`).
pub fn jwks_error(stage: &str, detail: &str) -> (e: Error)
    ensures
        e is OAuth,
        e->OAuth_0@ == stage@ + ": "@ + detail@,
{
    let mut v: Vec<char> = Vec::new();
    push_str(&mut v, stage);
    push_str(&mut v, ": ");
    push_str(&mut v, detail);
    Error::OAuth(string_from_chars(&v))
}

// ───────────────────────── checking an ID token ─────────────────────────

pub open spec fn opt_view(o: Option<String>) -> Option<Seq<char>> {
    match o {
        Some(s) => Some(s@),
        None => None,
    }
}

/// The header of a JWT as jsonwebtoken's `decode_header` reads it: the
/// algorithm's name and the key id, if any; `None` when it cannot be read.
pub uninterp spec fn jwt_header_of(token: Seq<char>) -> Option<(Seq<char>, Option<Seq<char>>)>;

/// Whether jsonwebtoken's `DecodingKey::from_rsa_components` accepts the
/// modulus `n` and exponent `e` (both base64url).
pub uninterp spec fn rsa_key_ok(n: Seq<char>, e: Seq<char>) -> bool;

/// The claims text of `token` when its RS256 signature checks out with the
/// RSA key `(n, e)` and its claims part is a JSON object; `None` otherwise.
pub uninterp spec fn rs256_payload(token: Seq<char>, n: Seq<char>, e: Seq<char>) -> Option<Seq<char>>;

/// jsonwebtoken: `decode_header`, giving the algorithm by its name (its
/// `Debug` form, such as `RS256`) and the key id. The error message is not
/// stated.
#[verifier::external_body]
fn jwt_header(token: &str) -> (r: Result<(String, Option<String>), String>)
    ensures
        match r {
            Ok((a, k)) => jwt_header_of(token@) == Some((a@, opt_view(k))),
            Err(_) => jwt_header_of(token@) is None,
        },
{
    match jsonwebtoken::decode_header(token) {
        Ok(h) => Ok((format!("{:?}", h.alg), h.kid)),
        Err(e) => Err(e.to_string()),
    }
}

/// jsonwebtoken: `DecodingKey::from_rsa_components(n, e)`, kept only for
/// whether it succeeds. The error message is not stated.
#[verifier::external_body]
fn rsa_key_check(n: &str, e: &str) -> (r: Result<(), String>)
    ensures
        r is Ok <==> rsa_key_ok(n@, e@),
{
    match DecodingKey::from_rsa_components(n, e) {
        Ok(_) => Ok(()),
        Err(err) => Err(err.to_string()),
    }
}

/// jsonwebtoken: `decode` of `token` as RS256 under the key
/// `DecodingKey::from_rsa_components(n, e)`, checking the signature only
/// (no required claims, no expiry, issuer or audience check), giving the
/// claims as JSON text. The error message is not stated.
#[verifier::external_body]
fn rs256_decode(token: &str, n: &str, e: &str) -> (r: Result<String, String>)
    requires
        rsa_key_ok(n@, e@),
    ensures
        match r {
            Ok(p) => rs256_payload(token@, n@, e@) == Some(p@),
            Err(_) => rs256_payload(token@, n@, e@) is None,
        },
{
    let key = DecodingKey::from_rsa_components(n, e).map_err(|err| err.to_string())?;
    let mut validation = Validation::new(Algorithm::RS256);
    validation.required_spec_claims.clear();
    validation.validate_exp = false;
    validation.validate_aud = false;
    jsonwebtoken::decode::<serde_json::Value>(token, &key, &validation)
        .map(|d| d.claims.to_string())
        .map_err(|err| err.to_string())
}

/// The key id of an ID token, from its header: the header must read, name
/// RS256 and carry a key id.
pub fn token_key_id(token: &str) -> (r: Result<String, Error>)
    ensures
        jwt_header_of(token@) is None ==> r is Err && r->Err_0 is InvalidToken,
        jwt_header_of(token@) matches Some((a, k)) ==> {
            &&& a != "RS256"@ ==> r is Err && r->Err_0 is InvalidToken
                && r->Err_0->InvalidToken_0@ == "unexpected alg: "@ + a
            &&& a == "RS256"@ && k is None ==> r is Err && r->Err_0 is InvalidToken
                && r->Err_0->InvalidToken_0@ == "no kid in header"@
            &&& a == "RS256"@ && k is Some ==> r is Ok && r->Ok_0@ == k->Some_0
        },
{
    match jwt_header(token) {
        Err(m) => Err(header_error(m.as_str())),
        Ok((alg, kid)) => check_header(alg.as_str(), kid),
    }
}

/// Check one RSA key of a fetched key set.
pub fn check_jwk(n: &str, e: &str) -> (r: Result<(), Error>)
    ensures
        r is Ok <==> rsa_key_ok(n@, e@),
        r is Err ==> r->Err_0 is OAuth,
{
    match rsa_key_check(n, e) {
        Ok(()) => Ok(()),
        Err(m) => Err(jwks_error("invalid jwk", m.as_str())),
    }
}

/// Check an ID token's RS256 signature with the key `(n, e)` and give its
/// claims as JSON text. A key that does not read is refused as an invalid
/// key; a bad signature as an invalid token.
pub fn open_google_token(token: &str, n: &str, e: &str) -> (r: Result<String, Error>)
    ensures
        !rsa_key_ok(n@, e@) ==> r is Err && r->Err_0 is OAuth,
        rsa_key_ok(n@, e@) ==> match r {
            Ok(p) => rs256_payload(token@, n@, e@) == Some(p@),
            Err(err) => rs256_payload(token@, n@, e@) is None && err is InvalidToken,
        },
{
    match check_jwk(n, e) {
        Err(err) => Err(err),
        Ok(()) => match rs256_decode(token, n, e) {
            Ok(p) => Ok(p),
            Err(m) => Err(claims_error(m)),
        },
    }
}

/// Seconds of clock drift forgiven when an ID token's expiry is checked.
pub const ID_TOKEN_LEEWAY_SECS: u64 = 60;

/// Whether `v` is one of the strings of `vs`.
pub open spec fn one_of(vs: Seq<String>, v: Seq<char>) -> bool {
    exists|i: int| 0 <= i < vs.len() && #[trigger] vs[i]@ == v
}

/// What decoded ID-token claims give at `now`, in the order jsonwebtoken
/// checks them: an expiry below zero counts as missing (it is read
/// unsigned); an expiry more than the leeway before `now` is expired; the
/// issuer must be one of `issuers`, the audience must be `client_id`; and
/// then Google must have verified the email.
pub open spec fn google_check(
    c: GoogleClaims,
    now: int,
    client_id: Seq<char>,
    issuers: Seq<String>,
) -> Result<GoogleClaims, Seq<char>> {
    if c.exp < 0 {
        Err("Missing required claim: exp"@)
    } else if c.exp + ID_TOKEN_LEEWAY_SECS < now {
        Err("ExpiredSignature"@)
    } else if !one_of(issuers, c.iss@) {
        Err("InvalidIssuer"@)
    } else if c.aud@ != client_id {
        Err("InvalidAudience"@)
    } else if !c.email_verified {
        Err("email not verified by Google"@)
    } else {
        Ok(c)
    }
}

/// `r` is what `google_check` gives: the same claims, or an invalid-token
/// error with the same message.
pub open spec fn google_outcome(
    r: Result<GoogleClaims, Error>,
    c: GoogleClaims,
    now: int,
    client_id: Seq<char>,
    issuers: Seq<String>,
) -> bool {
    match (r, google_check(c, now, client_id, issuers)) {
        (Ok(x), Ok(y)) => x == y,
        (Err(Error::InvalidToken(m)), Err(t)) => m@ == t,
        _ => false,
    }
}

fn is_one_of(vs: &Vec<String>, v: &str) -> (b: bool)
    ensures
        b == one_of(vs@, v@),
{
    let w = chars_of(v);
    let mut i: usize = 0;
    while i < vs.len()
        invariant
            i <= vs.len(),
            w@ == v@,
            forall|j: int| 0 <= j < i ==> (#[trigger] vs@[j])@ != v@,
        decreases vs.len() - i,
    {
        if chars_eq_str(&w, vs[i].as_str()) {
            assert(vs@[i as int]@ == v@);
            return true;
        }
        i += 1;
    }
    false
}

/// Accept decoded ID-token claims at `now` for the client `client_id`.
pub fn accept_google_claims(
    claims: GoogleClaims,
    now: u64,
    client_id: &str,
    issuers: &Vec<String>,
) -> (r: Result<GoogleClaims, Error>)
    ensures
        google_outcome(r, claims, now as int, client_id@, issuers@),
{
    if claims.exp < 0 {
        return Err(Error::InvalidToken("Missing required claim: exp".to_string()));
    }
    if (claims.exp as u64 as u128) + (ID_TOKEN_LEEWAY_SECS as u128) < now as u128 {
        return Err(Error::InvalidToken("ExpiredSignature".to_string()));
    }
    if !is_one_of(issuers, claims.iss.as_str()) {
        return Err(Error::InvalidToken("InvalidIssuer".to_string()));
    }
    if !chars_eq_str(&chars_of(claims.aud.as_str()), client_id) {
        return Err(Error::InvalidToken("InvalidAudience".to_string()));
    }
    require_verified_email(claims)
}

/// Accept decoded ID-token claims at the current time.
pub fn accept_google_claims_now(
    claims: GoogleClaims,
    client_id: &str,
    issuers: &Vec<String>,
) -> (r: Result<GoogleClaims, Error>)
    ensures
        exists|now: u64| #[trigger] google_outcome(r, claims, now as int, client_id@, issuers@),
{
    let now = crate::auth::session::clock_secs();
    accept_google_claims(claims, now, client_id, issuers)
}

} // verus!
