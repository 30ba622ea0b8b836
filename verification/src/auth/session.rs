use vstd::prelude::*;

use jsonwebtoken::{Algorithm, DecodingKey, EncodingKey, Header, Validation};

use crate::auth::error::Error;
use crate::text::{chars_eq_str, chars_of, push_str, string_from_chars};

verus! {

/// Issuer claim of every session token this service mints; checked on
/// verify, so a token signed by an unrelated service cannot slip through.
pub const SESSION_ISSUER: &'static str = "sharam";

/// Default session lifetime in days.
pub const DEFAULT_SESSION_TTL_DAYS: i64 = 7;

/// Identity carried by a verified session token, the same whether the user
/// signed in with Google or with email and password.
#[derive(Debug, Clone, PartialEq, Eq)]
pub struct Identity {
    pub email: String,
    pub name: Option<String>,
    /// Avatar URL, only set for Google sign-ins; for display only.
    pub picture: Option<String>,
}

/// Claims of a session token. `sub` is the user's email, which the rest of
/// the system keys on.
#[derive(Debug, Clone)]
pub struct SessionClaims {
    pub iss: String,
    pub sub: String,
    pub email: String,
    pub name: Option<String>,
    pub picture: Option<String>,
    pub exp: i64,
    pub iat: i64,
}

fn clone_opt(o: &Option<String>) -> (r: Option<String>)
    ensures
        r == *o,
{
    match o {
        Some(s) => Some(s.clone()),
        None => None,
    }
}

/// The default session lifetime in seconds.
pub fn default_session_ttl_secs() -> (s: i64)
    ensures
        s == DEFAULT_SESSION_TTL_DAYS * 86_400,
{
    DEFAULT_SESSION_TTL_DAYS * 86_400
}

/// `c` are the claims of a session of `id` issued at `now` for `ttl`
/// seconds: our issuer, the email as subject, the identity's fields, and
/// the issue and expiry times.
pub open spec fn issued_for(c: SessionClaims, id: Identity, now: int, ttl: int) -> bool {
    &&& c.iss@ == SESSION_ISSUER@
    &&& c.sub == id.email
    &&& c.email == id.email
    &&& c.name == id.name
    &&& c.picture == id.picture
    &&& c.exp == now + ttl
    &&& c.iat == now
}

/// The identity that claims carry.
pub open spec fn identity_of(c: SessionClaims) -> Identity {
    Identity { email: c.email, name: c.name, picture: c.picture }
}

impl SessionClaims {
    /// Claims for a session of `identity` issued at `now` (seconds since
    /// the epoch) and valid for `ttl` seconds.
    pub fn issue_at(identity: &Identity, now: i64, ttl: i64) -> (c: SessionClaims)
        requires
            i64::MIN <= now + ttl <= i64::MAX,
        ensures
            issued_for(c, *identity, now as int, ttl as int),
    {
        SessionClaims {
            iss: SESSION_ISSUER.to_string(),
            sub: identity.email.clone(),
            email: identity.email.clone(),
            name: clone_opt(&identity.name),
            picture: clone_opt(&identity.picture),
            exp: now + ttl,
            iat: now,
        }
    }

    /// The identity that verified claims carry.
    pub fn identity(&self) -> (i: Identity)
        ensures
            i == identity_of(*self),
    {
        Identity {
            email: self.email.clone(),
            name: clone_opt(&self.name),
            picture: clone_opt(&self.picture),
        }
    }
}

/// The error for a token that failed to decode: an expired one says so,
/// any other failure carries the decoder's message.
pub fn session_decode_error(expired: bool, detail: String) -> (e: Error)
    ensures
        e is InvalidSession,
        expired ==> e->InvalidSession_0@ == "session expired"@,
        !expired ==> e->InvalidSession_0 == detail,
{
    if expired {
        Error::InvalidSession("session expired".to_string())
    } else {
        Error::InvalidSession(detail)
    }
}

/// The error for a token that could not be signed.
pub fn session_encode_error(detail: &str) -> (e: Error)
    ensures
        e is InvalidSession,
        e->InvalidSession_0@ == "encode: "@ + detail@,
{
    let mut v: Vec<char> = Vec::new();
    push_str(&mut v, "encode: ");
    push_str(&mut v, detail);
    Error::InvalidSession(string_from_chars(&v))
}

// ───────────────────────── signing and checking tokens ─────────────────────────

/// The HS256 token jsonwebtoken makes of the claims text `claims_json`
/// (read as JSON) with the secret `secret`; `None` when the text is not
/// JSON.
pub uninterp spec fn hs256_token(secret: Seq<u8>, claims_json: Seq<char>) -> Option<Seq<char>>;

/// The claims text of `token` when its HS256 signature checks out with the
/// secret `secret` and its claims part is a JSON object; `None` otherwise.
pub uninterp spec fn hs256_payload(secret: Seq<u8>, token: Seq<char>) -> Option<Seq<char>>;

/// jsonwebtoken: `encode` with an HS256 header of the claims text, read
/// as a JSON value, under `EncodingKey::from_secret(secret)`. Read as a
/// value, the claims are written back with their keys in sorted order, so
/// the token carries the same claims as the text in another key order.
/// The token is a function of the secret and the text; it is named, not
/// stated. The error message is not stated.
#[verifier::external_body]
fn hs256_encode(secret: &[u8], claims_json: &str) -> (r: Result<String, String>)
    ensures
        match r {
            Ok(t) => hs256_token(secret@, claims_json@) == Some(t@),
            Err(_) => hs256_token(secret@, claims_json@) is None,
        },
{
    let claims: serde_json::Value = serde_json::from_str(claims_json).map_err(|e| e.to_string())?;
    jsonwebtoken::encode(&Header::new(Algorithm::HS256), &claims, &EncodingKey::from_secret(secret))
        .map_err(|e| e.to_string())
}

/// jsonwebtoken: `decode` of `token` as HS256 under
/// `DecodingKey::from_secret(secret)`, checking the signature only (no
/// required claims, no expiry, issuer or audience check), giving the claims
/// as JSON text. Which claims are accepted is decided by the caller. The
/// error message is not stated.
#[verifier::external_body]
fn hs256_decode(secret: &[u8], token: &str) -> (r: Result<String, String>)
    ensures
        match r {
            Ok(p) => hs256_payload(secret@, token@) == Some(p@),
            Err(_) => hs256_payload(secret@, token@) is None,
        },
{
    let mut validation = Validation::new(Algorithm::HS256);
    validation.required_spec_claims.clear();
    validation.validate_exp = false;
    validation.validate_aud = false;
    jsonwebtoken::decode::<serde_json::Value>(token, &DecodingKey::from_secret(secret), &validation)
        .map(|d| d.claims.to_string())
        .map_err(|e| e.to_string())
}

/// jsonwebtoken: `get_current_timestamp()`, the clock's seconds since the
/// epoch, as jsonwebtoken reads it to check expiry. Which instant it is
/// depends on the clock and is not stated.
#[verifier::external_body]
pub(crate) fn clock_secs() -> (t: u64) {
    jsonwebtoken::get_current_timestamp()
}

/// Whether `now + ttl` leaves the `i64` range.
pub open spec fn expiry_overflows(now: int, ttl: int) -> bool {
    !(i64::MIN <= now + ttl <= i64::MAX)
}

/// What `session_claims_at` gives: the claims of a session issued at
/// `now` for `ttl` seconds, or `None` when the expiry leaves `i64`.
pub open spec fn claims_at_result(r: Option<SessionClaims>, id: Identity, now: int, ttl: int) -> bool {
    match r {
        Some(c) => !expiry_overflows(now, ttl) && issued_for(c, id, now, ttl),
        None => expiry_overflows(now, ttl),
    }
}

/// Claims for a session of `identity` issued at `now` (seconds since the
/// epoch) and valid for `ttl` seconds; `None` when the expiry would leave
/// the `i64` range.
pub fn session_claims_at(identity: &Identity, now: i64, ttl: i64) -> (r: Option<SessionClaims>)
    ensures
        claims_at_result(r, *identity, now as int, ttl as int),
{
    match now.checked_add(ttl) {
        Some(_) => Some(SessionClaims::issue_at(identity, now, ttl)),
        None => None,
    }
}

/// Claims for a session of `identity` issued now (the clock's UTC seconds)
/// and valid for `ttl` seconds; `None` when the expiry would leave the
/// `i64` range.
pub fn session_claims_now(identity: &Identity, ttl: i64) -> (r: Option<SessionClaims>)
    ensures
        exists|now: i64| #[trigger] claims_at_result(r, *identity, now as int, ttl as int),
{
    let now = crate::common::time::Timestamp::now().secs;
    session_claims_at(identity, now, ttl)
}

/// Sign session claims (their JSON text) with the shared secret, HS256.
pub fn sign_session(secret: &[u8], claims_json: &str) -> (r: Result<String, Error>)
    ensures
        match r {
            Ok(t) => hs256_token(secret@, claims_json@) == Some(t@),
            Err(e) => hs256_token(secret@, claims_json@) is None && e is InvalidSession,
        },
{
    match hs256_encode(secret, claims_json) {
        Ok(t) => Ok(t),
        Err(m) => Err(session_encode_error(m.as_str())),
    }
}

/// Check a session token's signature with the shared secret and give its
/// claims as JSON text. A token signed with any other secret is refused,
/// so changing the secret ends every session.
pub fn open_session_token(secret: &[u8], token: &str) -> (r: Result<String, Error>)
    ensures
        match r {
            Ok(p) => hs256_payload(secret@, token@) == Some(p@),
            Err(e) => hs256_payload(secret@, token@) is None && e is InvalidSession,
        },
{
    match hs256_decode(secret, token) {
        Ok(p) => Ok(p),
        Err(m) => Err(session_decode_error(false, m)),
    }
}

/// What decoded session claims give at `now` (seconds since the epoch), in
/// the order jsonwebtoken checks them: an expiry below zero is no expiry
/// (it is read unsigned), so the claim counts as missing; an expiry before
/// `now` is an expired session (no leeway); any issuer but ours is
/// refused; otherwise the claims' identity.
pub open spec fn session_check(c: SessionClaims, now: int) -> Result<Identity, Seq<char>> {
    if c.exp < 0 {
        Err("Missing required claim: exp"@)
    } else if c.exp < now {
        Err("session expired"@)
    } else if c.iss@ != SESSION_ISSUER@ {
        Err("InvalidIssuer"@)
    } else {
        Ok(identity_of(c))
    }
}

/// `r` is what `session_check` gives for `c` at `now`: the same identity,
/// or a session error with the same message.
pub open spec fn session_outcome(r: Result<Identity, Error>, c: SessionClaims, now: int) -> bool {
    match (r, session_check(c, now)) {
        (Ok(i), Ok(j)) => i == j,
        (Err(Error::InvalidSession(m)), Err(t)) => m@ == t,
        _ => false,
    }
}

/// Accept decoded session claims at `now`.
pub fn accept_session(claims: &SessionClaims, now: u64) -> (r: Result<Identity, Error>)
    ensures
        session_outcome(r, *claims, now as int),
{
    if claims.exp < 0 {
        return Err(Error::InvalidSession("Missing required claim: exp".to_string()));
    }
    if (claims.exp as u64) < now {
        return Err(session_decode_error(true, String::new()));
    }
    if !chars_eq_str(&chars_of(claims.iss.as_str()), SESSION_ISSUER) {
        return Err(Error::InvalidSession("InvalidIssuer".to_string()));
    }
    Ok(claims.identity())
}

/// Accept decoded session claims at the current time.
pub fn accept_session_now(claims: &SessionClaims) -> (r: Result<Identity, Error>)
    ensures
        exists|now: u64| #[trigger] session_outcome(r, *claims, now as int),
{
    let now = clock_secs();
    accept_session(claims, now)
}

/// Law: a session is accepted, with the identity it was issued for, from
/// its issue until its expiry, and refused as expired after it.
pub proof fn lemma_session_lifetime(c: SessionClaims, id: Identity, issued: int, ttl: int, now: int)
    requires
        issued_for(c, id, issued, ttl),
        0 <= issued + ttl,
    ensures
        now <= issued + ttl ==> session_check(c, now) == Ok::<Identity, Seq<char>>(id),
        now > issued + ttl ==> session_check(c, now) == Err::<Identity, Seq<char>>("session expired"@),
{
}

/// Law: the identity read back from the claims of a session is the
/// identity the session was issued for.
pub proof fn lemma_session_identity_round_trip(c: SessionClaims, id: Identity, now: int, ttl: int)
    requires
        issued_for(c, id, now, ttl),
    ensures
        identity_of(c) == id,
{
}

} // verus!
