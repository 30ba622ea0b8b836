use sharam::auth::error::Error;
use sharam::auth::google::{
    accept_google_claims, check_jwk, open_google_token, token_key_id, check_header, cached_key_usable, google_issuers, header_error, jwks_error, jwks_fresh,
    keep_jwk, missing_key_error, require_verified_email, should_refresh, GoogleClaims,
};
use sharam::auth::password::{hash_password, verify_password};
use sharam::auth::session::{
    accept_session, accept_session_now, default_session_ttl_secs, open_session_token,
    session_claims_at, session_claims_now, session_decode_error, session_encode_error, sign_session, Identity,
    SessionClaims, SESSION_ISSUER,
};

#[test]
fn password_round_trip() {
    let h = hash_password("hunter2").unwrap();
    assert!(h.starts_with("$argon2"));
    verify_password("hunter2", &h).unwrap();
    assert!(matches!(verify_password("wrong", &h), Err(Error::PasswordMismatch)));
}

#[test]
fn fresh_hashes_differ_and_are_argon2id() {
    let a = hash_password("same password").unwrap();
    let b = hash_password("same password").unwrap();
    assert!(a.starts_with("$argon2id$"));
    assert_ne!(a, b);
    assert!(verify_password("same password", &a).is_ok());
    assert!(verify_password("same password", &b).is_ok());
}

#[test]
fn malformed_hash_is_a_hash_error() {
    assert!(matches!(verify_password("x", "not a phc string"), Err(Error::PasswordHash(_))));
}

#[test]
fn session_claims_carry_the_identity() {
    let id = Identity {
        email: "alice@example.com".into(),
        name: Some("Alice".into()),
        picture: None,
    };
    let c = SessionClaims::issue_at(&id, 1_000, default_session_ttl_secs());
    assert_eq!(c.iss, SESSION_ISSUER);
    assert_eq!(c.iss, "sharam");
    assert_eq!(c.sub, "alice@example.com");
    assert_eq!(c.iat, 1_000);
    assert_eq!(c.exp, 1_000 + 7 * 86_400);
    assert_eq!(c.identity(), id);
}

#[test]
fn session_errors() {
    assert_eq!(
        session_decode_error(true, "ExpiredSignature".into()),
        Error::InvalidSession("session expired".into())
    );
    assert_eq!(
        session_decode_error(false, "InvalidSignature".into()),
        Error::InvalidSession("InvalidSignature".into())
    );
    assert_eq!(session_encode_error("bad key"), Error::InvalidSession("encode: bad key".into()));
    assert_eq!(
        Error::InvalidSession("session expired".into()).to_string(),
        "invalid session token: session expired"
    );
    assert_eq!(Error::PasswordMismatch.to_string(), "invalid password");
    assert_eq!(Error::NotInvited.to_string(), "not invited");
}

fn claims(verified: bool) -> GoogleClaims {
    GoogleClaims {
        iss: "https://accounts.google.com".into(),
        aud: "client".into(),
        sub: "google-sub-123".into(),
        email: "user@example.com".into(),
        email_verified: verified,
        name: Some("Test User".into()),
        picture: None,
        exp: 2_000_000_000,
        iat: 1_000_000_000,
    }
}

#[test]
fn google_header_rules() {
    assert_eq!(check_header("RS256", Some("k1".into())), Ok("k1".to_string()));
    assert_eq!(
        check_header("HS256", Some("k1".into())),
        Err(Error::InvalidToken("unexpected alg: HS256".into()))
    );
    assert_eq!(
        check_header("RS256", None),
        Err(Error::InvalidToken("no kid in header".into()))
    );
    assert_eq!(header_error("bad b64"), Error::InvalidToken("header: bad b64".into()));
}

#[test]
fn google_requires_verified_email() {
    let c = require_verified_email(claims(true)).unwrap();
    assert_eq!(c.sub, "google-sub-123");
    assert_eq!(
        require_verified_email(claims(false)).map(|c| c.sub),
        Err(Error::InvalidToken("email not verified by Google".into()))
    );
}

#[test]
fn google_key_cache_rules() {
    assert_eq!(google_issuers(), vec!["https://accounts.google.com".to_string(), "accounts.google.com".to_string()]);
    assert!(jwks_fresh(3599));
    assert!(!jwks_fresh(3600));
    assert!(cached_key_usable(true, 10, true));
    assert!(!cached_key_usable(true, 10, false));
    assert!(!cached_key_usable(false, 10, true));
    assert!(!cached_key_usable(true, 4000, true));
    assert!(should_refresh("https://www.googleapis.com/oauth2/v3/certs"));
    assert!(!should_refresh(""));
    assert_eq!(missing_key_error(false, "k"), Error::OAuth("jwks unavailable".into()));
    assert_eq!(
        missing_key_error(true, "not-a-known-kid"),
        Error::InvalidToken("unknown kid: not-a-known-kid".into())
    );
    assert!(keep_jwk("RSA"));
    assert!(!keep_jwk("EC"));
    assert_eq!(jwks_error("jwks fetch", "503"), Error::OAuth("jwks fetch: 503".into()));
}


#[test]
fn hash_text_without_a_leading_dollar_is_malformed() {
    assert!(matches!(verify_password("x", ""), Err(Error::PasswordHash(_))));
    assert!(matches!(verify_password("x", "argon2id$v=19$m=19456,t=2,p=1$c2FsdA$aGFzaA"), Err(Error::PasswordHash(_))));
    assert!(hash_password("").is_ok());
}

fn claims_json(c: &SessionClaims) -> String {
    let mut m = serde_json::Map::new();
    m.insert("iss".into(), serde_json::Value::String(c.iss.clone()));
    m.insert("sub".into(), serde_json::Value::String(c.sub.clone()));
    m.insert("email".into(), serde_json::Value::String(c.email.clone()));
    if let Some(n) = &c.name {
        m.insert("name".into(), serde_json::Value::String(n.clone()));
    }
    if let Some(p) = &c.picture {
        m.insert("picture".into(), serde_json::Value::String(p.clone()));
    }
    m.insert("exp".into(), serde_json::Value::from(c.exp));
    m.insert("iat".into(), serde_json::Value::from(c.iat));
    serde_json::Value::Object(m).to_string()
}

fn claims_from_json(text: &str) -> SessionClaims {
    let v: serde_json::Value = serde_json::from_str(text).unwrap();
    let s = |k: &str| v.get(k).and_then(|x| x.as_str()).map(|x| x.to_string());
    SessionClaims {
        iss: s("iss").unwrap(),
        sub: s("sub").unwrap(),
        email: s("email").unwrap(),
        name: s("name"),
        picture: s("picture"),
        exp: v.get("exp").and_then(|x| x.as_i64()).unwrap(),
        iat: v.get("iat").and_then(|x| x.as_i64()).unwrap(),
    }
}

fn issue(secret: &[u8], id: &Identity, ttl: i64) -> String {
    let c = session_claims_now(id, ttl).unwrap();
    sign_session(secret, &claims_json(&c)).unwrap()
}

fn verify(secret: &[u8], token: &str) -> Result<Identity, Error> {
    let payload = open_session_token(secret, token)?;
    accept_session_now(&claims_from_json(&payload))
}

#[test]
fn session_round_trip() {
    let secret = b"this-is-a-test-secret-32-bytes!!";
    let id = Identity {
        email: "alice@example.com".into(),
        name: Some("Alice".into()),
        picture: None,
    };
    let tok = issue(secret, &id, default_session_ttl_secs());
    let back = verify(secret, &tok).unwrap();
    assert_eq!(back, id);
}

#[test]
fn rejects_wrong_secret() {
    let id = Identity { email: "alice@example.com".into(), name: None, picture: None };
    let tok = issue(b"secret-aaaaaaaaaaaaaaaaaaaaaaaaaaaa", &id, default_session_ttl_secs());
    assert!(matches!(
        verify(b"secret-bbbbbbbbbbbbbbbbbbbbbbbbbbbb", &tok),
        Err(Error::InvalidSession(_))
    ));
}

#[test]
fn session_rejects_expired() {
    let secret = b"another-test-secret-32-bytes!!aa";
    let id = Identity { email: "alice@example.com".into(), name: None, picture: None };
    let tok = issue(secret, &id, -1);
    assert!(matches!(verify(secret, &tok), Err(Error::InvalidSession(_))));
    assert_eq!(verify(secret, &tok), Err(Error::InvalidSession("session expired".into())));
}

#[test]
fn accepted_claims_follow_the_order_of_checks() {
    let id = Identity { email: "a@x".into(), name: None, picture: None };
    let c = SessionClaims::issue_at(&id, 1_000, 100);
    assert_eq!(accept_session(&c, 1_100), Ok(id.clone()));
    assert_eq!(accept_session(&c, 1_101), Err(Error::InvalidSession("session expired".into())));
    let mut other = c.clone();
    other.iss = "someone-else".into();
    assert_eq!(accept_session(&other, 1_000), Err(Error::InvalidSession("InvalidIssuer".into())));
    assert_eq!(accept_session(&other, 5_000), Err(Error::InvalidSession("session expired".into())));
    let mut neg = c.clone();
    neg.exp = -5;
    assert_eq!(
        accept_session(&neg, 1_000),
        Err(Error::InvalidSession("Missing required claim: exp".into()))
    );
}

#[test]
fn tampered_token_is_refused() {
    let secret = b"this-is-a-test-secret-32-bytes!!";
    let id = Identity { email: "alice@example.com".into(), name: None, picture: None };
    let tok = issue(secret, &id, 600);
    let mut bad = tok.clone();
    bad.push('x');
    assert!(matches!(open_session_token(secret, &bad), Err(Error::InvalidSession(_))));
    assert!(open_session_token(secret, &tok).is_ok());
}

fn google_claims(verified: bool) -> GoogleClaims {
    GoogleClaims {
        iss: "https://accounts.google.com".into(),
        aud: "test-client.apps.googleusercontent.com".into(),
        sub: "google-sub-123".into(),
        email: "user@example.com".into(),
        email_verified: verified,
        name: Some("Test User".into()),
        picture: None,
        exp: 10_000,
        iat: 9_000,
    }
}

#[test]
fn google_claims_are_checked_in_order() {
    let client = "test-client.apps.googleusercontent.com";
    let issuers = google_issuers();
    let ok = accept_google_claims(google_claims(true), 9_500, client, &issuers).unwrap();
    assert_eq!(ok.sub, "google-sub-123");
    // sixty seconds of leeway on expiry
    assert!(accept_google_claims(google_claims(true), 10_060, client, &issuers).is_ok());
    assert_eq!(
        accept_google_claims(google_claims(true), 10_061, client, &issuers).unwrap_err(),
        Error::InvalidToken("ExpiredSignature".into())
    );
    assert_eq!(
        accept_google_claims(google_claims(false), 9_500, client, &issuers).unwrap_err(),
        Error::InvalidToken("email not verified by Google".into())
    );
    assert_eq!(
        accept_google_claims(google_claims(true), 9_500, "someone-else.apps.googleusercontent.com", &issuers)
            .unwrap_err(),
        Error::InvalidToken("InvalidAudience".into())
    );
    let mut evil = google_claims(true);
    evil.iss = "https://evil.example.com".into();
    assert_eq!(
        accept_google_claims(evil, 9_500, client, &issuers).unwrap_err(),
        Error::InvalidToken("InvalidIssuer".into())
    );
}

#[test]
fn google_token_header_and_keys() {
    assert_eq!(token_key_id("eyJhbGciOiJSUzI1NiIsImtpZCI6ImsxIn0.eyJzdWIiOiJ4In0.c2ln").unwrap(), "k1");
    assert_eq!(
        token_key_id("eyJhbGciOiJSUzI1NiJ9.eyJzdWIiOiJ4In0.c2ln").unwrap_err(),
        Error::InvalidToken("no kid in header".into())
    );
    assert!(matches!(token_key_id("garbage"), Err(Error::InvalidToken(m)) if m.starts_with("header: ")));
    assert!(check_jwk("AQAB", "AQAB").is_ok());
    assert!(matches!(check_jwk("!!", "AQAB"), Err(Error::OAuth(m)) if m.starts_with("invalid jwk: ")));
    assert!(matches!(
        open_google_token("eyJhbGciOiJSUzI1NiIsImtpZCI6ImsxIn0.eyJzdWIiOiJ4In0.c2ln", "AQAB", "AQAB"),
        Err(Error::InvalidToken(_))
    ));
}

#[test]
fn session_claims_at_a_given_time() {
    let id = Identity { email: "a@x".into(), name: None, picture: None };
    let c = session_claims_at(&id, 1_000, 600).unwrap();
    assert_eq!((c.iat, c.exp), (1_000, 1_600));
    assert_eq!(c.iss, SESSION_ISSUER);
    assert!(session_claims_at(&id, i64::MAX - 5, 10).is_none());
    assert!(session_claims_at(&id, i64::MIN + 5, -10).is_none());
}
