use vstd::prelude::*;

use crate::auth::google::GoogleClaims;
use crate::auth::password::{argon2_accepts, phc_parses, verify_password};
use crate::gateway::http::{
    api_error, api_error_owned, ApiError, BAD_REQUEST, CONFLICT, INTERNAL_SERVER_ERROR,
    UNAUTHORIZED,
};
use crate::ledger::error::{error_message as ledger_message, Error as LedgerError};
use crate::ledger::types::{UpsertUser, UserRecord};
use crate::text::{
    chars_of, find_char, find_from, lemma_find_from, slice_chars, to_lowercase, trim, trim_string,
    unicode_lowercase,
};

verus! {

/// Minimum password length, in bytes.
pub const MIN_PASSWORD_LEN: usize = 8;

/// An email as the ledger keys it: trimmed and lowercased.
pub fn normalize_email(s: &str) -> (r: String)
    ensures
        r@ == unicode_lowercase(trim(s@)),
        vstd::utf8::is_ascii_chars(trim(s@)) ==> r@ == crate::text::ascii_lower_seq(trim(s@)),
{
    let t = trim_string(s);
    to_lowercase(t.as_str())
}

/// `local@domain`, with something before the first `@`, and a domain that
/// has a `.` and neither starts nor ends with one.
pub open spec fn email_shape(s: Seq<char>) -> bool {
    let i = find_from(s, '@', 0);
    &&& i > 0
    &&& i + 1 < s.len()
    &&& {
        let d = s.subrange(i + 1, s.len() as int);
        find_from(d, '.', 0) >= 0 && d[0] != '.' && d[d.len() - 1] != '.'
    }
}

/// Whether `v` has the shape of an email address.
pub fn chars_email_shape(v: &Vec<char>) -> (b: bool)
    ensures
        b == email_shape(v@),
{
    proof {
        lemma_find_from(v@, '@', 0);
    }
    match find_char(v, '@') {
        Some(i) => {
            if i > 0 && i < v.len() - 1 {
                let d = slice_chars(v, i + 1, v.len());
                proof {
                    lemma_find_from(d@, '.', 0);
                }
                find_char(&d, '.').is_some() && d[0] != '.' && d[d.len() - 1] != '.'
            } else {
                false
            }
        },
        None => false,
    }
}

/// Whether `s` (already normalized) has the shape of an email address.
pub fn valid_email(s: &str) -> (b: bool)
    ensures
        b == email_shape(s@),
{
    let v = chars_of(s);
    chars_email_shape(&v)
}

/// Registration input: a well-formed email and a password of at least
/// `MIN_PASSWORD_LEN` bytes.
pub fn check_registration(email: &str, password: &str) -> (r: Result<(), ApiError>)
    ensures
        !email_shape(email@) ==> r is Err && r->Err_0.status == BAD_REQUEST && r->Err_0.message@
            == "invalid email"@,
        email_shape(email@) && password.len() < 8 ==> r is Err && r->Err_0.status == BAD_REQUEST
            && r->Err_0.message@ == "password must be at least 8 characters"@,
        email_shape(email@) && password.len() >= 8 ==> r is Ok,
{
    if !valid_email(email) {
        return Err(api_error(BAD_REQUEST, "invalid email"));
    }
    if password.len() < MIN_PASSWORD_LEN {
        return Err(api_error(BAD_REQUEST, "password must be at least 8 characters"));
    }
    Ok(())
}

/// A failed password registration: an existing account is a conflict.
pub fn register_error(e: LedgerError) -> (r: ApiError)
    ensures
        e is UserExists ==> r.status == CONFLICT && r.message@
            == "an account with that email already exists — try signing in"@,
        !(e is UserExists) ==> r.status == INTERNAL_SERVER_ERROR && r.message@ == ledger_message(e),
{
    match e {
        LedgerError::UserExists(_) => api_error(
            CONFLICT,
            "an account with that email already exists — try signing in",
        ),
        other => api_error_owned(INTERNAL_SERVER_ERROR, other.to_string()),
    }
}

/// Sign-in input: both fields are required.
pub fn check_login_input(email: &str, password: &str) -> (r: Result<(), ApiError>)
    ensures
        r is Ok <==> email@.len() > 0 && password@.len() > 0,
        r is Err ==> r->Err_0.status == BAD_REQUEST && r->Err_0.message@
            == "email and password required"@,
{
    if email.is_empty() || password.is_empty() {
        return Err(api_error(BAD_REQUEST, "email and password required"));
    }
    Ok(())
}

/// Check a sign-in against the user row found for the email. No row and a
/// wrong password get the same answer, so the response does not tell which
/// half failed; an account without a password is told to use Google.
pub fn authenticate(password: &str, user: Option<UserRecord>) -> (r: Result<UserRecord, ApiError>)
    ensures
        match user {
            None => r is Err && r->Err_0.status == UNAUTHORIZED && r->Err_0.message@
                == "invalid email or password"@,
            Some(u) => match u.password_hash {
                None => r is Err && r->Err_0.status == UNAUTHORIZED && r->Err_0.message@
                    == "this account doesn't have a password — use Google sign-in"@,
                Some(h) => if phc_parses(h@) && argon2_accepts(password@, h@) {
                    r == Ok::<UserRecord, ApiError>(u)
                } else {
                    r is Err && r->Err_0.status == UNAUTHORIZED && r->Err_0.message@
                        == "invalid email or password"@
                },
            },
        },
{
    let u = match user {
        None => return Err(api_error(UNAUTHORIZED, "invalid email or password")),
        Some(u) => u,
    };
    let ok = match &u.password_hash {
        None => {
            return Err(
                api_error(UNAUTHORIZED, "this account doesn't have a password — use Google sign-in"),
            )
        },
        Some(h) => verify_password(password, h.as_str()).is_ok(),
    };
    if !ok {
        return Err(api_error(UNAUTHORIZED, "invalid email or password"));
    }
    Ok(u)
}

fn clone_opt(o: &Option<String>) -> (r: Option<String>)
    ensures
        r == *o,
{
    match o {
        Some(s) => Some(s.clone()),
        None => None,
    }
}

/// The user row to upsert for a verified Google identity.
pub fn upsert_from_claims(c: &GoogleClaims) -> (u: UpsertUser)
    ensures
        u.email == c.email,
        u.google_sub == c.sub,
        u.display_name == c.name,
{
    UpsertUser { email: c.email.clone(), google_sub: c.sub.clone(), display_name: clone_opt(&c.name) }
}

/// The signed-in user as the API shows it; `sub` is the email.
#[derive(Debug)]
pub struct AuthUser {
    pub sub: String,
    pub email: String,
    pub name: Option<String>,
    pub picture: Option<String>,
}

pub fn auth_user(email: String, name: Option<String>, picture: Option<String>) -> (a: AuthUser)
    ensures
        a.sub == email,
        a.email == email,
        a.name == name,
        a.picture == picture,
{
    AuthUser { sub: email.clone(), email, name, picture }
}

} // verus!
