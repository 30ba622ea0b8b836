use vstd::prelude::*;

use argon2::password_hash::rand_core::OsRng;
use argon2::password_hash::{PasswordHash, PasswordHasher, PasswordVerifier, SaltString};
use argon2::Argon2;

use crate::auth::error::Error;
use vstd::utf8::encode_utf8;

verus! {

/// Whether argon2's `PasswordHash::new` accepts `hash` as a PHC string.
pub uninterp spec fn phc_parses(hash: Seq<char>) -> bool;

/// Whether `Argon2::default().verify_password` accepts `password` against
/// the parsed PHC string `hash`.
pub uninterp spec fn argon2_accepts(password: Seq<char>, hash: Seq<char>) -> bool;

/// argon2: a fresh random salt (`SaltString::generate(&mut OsRng)`), then
/// `Argon2::default().hash_password`, as PHC text. With the default
/// parameters and a generated salt the only input check that can fail is
/// the password's length: more than `u32::MAX` bytes is refused. The salt
/// is random, so of a success only this is stated: the text starts
/// `$argon2id$` (the default algorithm is Argon2id and the PHC text starts
/// `$` and the algorithm's name), it parses again, and verifying the same
/// password against it recomputes the same output with the salt and
/// parameters it carries, so it is accepted. The error message is not
/// stated.
#[verifier::external_body]
fn argon2_hash(password: &str) -> (r: Result<String, String>)
    ensures
        r is Ok <==> encode_utf8(password@).len() <= 0xFFFF_FFFF,
        r is Ok ==> {
            let h = r->Ok_0@;
            &&& h.len() >= 10
            &&& h.subrange(0, 10) == "$argon2id$"@
            &&& phc_parses(h)
            &&& argon2_accepts(password@, h)
        },
{
    let salt = SaltString::generate(&mut OsRng);
    match Argon2::default().hash_password(password.as_bytes(), &salt) {
        Ok(h) => Ok(h.to_string()),
        Err(e) => Err(e.to_string()),
    }
}

/// argon2: `PasswordHash::new(hash)`, then, where it parses,
/// `Argon2::default().verify_password`. `Err` carries the parse error's
/// message (not stated); `Ok(b)` tells whether the password was accepted.
/// The parser refuses empty text and text whose first `$`-separated field
/// is not empty, that is, text that does not start with `$`.
#[verifier::external_body]
fn argon2_verify(password: &str, hash: &str) -> (r: Result<bool, String>)
    ensures
        r is Err <==> !phc_parses(hash@),
        (hash@.len() == 0 || hash@[0] != '$') ==> r is Err,
        r is Ok ==> r->Ok_0 == argon2_accepts(password@, hash@),
{
    let parsed = match PasswordHash::new(hash) {
        Ok(p) => p,
        Err(e) => return Err(e.to_string()),
    };
    Ok(Argon2::default().verify_password(password.as_bytes(), &parsed).is_ok())
}

/// Hash `password` with Argon2id using a fresh random salt. Returns a
/// PHC-format string (`$argon2id$v=19$m=...$...`) safe to store. Only a
/// password longer than `u32::MAX` bytes is refused.
pub fn hash_password(password: &str) -> (r: Result<String, Error>)
    ensures
        r is Ok <==> encode_utf8(password@).len() <= 0xFFFF_FFFF,
        match r {
            Ok(h) => {
                &&& h@.len() >= 10
                &&& h@.subrange(0, 10) == "$argon2id$"@
                &&& phc_parses(h@)
                &&& argon2_accepts(password@, h@)
            },
            Err(e) => e is PasswordHash,
        },
{
    match argon2_hash(password) {
        Ok(h) => Ok(h),
        Err(m) => Err(Error::PasswordHash(m)),
    }
}

/// The outcome of checking `password` against the stored `hash`: a
/// malformed hash is a `PasswordHash` error, a wrong password
/// `PasswordMismatch`.
pub open spec fn password_verdict(password: Seq<char>, hash: Seq<char>, r: Result<(), Error>) -> bool {
    if !phc_parses(hash) {
        r is Err && r->Err_0 is PasswordHash
    } else if argon2_accepts(password, hash) {
        r is Ok
    } else {
        r == Err::<(), Error>(Error::PasswordMismatch)
    }
}

/// Verify `password` against the stored PHC `hash`. Returns `Ok(())` on
/// match, `Err(PasswordMismatch)` on mismatch, `Err(PasswordHash(_))` on a
/// malformed hash.
pub fn verify_password(password: &str, hash: &str) -> (r: Result<(), Error>)
    ensures
        password_verdict(password@, hash@, r),
        (hash@.len() == 0 || hash@[0] != '$') ==> (r is Err && r->Err_0 is PasswordHash),
{
    match argon2_verify(password, hash) {
        Err(m) => Err(Error::PasswordHash(m)),
        Ok(true) => Ok(()),
        Ok(false) => Err(Error::PasswordMismatch),
    }
}

/// Law: a password checks out against any hash made of it.
pub proof fn lemma_hash_then_verify(password: Seq<char>, hash: Seq<char>, r: Result<(), Error>)
    requires
        phc_parses(hash),
        argon2_accepts(password, hash),
        password_verdict(password, hash, r),
    ensures
        r is Ok,
{
}

} // verus!
