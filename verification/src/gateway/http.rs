use vstd::prelude::*;

use crate::common::domain::{valid_slug, TenantSlug};
use crate::ledger::types::MembershipRecord;
use crate::text::{chars_of, slice_chars, starts_with, string_from_chars};

verus! {

pub const CREATED: u16 = 201;
pub const BAD_REQUEST: u16 = 400;
pub const UNAUTHORIZED: u16 = 401;
pub const FORBIDDEN: u16 = 403;
pub const NOT_FOUND: u16 = 404;
pub const CONFLICT: u16 = 409;
pub const PAYLOAD_TOO_LARGE: u16 = 413;
pub const UNSUPPORTED_MEDIA_TYPE: u16 = 415;
pub const UNPROCESSABLE_ENTITY: u16 = 422;
pub const INTERNAL_SERVER_ERROR: u16 = 500;
pub const BAD_GATEWAY: u16 = 502;

/// A refused request: the HTTP status and the message of the
/// `{ ok: false, error }` body.
#[derive(Debug, Clone, PartialEq, Eq)]
pub struct ApiError {
    pub status: u16,
    pub message: String,
}

/// A refusal with a fixed message.
pub fn api_error(status: u16, message: &str) -> (e: ApiError)
    ensures
        e.status == status,
        e.message@ == message@,
{
    ApiError { status, message: message.to_string() }
}

/// A refusal carrying an error's message.
pub fn api_error_owned(status: u16, message: String) -> (e: ApiError)
    ensures
        e.status == status,
        e.message == message,
{
    ApiError { status, message }
}

/// The token of an `Authorization: Bearer <token>` header value.
pub open spec fn bearer_of(header: Option<Seq<char>>) -> Option<Seq<char>> {
    match header {
        Some(h) => if h.len() >= 7 && h.subrange(0, 7) == "Bearer "@ {
            Some(h.subrange(7, h.len() as int))
        } else {
            None
        },
        None => None,
    }
}

/// The bearer token of the `Authorization` header's text, if the header is
/// there and starts with `Bearer `.
pub fn extract_bearer(authorization: Option<&str>) -> (r: Option<String>)
    ensures
        match authorization {
            Some(h) => match r {
                Some(t) => bearer_of(Some(h@)) == Some(t@),
                None => bearer_of(Some(h@)) is None,
            },
            None => r is None,
        },
{
    match authorization {
        None => None,
        Some(h) => {
            let v = chars_of(h);
            let p = chars_of("Bearer ");
            proof {
                reveal_strlit("Bearer ");
            }
            if starts_with(&v, &p) {
                let t = slice_chars(&v, 7, v.len());
                Some(string_from_chars(&t))
            } else {
                None
            }
        },
    }
}

/// The refusal for a request without a bearer token.
pub fn missing_token() -> (e: ApiError)
    ensures
        e.status == UNAUTHORIZED,
        e.message@ == "missing bearer token"@,
{
    api_error(UNAUTHORIZED, "missing bearer token")
}

/// The role of the first membership in venture `slug`, if any.
pub open spec fn role_in(ms: Seq<MembershipRecord>, slug: Seq<char>) -> Option<String>
    decreases ms.len(),
{
    if ms.len() == 0 {
        None
    } else if ms[0].tenant_slug@ == slug {
        Some(ms[0].role)
    } else {
        role_in(ms.drop_first(), slug)
    }
}

/// The caller's role in venture `slug`, from their memberships.
pub fn caller_role(memberships: &Vec<MembershipRecord>, slug: &str) -> (r: Option<String>)
    ensures
        r == role_in(memberships@, slug@),
{
    let s = chars_of(slug);
    let mut i: usize = 0;
    proof {
        assert(memberships@.skip(0) =~= memberships@);
    }
    while i < memberships.len()
        invariant
            i <= memberships.len(),
            s@ == slug@,
            role_in(memberships@, slug@) == role_in(memberships@.skip(i as int), slug@),
        decreases memberships.len() - i,
    {
        proof {
            assert(memberships@.skip(i as int).drop_first() =~= memberships@.skip(i + 1));
        }
        let t = chars_of(memberships[i].tenant_slug.as_str());
        if crate::text::chars_eq(&t, &s) {
            return Some(memberships[i].role.clone());
        }
        i += 1;
    }
    None
}

/// Whether the caller is a member of venture `slug`.
pub fn is_member(memberships: &Vec<MembershipRecord>, slug: &str) -> (b: bool)
    ensures
        b == (role_in(memberships@, slug@) is Some),
{
    caller_role(memberships, slug).is_some()
}

/// Gate for member-only reads.
pub fn require_member(memberships: &Vec<MembershipRecord>, slug: &str) -> (r: Result<(), ApiError>)
    ensures
        r is Ok <==> role_in(memberships@, slug@) is Some,
        r is Err ==> r->Err_0.status == FORBIDDEN && r->Err_0.message@
            == "not a member of this venture"@,
{
    if is_member(memberships, slug) {
        Ok(())
    } else {
        Err(api_error(FORBIDDEN, "not a member of this venture"))
    }
}

/// Gate for owner-only changes: a member with another role is told the
/// owner role is required; a non-member that they are not a member.
pub fn require_owner(memberships: &Vec<MembershipRecord>, slug: &str) -> (r: Result<(), ApiError>)
    ensures
        match role_in(memberships@, slug@) {
            Some(role) => if role@ == "owner"@ {
                r is Ok
            } else {
                r is Err && r->Err_0.status == FORBIDDEN && r->Err_0.message@ == "owner role required"@
            },
            None => r is Err && r->Err_0.status == FORBIDDEN && r->Err_0.message@
                == "not a member of this venture"@,
        },
{
    match caller_role(memberships, slug) {
        Some(role) => {
            let v = chars_of(role.as_str());
            if crate::text::chars_eq_str(&v, "owner") {
                Ok(())
            } else {
                Err(api_error(FORBIDDEN, "owner role required"))
            }
        },
        None => Err(api_error(FORBIDDEN, "not a member of this venture")),
    }
}

/// `s` trimmed, or `None` when nothing is left.
pub open spec fn non_empty_trimmed(s: Seq<char>) -> Option<Seq<char>> {
    if crate::text::trim(s).len() == 0 {
        None
    } else {
        Some(crate::text::trim(s))
    }
}

/// An optional free-text field, trimmed; blank counts as absent.
pub fn trimmed_opt(s: &Option<String>) -> (r: Option<String>)
    ensures
        match s {
            Some(t) => match r {
                Some(u) => non_empty_trimmed(t@) == Some(u@),
                None => non_empty_trimmed(t@) is None,
            },
            None => r is None,
        },
{
    match s {
        None => None,
        Some(t) => {
            let w = crate::text::trim_string(t.as_str());
            if w.as_str().is_empty() {
                None
            } else {
                Some(w)
            }
        },
    }
}

/// The tenant slug of a request path; an invalid one is a 400 with the
/// slug error's message.
pub fn parse_slug(slug: &str) -> (r: Result<TenantSlug, ApiError>)
    ensures
        match r {
            Ok(t) => valid_slug(slug@) && t.view() == slug@,
            Err(e) => !valid_slug(slug@) && e.status == BAD_REQUEST && e.message@
                == "invalid tenant slug: "@ + slug@,
        },
{
    match TenantSlug::new(slug) {
        Ok(t) => Ok(t),
        Err(e) => Err(api_error_owned(BAD_REQUEST, e.to_string())),
    }
}

/// Law: the token a client puts in `Authorization: Bearer <token>` is the
/// token the gateway reads from it.
pub proof fn lemma_bearer_round_trip(token: Seq<char>)
    ensures
        bearer_of(Some("Bearer "@ + token)) == Some(token),
{
    reveal_strlit("Bearer ");
    let h = "Bearer "@ + token;
    assert(h.subrange(0, 7) =~= "Bearer "@);
    assert(h.subrange(7, h.len() as int) =~= token);
}

} // verus!
