use vstd::prelude::*;

use crate::common::domain::Role;
use crate::common::time::Timestamp;
use crate::gateway::http::{
    api_error, api_error_owned, ApiError, BAD_REQUEST, CONFLICT, INTERNAL_SERVER_ERROR, NOT_FOUND,
};
use crate::gateway::sign_in::{chars_email_shape, email_shape};
use crate::ledger::error::{error_message as ledger_message, Error as LedgerError};
use crate::ledger::types::InviteRecord;
use crate::text::{trim, trim_chars};

verus! {

/// The role an invite gets when the request names none.
pub fn default_role() -> (r: Role)
    ensures
        r == Role::Member,
{
    Role::Member
}

/// The state of an invite: a revoked invite is revoked even if it was
/// accepted before; otherwise accepted, otherwise pending.
pub open spec fn invite_state(rec: InviteRecord) -> Seq<char> {
    if rec.revoked_at is Some {
        "revoked"@
    } else if rec.accepted_at is Some {
        "accepted"@
    } else {
        "pending"@
    }
}

pub fn invite_status(rec: &InviteRecord) -> (s: &'static str)
    ensures
        s@ == invite_state(*rec),
{
    if rec.revoked_at.is_some() {
        "revoked"
    } else if rec.accepted_at.is_some() {
        "accepted"
    } else {
        "pending"
    }
}

/// An invite as the API shows it; times as RFC 3339 text.
#[derive(Debug)]
pub struct InviteView {
    pub id: String,
    pub tenant_slug: String,
    pub email: String,
    pub role: String,
    pub status: &'static str,
    pub created_at: String,
    pub accepted_at: Option<String>,
    pub revoked_at: Option<String>,
}

pub open spec fn time_text(t: Option<Timestamp>) -> Option<Seq<char>> {
    match t {
        Some(t) => Some(t.rfc3339@),
        None => None,
    }
}

fn rfc3339_of(t: &Option<Timestamp>) -> (r: Option<String>)
    ensures
        match r {
            Some(s) => time_text(*t) == Some(s@),
            None => t is None,
        },
{
    match t {
        Some(t) => Some(t.rfc3339.clone()),
        None => None,
    }
}

pub fn invite_view(rec: InviteRecord) -> (v: InviteView)
    ensures
        v.id == rec.id.key,
        v.tenant_slug == rec.tenant_slug,
        v.email == rec.email,
        v.role == rec.role,
        v.status@ == invite_state(rec),
        v.created_at@ == rec.created_at.rfc3339@,
        v.accepted_at is Some ==> time_text(rec.accepted_at) == Some(v.accepted_at->Some_0@),
        v.accepted_at is None <==> rec.accepted_at is None,
        v.revoked_at is Some ==> time_text(rec.revoked_at) == Some(v.revoked_at->Some_0@),
        v.revoked_at is None <==> rec.revoked_at is None,
{
    let status = invite_status(&rec);
    let accepted_at = rfc3339_of(&rec.accepted_at);
    let revoked_at = rfc3339_of(&rec.revoked_at);
    InviteView {
        id: rec.id.key,
        tenant_slug: rec.tenant_slug,
        email: rec.email,
        role: rec.role,
        status,
        created_at: rec.created_at.rfc3339,
        accepted_at,
        revoked_at,
    }
}

/// Whether an invitee email, trimmed, has the shape of an email address.
pub fn valid_email(s: &str) -> (b: bool)
    ensures
        b == email_shape(trim(s@)),
{
    let v = trim_chars(s);
    chars_email_shape(&v)
}

/// A failed invite creation: an active invite for the email is a conflict.
pub fn create_invite_error(e: LedgerError) -> (r: ApiError)
    ensures
        e is InviteExists ==> r.status == CONFLICT && r.message@
            == "an active invite already exists for this email"@,
        !(e is InviteExists) ==> r.status == INTERNAL_SERVER_ERROR && r.message@ == ledger_message(e),
{
    match e {
        LedgerError::InviteExists { .. } => api_error(
            CONFLICT,
            "an active invite already exists for this email",
        ),
        other => api_error_owned(INTERNAL_SERVER_ERROR, other.to_string()),
    }
}

/// The invite key of a path must not be empty.
pub fn require_invite_key(key: &str) -> (r: Result<(), ApiError>)
    ensures
        r is Ok <==> key@.len() > 0,
        r is Err ==> r->Err_0.status == BAD_REQUEST && r->Err_0.message@ == "invite key required"@,
{
    if key.is_empty() {
        return Err(api_error(BAD_REQUEST, "invite key required"));
    }
    Ok(())
}

/// A failed permanent delete: nothing deletable is a 404.
pub fn delete_invite_error(e: LedgerError) -> (r: ApiError)
    ensures
        e is NotFound ==> r.status == NOT_FOUND && r.message@
            == "invite not found, already accepted, or in another tenant"@,
        !(e is NotFound) ==> r.status == INTERNAL_SERVER_ERROR && r.message@ == ledger_message(e),
{
    match e {
        LedgerError::NotFound => api_error(
            NOT_FOUND,
            "invite not found, already accepted, or in another tenant",
        ),
        other => api_error_owned(INTERNAL_SERVER_ERROR, other.to_string()),
    }
}

/// A failed revoke: nothing revocable is a 404.
pub fn revoke_invite_error(e: LedgerError) -> (r: ApiError)
    ensures
        e is NotFound ==> r.status == NOT_FOUND && r.message@ == "invite not found or already revoked"@,
        !(e is NotFound) ==> r.status == INTERNAL_SERVER_ERROR && r.message@ == ledger_message(e),
{
    match e {
        LedgerError::NotFound => api_error(NOT_FOUND, "invite not found or already revoked"),
        other => api_error_owned(INTERNAL_SERVER_ERROR, other.to_string()),
    }
}

/// The venture name an invite email shows: the directory's display name,
/// or the slug when there is none.
pub fn venture_name_or_slug(display_name: Option<String>, slug: &String) -> (r: String)
    ensures
        display_name is Some ==> r == display_name->Some_0,
        display_name is None ==> r == *slug,
{
    match display_name {
        Some(n) => n,
        None => slug.clone(),
    }
}

} // verus!
