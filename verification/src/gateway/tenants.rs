use vstd::prelude::*;

use crate::common::domain::{valid_slug, Cadence, TenantSlug};
use crate::gateway::http::{
    api_error, api_error_owned, ApiError, BAD_REQUEST, CONFLICT, INTERNAL_SERVER_ERROR,
};
use crate::ledger::error::{error_message as ledger_message, Error as LedgerError};
use crate::text::{push_str, string_from_chars, trim, trim_string};

verus! {

/// The cadence of a new venture when the request names none.
pub fn default_cadence() -> (c: Cadence)
    ensures
        c == Cadence::Monthly,
{
    Cadence::Monthly
}

/// Validate a new venture: the slug (trimmed) must be valid, the display
/// name (trimmed) non-empty and the dues not negative. Gives the slug and
/// the trimmed display name.
pub fn validate_new_tenant(slug: &str, display_name: &str, dues_amount_cents: i64) -> (r: Result<
    (TenantSlug, String),
    ApiError,
>)
    ensures
        !valid_slug(trim(slug@)) ==> r is Err && r->Err_0.status == BAD_REQUEST && r->Err_0.message@
            == "invalid tenant slug: "@ + trim(slug@),
        valid_slug(trim(slug@)) && trim(display_name@).len() == 0 ==> r is Err && r->Err_0.status
            == BAD_REQUEST && r->Err_0.message@ == "display_name is required"@,
        valid_slug(trim(slug@)) && trim(display_name@).len() > 0 && dues_amount_cents < 0 ==> r is Err
            && r->Err_0.status == BAD_REQUEST && r->Err_0.message@ == "dues_amount_cents must be >= 0"@,
        valid_slug(trim(slug@)) && trim(display_name@).len() > 0 && dues_amount_cents >= 0 ==> r is Ok
            && r->Ok_0.0.view() == trim(slug@) && r->Ok_0.1@ == trim(display_name@),
{
    let s = trim_string(slug);
    let t = match TenantSlug::new(s.as_str()) {
        Ok(t) => t,
        Err(e) => return Err(api_error_owned(BAD_REQUEST, e.to_string())),
    };
    let name = trim_string(display_name);
    if name.as_str().is_empty() {
        return Err(api_error(BAD_REQUEST, "display_name is required"));
    }
    if dues_amount_cents < 0 {
        return Err(api_error(BAD_REQUEST, "dues_amount_cents must be >= 0"));
    }
    Ok((t, name))
}

/// A failed provisioning: an existing tenant is a conflict.
pub fn create_tenant_error(e: LedgerError) -> (r: ApiError)
    ensures
        match e {
            LedgerError::TenantExists(s) => r.status == CONFLICT && r.message@ == "tenant '"@ + s@
                + "' already exists"@,
            other => r.status == INTERNAL_SERVER_ERROR && r.message@ == ledger_message(other),
        },
{
    match e {
        LedgerError::TenantExists(s) => {
            let mut v: Vec<char> = Vec::new();
            push_str(&mut v, "tenant '");
            push_str(&mut v, s.as_str());
            push_str(&mut v, "' already exists");
            api_error_owned(CONFLICT, string_from_chars(&v))
        },
        other => api_error_owned(INTERNAL_SERVER_ERROR, other.to_string()),
    }
}

} // verus!
