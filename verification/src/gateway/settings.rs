use vstd::prelude::*;

use crate::common::domain::{cadence_from_name, parse_tz, period_str, tz_known, Cadence, Period};
use crate::gateway::http::{api_error, ApiError, BAD_REQUEST};
use crate::ledger::types::{TenantSettings, UpdateSettings};
use crate::text::{trim, trim_string};

verus! {

/// A venture's settings as the API shows them, with the period that is
/// current now (empty when the stored timezone or cadence does not parse).
#[derive(Debug)]
pub struct SettingsView {
    pub display_name: String,
    pub timezone: String,
    pub currency: String,
    pub cadence: String,
    pub dues_amount_cents: i64,
    pub current_period: String,
}

pub fn settings_view(s: TenantSettings) -> (v: SettingsView)
    ensures
        v.display_name == s.display_name,
        v.timezone == s.timezone,
        v.currency == s.currency,
        v.cadence == s.cadence,
        v.dues_amount_cents == s.dues_amount_cents,
        !(tz_known(s.timezone@) && cadence_from_name(s.cadence@) is Some) ==> v.current_period@.len()
            == 0,
        tz_known(s.timezone@) && cadence_from_name(s.cadence@) is Some ==> exists|p: Period|
            #![trigger period_str(p)]
            p.well_formed() && Some(p.spec_cadence()) == cadence_from_name(s.cadence@)
                && v.current_period@ == period_str(p),
{
    let current_period = match (parse_tz(s.timezone.as_str()), Cadence::parse(s.cadence.as_str())) {
        (Ok(tz), Ok(cadence)) => Period::current_in(tz, cadence).to_string(),
        _ => String::new(),
    };
    SettingsView {
        display_name: s.display_name,
        timezone: s.timezone,
        currency: s.currency,
        cadence: s.cadence,
        dues_amount_cents: s.dues_amount_cents,
        current_period,
    }
}

/// Validate a settings patch: dues may not be negative and a display name,
/// if given, may not be blank (it is stored trimmed). Gives the patch for
/// the ledger, with the cadence by its wire name.
pub fn validate_settings_patch(
    display_name: Option<String>,
    timezone: Option<String>,
    currency: Option<String>,
    cadence: Option<Cadence>,
    dues_amount_cents: Option<i64>,
) -> (r: Result<UpdateSettings, ApiError>)
    ensures
        dues_amount_cents is Some && dues_amount_cents->Some_0 < 0 ==> r is Err && r->Err_0.status
            == BAD_REQUEST && r->Err_0.message@ == "dues_amount_cents must be >= 0"@,
        !(dues_amount_cents is Some && dues_amount_cents->Some_0 < 0) && display_name is Some && trim(
            display_name->Some_0@,
        ).len() == 0 ==> r is Err && r->Err_0.status == BAD_REQUEST && r->Err_0.message@
            == "display_name cannot be empty"@,
        !(dues_amount_cents is Some && dues_amount_cents->Some_0 < 0) && !(display_name is Some
            && trim(display_name->Some_0@).len() == 0) ==> r is Ok && {
            let u = r->Ok_0;
            &&& (display_name is None <==> u.display_name is None)
            &&& (display_name is Some ==> u.display_name->Some_0@ == trim(display_name->Some_0@))
            &&& u.timezone == timezone
            &&& u.currency == currency
            &&& (cadence is None <==> u.cadence is None)
            &&& (cadence is Some ==> Some(cadence->Some_0) == cadence_from_name(u.cadence->Some_0@))
            &&& u.dues_amount_cents == dues_amount_cents
        },
{
    if let Some(amt) = dues_amount_cents {
        if amt < 0 {
            return Err(api_error(BAD_REQUEST, "dues_amount_cents must be >= 0"));
        }
    }
    let name = match display_name {
        Some(n) => {
            let t = trim_string(n.as_str());
            if t.as_str().is_empty() {
                return Err(api_error(BAD_REQUEST, "display_name cannot be empty"));
            }
            Some(t)
        },
        None => None,
    };
    let cadence_name = match cadence {
        Some(c) => {
            proof {
                crate::common::domain::lemma_cadence_round_trip(c);
            }
            Some(c.as_str().to_string())
        },
        None => None,
    };
    Ok(UpdateSettings { display_name: name, timezone, currency, cadence: cadence_name, dues_amount_cents })
}

} // verus!
