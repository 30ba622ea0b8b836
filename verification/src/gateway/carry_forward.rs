use vstd::prelude::*;

use crate::gateway::http::{
    api_error, api_error_owned, non_empty_trimmed, trimmed_opt, ApiError, BAD_REQUEST, CONFLICT,
    INTERNAL_SERVER_ERROR,
};
use crate::ledger::error::{error_message as ledger_message, Error as LedgerError};
use crate::ledger::types::{CarryForwardRecord, NewCarryForward};
use crate::text::{char_is_digit, chars_lt, chars_of, is_digit, seq_lt};

verus! {

/// The carry-forward seed as the API shows it.
#[derive(Debug)]
pub struct CarryForwardView {
    pub from_date: String,
    pub to_date: String,
    pub amount_cents: i64,
    pub note: Option<String>,
    pub recorded_by: String,
    pub recorded_at: String,
}

pub fn view(rec: CarryForwardRecord) -> (v: CarryForwardView)
    ensures
        v.from_date == rec.from_date,
        v.to_date == rec.to_date,
        v.amount_cents == rec.amount_cents,
        v.note == rec.note,
        v.recorded_by == rec.recorded_by,
        v.recorded_at@ == rec.recorded_at.rfc3339@,
{
    CarryForwardView {
        from_date: rec.from_date,
        to_date: rec.to_date,
        amount_cents: rec.amount_cents,
        note: rec.note,
        recorded_by: rec.recorded_by,
        recorded_at: rec.recorded_at.rfc3339,
    }
}

/// `YYYY-MM-DD`: ten characters, `-` at positions 4 and 7, ASCII digits
/// elsewhere (the shape only; the database checks the calendar).
pub open spec fn iso_date_shape(s: Seq<char>) -> bool {
    &&& s.len() == 10
    &&& forall|i: int| 0 <= i < 10 ==> if i == 4 || i == 7 {
        #[trigger] s[i] == '-'
    } else {
        is_digit(s[i])
    }
}

pub fn is_iso_date(s: &str) -> (b: bool)
    ensures
        b == iso_date_shape(s@),
{
    let v = chars_of(s);
    if v.len() != 10 {
        return false;
    }
    let mut i: usize = 0;
    while i < 10
        invariant
            i <= 10,
            v@ == s@,
            v.len() == 10,
            forall|j: int| 0 <= j < i ==> if j == 4 || j == 7 {
                #[trigger] v@[j] == '-'
            } else {
                is_digit(v@[j])
            },
        decreases 10 - i,
    {
        if i == 4 || i == 7 {
            if v[i] != '-' {
                return false;
            }
        } else if !char_is_digit(v[i]) {
            return false;
        }
        i += 1;
    }
    true
}

/// Validate a carry-forward request: ISO dates in order, a positive
/// amount; a blank note counts as none. Gives the row to record.
pub fn validate_carry_forward(
    from_date: String,
    to_date: String,
    amount_cents: i64,
    note: Option<String>,
    recorded_by: String,
) -> (r: Result<NewCarryForward, ApiError>)
    ensures
        !iso_date_shape(from_date@) || !iso_date_shape(to_date@) ==> r is Err && r->Err_0.status
            == BAD_REQUEST && r->Err_0.message@
            == "from_date and to_date must be ISO calendar dates (YYYY-MM-DD)"@,
        iso_date_shape(from_date@) && iso_date_shape(to_date@) && seq_lt(to_date@, from_date@) ==> r is Err
            && r->Err_0.status == BAD_REQUEST && r->Err_0.message@
            == "from_date must be on or before to_date"@,
        iso_date_shape(from_date@) && iso_date_shape(to_date@) && !seq_lt(to_date@, from_date@)
            && amount_cents <= 0 ==> r is Err && r->Err_0.status == BAD_REQUEST && r->Err_0.message@
            == "amount_cents must be greater than 0"@,
        iso_date_shape(from_date@) && iso_date_shape(to_date@) && !seq_lt(to_date@, from_date@)
            && amount_cents > 0 ==> r is Ok && {
            let n = r->Ok_0;
            &&& n.from_date == from_date
            &&& n.to_date == to_date
            &&& n.amount_cents == amount_cents
            &&& n.recorded_by == recorded_by
            &&& match note {
                Some(t) => match n.note {
                    Some(u) => non_empty_trimmed(t@) == Some(u@),
                    None => non_empty_trimmed(t@) is None,
                },
                None => n.note is None,
            }
        },
{
    if !is_iso_date(from_date.as_str()) || !is_iso_date(to_date.as_str()) {
        return Err(
            api_error(BAD_REQUEST, "from_date and to_date must be ISO calendar dates (YYYY-MM-DD)"),
        );
    }
    let f = chars_of(from_date.as_str());
    let t = chars_of(to_date.as_str());
    if chars_lt(&t, &f) {
        return Err(api_error(BAD_REQUEST, "from_date must be on or before to_date"));
    }
    if amount_cents <= 0 {
        return Err(api_error(BAD_REQUEST, "amount_cents must be greater than 0"));
    }
    let note = trimmed_opt(&note);
    Ok(NewCarryForward { from_date, to_date, amount_cents, note, recorded_by })
}

/// A failed seed write: a seed that is already set is a conflict.
pub fn set_carry_forward_error(e: LedgerError) -> (r: ApiError)
    ensures
        e is CarryForwardExists ==> r.status == CONFLICT && r.message@
            == "carry-forward seed is already set for this venture"@,
        !(e is CarryForwardExists) ==> r.status == INTERNAL_SERVER_ERROR && r.message@
            == ledger_message(e),
{
    match e {
        LedgerError::CarryForwardExists => api_error(
            CONFLICT,
            "carry-forward seed is already set for this venture",
        ),
        other => api_error_owned(INTERNAL_SERVER_ERROR, other.to_string()),
    }
}

} // verus!
