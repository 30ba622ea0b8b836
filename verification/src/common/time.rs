use vstd::prelude::*;

use chrono::Datelike;

verus! {

/// An instant in UTC, with the calendar fields and the RFC 3339 text that
/// the ledger reads from it. Values come from chrono (the database layer or
/// the clock), which fills every field from the same instant.
#[derive(Debug)]
pub struct Timestamp {
    /// Seconds since the Unix epoch.
    pub secs: i64,
    /// Nanoseconds past `secs`.
    pub nanos: u32,
    /// Calendar year in UTC.
    pub year: i32,
    /// Calendar month in UTC, 1..=12.
    pub month: u8,
    /// RFC 3339 text of the instant.
    pub rfc3339: String,
}

impl Clone for Timestamp {
    fn clone(&self) -> (r: Timestamp)
        ensures
            r == *self,
    {
        Timestamp {
            secs: self.secs,
            nanos: self.nanos,
            year: self.year,
            month: self.month,
            rfc3339: self.rfc3339.clone(),
        }
    }
}

impl Timestamp {
    pub open spec fn well_formed(&self) -> bool {
        1 <= self.month <= 12
    }

    /// The instant as nanoseconds since the epoch.
    pub open spec fn total_nanos(&self) -> int {
        self.secs * 1_000_000_000 + self.nanos
    }

    /// chrono: `Utc::now()`, with its fields. chrono's months are 1..=12;
    /// which instant it is depends on the clock and is not stated.
    #[verifier::external_body]
    pub(crate) fn now() -> (t: Timestamp)
        ensures
            t.well_formed(),
    {
        let now = chrono::Utc::now();
        Timestamp {
            secs: now.timestamp(),
            nanos: now.timestamp_subsec_nanos(),
            year: now.year(),
            month: now.month() as u8,
            rfc3339: now.to_rfc3339(),
        }
    }

    /// Whether `self` is strictly earlier than `other` (seconds, then
    /// nanoseconds).
    pub fn earlier_than(&self, other: &Timestamp) -> (b: bool)
        ensures
            b == (self.secs < other.secs || (self.secs == other.secs && self.nanos < other.nanos)),
    {
        self.secs < other.secs || (self.secs == other.secs && self.nanos < other.nanos)
    }

    /// Whether at least `secs` seconds have passed from `earlier` to `self`.
    pub fn at_least_after(&self, earlier: &Timestamp, secs: i64) -> (b: bool)
        requires
            secs >= 0,
        ensures
            b == (self.secs - earlier.secs > secs || (self.secs - earlier.secs == secs
                && self.nanos >= earlier.nanos)),
    {
        let d: i128 = self.secs as i128 - earlier.secs as i128;
        d > secs as i128 || (d == secs as i128 && self.nanos >= earlier.nanos)
    }
}

/// Text chrono gives for a Unix time as `"%Y-%m-%d %H:%M UTC"`, or `None`
/// when the time is out of chrono's range.
pub uninterp spec fn utc_minute_text(secs: int) -> Option<Seq<char>>;

/// chrono: `DateTime::<Utc>::from_timestamp(secs, 0)` formatted with
/// `"%Y-%m-%d %H:%M UTC"`; `None` when chrono has no such instant. The text
/// is a function of `secs` alone.
#[verifier::external_body]
pub(crate) fn format_utc_minute(secs: i64) -> (r: Option<String>)
    ensures
        match (r, utc_minute_text(secs as int)) {
            (Some(s), Some(t)) => s@ == t,
            (None, None) => true,
            _ => false,
        },
{
    match chrono::DateTime::<chrono::Utc>::from_timestamp(secs, 0) {
        Some(dt) => Some(dt.format("%Y-%m-%d %H:%M UTC").to_string()),
        None => None,
    }
}

} // verus!
