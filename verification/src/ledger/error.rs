use vstd::prelude::*;

use crate::text::{
    chars_of, contains_str, find_char, find_from, find_sub, find_sub_from, lemma_find_from,
    parse_in_range, parse_signed, push_int, push_str, slice_chars, string_from_chars, trim,
    trim_bounds,
};

verus! {

/// Errors of the ledger.
#[derive(Debug, Clone, PartialEq, Eq)]
pub enum Error {
    /// A database error, by its message.
    Db(String),
    PeriodLocked { period: String },
    DuesCapExceeded { paid_cents: i64, dues_cents: i64 },
    TenantExists(String),
    InviteExists { slug: String, email: String },
    UserExists(String),
    CarryForwardExists,
    NotFound,
    Invariant(String),
}

pub open spec fn error_message(e: Error) -> Seq<char> {
    match e {
        Error::Db(m) => "database: "@ + m@,
        Error::PeriodLocked { period } => "period "@ + period@ + " is locked and cannot be modified"@,
        Error::DuesCapExceeded { paid_cents, dues_cents } => "dues cap exceeded: paid "@
            + crate::text::int_str(paid_cents as int) + " > dues "@ + crate::text::int_str(
            dues_cents as int,
        ) + " (cents)"@,
        Error::TenantExists(s) => "tenant "@ + s@ + " already exists"@,
        Error::InviteExists { slug, email } => "invite already exists for "@ + email@ + " in "@
            + slug@,
        Error::UserExists(e) => "user with email "@ + e@ + " already has a password set"@,
        Error::CarryForwardExists => "carry-forward seed already set for this venture"@,
        Error::NotFound => "not found"@,
        Error::Invariant(m) => "invariant: "@ + m@,
    }
}

impl Error {
    /// The message shown to users (what `Display` printed).
    pub fn to_string(&self) -> (r: String)
        ensures
            r@ == error_message(*self),
    {
        let mut v: Vec<char> = Vec::new();
        match self {
            Error::Db(m) => {
                push_str(&mut v, "database: ");
                push_str(&mut v, m.as_str());
            },
            Error::PeriodLocked { period } => {
                push_str(&mut v, "period ");
                push_str(&mut v, period.as_str());
                push_str(&mut v, " is locked and cannot be modified");
            },
            Error::DuesCapExceeded { paid_cents, dues_cents } => {
                push_str(&mut v, "dues cap exceeded: paid ");
                push_int(&mut v, *paid_cents);
                push_str(&mut v, " > dues ");
                push_int(&mut v, *dues_cents);
                push_str(&mut v, " (cents)");
            },
            Error::TenantExists(s) => {
                push_str(&mut v, "tenant ");
                push_str(&mut v, s.as_str());
                push_str(&mut v, " already exists");
            },
            Error::InviteExists { slug, email } => {
                push_str(&mut v, "invite already exists for ");
                push_str(&mut v, email.as_str());
                push_str(&mut v, " in ");
                push_str(&mut v, slug.as_str());
            },
            Error::UserExists(e) => {
                push_str(&mut v, "user with email ");
                push_str(&mut v, e.as_str());
                push_str(&mut v, " already has a password set");
            },
            Error::CarryForwardExists => {
                push_str(&mut v, "carry-forward seed already set for this venture");
            },
            Error::NotFound => {
                push_str(&mut v, "not found");
            },
            Error::Invariant(m) => {
                push_str(&mut v, "invariant: ");
                push_str(&mut v, m.as_str());
            },
        }
        string_from_chars(&v)
    }
}

/// `msg.split_once(marker).map(|(_, rest)| rest)`.
pub open spec fn after_marker(msg: Seq<char>, marker: Seq<char>) -> Option<Seq<char>> {
    let k = find_sub_from(msg, marker, 0);
    if k < 0 {
        None
    } else {
        Some(msg.subrange(k + marker.len(), msg.len() as int))
    }
}

/// `s.split(c).next()`: the text before the first `c`, or all of `s`.
pub open spec fn first_piece(s: Seq<char>, c: char) -> Seq<char> {
    let k = find_from(s, c, 0);
    if k < 0 {
        s
    } else {
        s.subrange(0, k)
    }
}

/// `s.split(c).nth(1)`: the text between the first and second `c`.
pub open spec fn second_piece(s: Seq<char>, c: char) -> Option<Seq<char>> {
    let k = find_from(s, c, 0);
    if k < 0 {
        None
    } else {
        Some(first_piece(s.subrange(k + 1, s.len() as int), c))
    }
}

/// `piece.map(str::trim).and_then(|s| s.parse().ok()).unwrap_or(0)`.
pub open spec fn cents_or_zero(piece: Option<Seq<char>>) -> int {
    match piece {
        Some(p) => match parse_in_range(trim(p), true, i64::MIN as int, i64::MAX as int) {
            Some(v) => v,
            None => 0,
        },
        None => 0,
    }
}

/// Whether a database message reports the immutable carry-forward seed.
pub open spec fn is_carry_forward_conflict(msg: Seq<char>) -> bool {
    find_sub_from(msg, "carry_forward_immutable"@, 0) >= 0 || find_sub_from(
        msg,
        "Database record `carry_forward:current` already exists"@,
        0,
    ) >= 0
}

/// Text of `v` after the first occurrence of `marker`, if any.
fn split_after(v: &Vec<char>, marker: &str) -> (r: Option<Vec<char>>)
    ensures
        match (r, after_marker(v@, marker@)) {
            (Some(w), Some(rest)) => w@ == rest,
            (None, None) => true,
            _ => false,
        },
{
    let m = chars_of(marker);
    match find_sub(v, &m) {
        Some(k) => {
            assert(crate::text::occurs_at(v@, m@, k as int));
            let ml = m.len();
            assert(k + ml <= v.len());
            let start = k + ml;
            Some(slice_chars(v, start, v.len()))
        },
        None => None,
    }
}

/// Text of `v` before the first `c`, or all of `v`.
fn first_piece_of(v: &Vec<char>, c: char) -> (w: Vec<char>)
    ensures
        w@ == first_piece(v@, c),
{
    proof {
        lemma_find_from(v@, c, 0);
    }
    match find_char(v, c) {
        Some(k) => slice_chars(v, 0, k),
        None => slice_chars(v, 0, v.len()),
    }
}

/// The number in a piece of a message, or 0.
fn cents_of(piece: Option<Vec<char>>) -> (n: i64)
    ensures
        n as int == cents_or_zero(
            match piece {
                Some(p) => Some(p@),
                None => None,
            },
        ),
{
    match piece {
        Some(p) => {
            let (a, b) = trim_bounds(&p);
            match parse_signed(&p, a, b, i64::MIN, i64::MAX) {
                Some(x) => x,
                None => 0,
            }
        },
        None => 0,
    }
}

/// Reshape a database error by its message: the event throws of the
/// period lock and of the dues cap, and the immutable carry-forward seed,
/// become their own errors; anything else stays a database error.
pub fn map_db_error(msg: &str) -> (e: Error)
    ensures
        match after_marker(msg@, "period_locked:"@) {
            Some(rest) => e matches Error::PeriodLocked { period } && period@ == trim(
                first_piece(rest, '<'),
            ),
            None => match after_marker(msg@, "dues_cap_exceeded:"@) {
                Some(rest) => e matches Error::DuesCapExceeded { paid_cents, dues_cents }
                    && paid_cents == cents_or_zero(Some(first_piece(rest, '>')))
                    && dues_cents == cents_or_zero(second_piece(rest, '>')),
                None => if is_carry_forward_conflict(msg@) {
                    e is CarryForwardExists
                } else {
                    e matches Error::Db(m) && m@ == msg@
                },
            },
        },
{
    let v = chars_of(msg);
    if let Some(rest) = split_after(&v, "period_locked:") {
        let piece = first_piece_of(&rest, '<');
        let (a, b) = trim_bounds(&piece);
        let period = slice_chars(&piece, a, b);
        return Error::PeriodLocked { period: string_from_chars(&period) };
    }
    if let Some(rest) = split_after(&v, "dues_cap_exceeded:") {
        let first = first_piece_of(&rest, '>');
        proof {
            lemma_find_from(rest@, '>', 0);
        }
        let second = match find_char(&rest, '>') {
            Some(k) => {
                let tail = slice_chars(&rest, k + 1, rest.len());
                Some(first_piece_of(&tail, '>'))
            },
            None => None,
        };
        let paid_cents = cents_of(Some(first));
        let dues_cents = cents_of(second);
        return Error::DuesCapExceeded { paid_cents, dues_cents };
    }
    if contains_str(&v, "carry_forward_immutable") {
        return Error::CarryForwardExists;
    }
    if contains_str(&v, "Database record `carry_forward:current` already exists") {
        return Error::CarryForwardExists;
    }
    Error::Db(msg.to_owned())
}

} // verus!
