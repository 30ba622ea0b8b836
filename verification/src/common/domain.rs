use vstd::prelude::*;

use chrono::Datelike;
use chrono_tz::Tz;

use crate::common::error::Error;
use crate::text::{
    all_digits, digits_val, lemma_digits_order, lemma_find_at, lemma_nat_digits,
    lemma_nat_digits_small, lemma_parse_digits, lemma_seq_lt_concat, lemma_zero_pad, seq_lt,
    char_is_ascii_lower, char_is_digit, chars_eq_str, chars_of, find_char, find_from, int_str,
    int_str_padded, is_ascii_lower, is_digit, lemma_find_from, nat_digits, parse_in_range,
    parse_signed, parse_unsigned, push_int, push_int_padded, push_padded, string_from_chars,
    zero_pad,
};

verus! {

// ───────────────────────────── Cadence ─────────────────────────────

/// How often members owe dues.
#[derive(Debug, Clone, Copy, PartialEq, Eq, Hash, Structural)]
pub enum Cadence {
    Weekly,
    Monthly,
    Yearly,
}

/// The wire name of a cadence.
pub open spec fn cadence_name(c: Cadence) -> Seq<char> {
    match c {
        Cadence::Weekly => "weekly"@,
        Cadence::Monthly => "monthly"@,
        Cadence::Yearly => "yearly"@,
    }
}

/// The cadence a wire name denotes, if any.
pub open spec fn cadence_from_name(s: Seq<char>) -> Option<Cadence> {
    if s == "weekly"@ {
        Some(Cadence::Weekly)
    } else if s == "monthly"@ {
        Some(Cadence::Monthly)
    } else if s == "yearly"@ {
        Some(Cadence::Yearly)
    } else {
        None
    }
}

impl Cadence {
    /// The wire name of the cadence.
    pub fn as_str(self) -> (s: &'static str)
        ensures
            s@ == cadence_name(self),
    {
        match self {
            Cadence::Weekly => "weekly",
            Cadence::Monthly => "monthly",
            Cadence::Yearly => "yearly",
        }
    }

    /// The wire name as an owned string (what `Display` printed).
    pub fn to_string(self) -> (s: String)
        ensures
            s@ == cadence_name(self),
    {
        self.as_str().to_string()
    }

    /// The cadence `s` names; any other text is `InvalidCadence(s)`.
    pub fn parse(s: &str) -> (r: Result<Cadence, Error>)
        ensures
            match r {
                Ok(c) => cadence_from_name(s@) == Some(c),
                Err(Error::InvalidCadence(m)) => cadence_from_name(s@) is None && m@ == s@,
                Err(_) => false,
            },
    {
        let v = chars_of(s);
        if chars_eq_str(&v, "weekly") {
            Ok(Cadence::Weekly)
        } else if chars_eq_str(&v, "monthly") {
            Ok(Cadence::Monthly)
        } else if chars_eq_str(&v, "yearly") {
            Ok(Cadence::Yearly)
        } else {
            Err(Error::InvalidCadence(s.to_owned()))
        }
    }
}

impl core::str::FromStr for Cadence {
    type Err = Error;

    fn from_str(s: &str) -> (r: Result<Cadence, Error>)
        ensures
            match r {
                Ok(c) => cadence_from_name(s@) == Some(c),
                Err(Error::InvalidCadence(m)) => cadence_from_name(s@) is None && m@ == s@,
                Err(_) => false,
            },
    {
        Cadence::parse(s)
    }
}

/// Law: the wire name of a cadence parses back to that cadence.
pub proof fn lemma_cadence_round_trip(c: Cadence)
    ensures
        cadence_from_name(cadence_name(c)) == Some(c),
{
    reveal_strlit("weekly");
    reveal_strlit("monthly");
    reveal_strlit("yearly");
    assert("weekly"@ != "monthly"@) by {
        assert("weekly"@.len() != "monthly"@.len());
    }
    assert("weekly"@ != "yearly"@) by {
        assert("weekly"@[0] != "yearly"@[0]);
    }
    assert("monthly"@ != "yearly"@) by {
        assert("monthly"@.len() != "yearly"@.len());
    }
}

// ───────────────────────────── Tenant slug ─────────────────────────────

/// A valid slug: 3 to 41 characters, a lowercase ASCII letter first, then
/// lowercase ASCII letters, digits and underscores (the schema's
/// `^[a-z][a-z0-9_]{2,40}$`).
pub open spec fn valid_slug(s: Seq<char>) -> bool {
    &&& 3 <= s.len() <= 41
    &&& is_ascii_lower(s[0])
    &&& forall|i: int| 0 <= i < s.len() ==> slug_char(#[trigger] s[i])
}

pub open spec fn slug_char(c: char) -> bool {
    is_ascii_lower(c) || is_digit(c) || c == '_'
}

/// Whether `s` is a valid tenant slug.
pub fn is_valid_slug(s: &str) -> (b: bool)
    ensures
        b == valid_slug(s@),
{
    let v = chars_of(s);
    if v.len() < 3 || v.len() > 41 {
        return false;
    }
    if !char_is_ascii_lower(v[0]) {
        return false;
    }
    let mut i: usize = 0;
    while i < v.len()
        invariant
            i <= v.len(),
            v@ == s@,
            forall|j: int| 0 <= j < i ==> slug_char(#[trigger] v@[j]),
        decreases v.len() - i,
    {
        let c = v[i];
        if !(char_is_ascii_lower(c) || char_is_digit(c) || c == '_') {
            return false;
        }
        i += 1;
    }
    true
}

/// Tenant identity: the name of the tenant's database namespace. The slug
/// is the tenant; a value of this type always holds a valid slug.
#[derive(Debug, PartialEq, Eq, Hash)]
pub struct TenantSlug(String);

impl Clone for TenantSlug {
    fn clone(&self) -> (r: TenantSlug)
        ensures
            r.view() == self.view(),
    {
        proof {
            use_type_invariant(self);
        }
        TenantSlug(self.0.clone())
    }
}

impl TenantSlug {
    pub closed spec fn view(&self) -> Seq<char> {
        self.0@
    }

    #[verifier::type_invariant]
    closed spec fn inv(self) -> bool {
        valid_slug(self.0@)
    }

    /// Accepts exactly the valid slugs; anything else is
    /// `InvalidTenantSlug(s)`.
    pub fn new(s: &str) -> (r: Result<TenantSlug, Error>)
        ensures
            match r {
                Ok(t) => valid_slug(s@) && t.view() == s@,
                Err(Error::InvalidTenantSlug(m)) => !valid_slug(s@) && m@ == s@,
                Err(_) => false,
            },
    {
        if !is_valid_slug(s) {
            return Err(Error::InvalidTenantSlug(s.to_owned()));
        }
        Ok(TenantSlug(s.to_owned()))
    }

    pub fn as_str(&self) -> (s: &str)
        ensures
            s@ == self.view(),
            valid_slug(s@),
    {
        proof {
            use_type_invariant(self);
        }
        self.0.as_str()
    }

    pub fn into_inner(self) -> (s: String)
        ensures
            s@ == self.view(),
            valid_slug(s@),
    {
        proof {
            use_type_invariant(&self);
        }
        self.0
    }

    /// The slug as an owned string (what `Display` printed).
    pub fn to_string(&self) -> (s: String)
        ensures
            s@ == self.view(),
    {
        self.0.clone()
    }
}

impl core::str::FromStr for TenantSlug {
    type Err = Error;

    fn from_str(s: &str) -> (r: Result<TenantSlug, Error>)
        ensures
            match r {
                Ok(t) => valid_slug(s@) && t.view() == s@,
                Err(Error::InvalidTenantSlug(m)) => !valid_slug(s@) && m@ == s@,
                Err(_) => false,
            },
    {
        TenantSlug::new(s)
    }
}

// ───────────────────────────── Period ─────────────────────────────

/// An accounting period. Its shape follows the venture's cadence:
/// weekly "YYYY-Www" (ISO week-year and week), monthly "YYYY-MM",
/// yearly "YYYY".
#[derive(Debug, Clone, Copy, PartialEq, Eq, Hash, Structural)]
pub enum Period {
    Weekly { year: i32, week: u8 },
    Monthly { year: i32, month: u8 },
    Yearly { year: i32 },
}

impl Period {
    /// Week in 1..=53, month in 1..=12.
    pub open spec fn well_formed(self) -> bool {
        match self {
            Period::Weekly { week, .. } => 1 <= week <= 53,
            Period::Monthly { month, .. } => 1 <= month <= 12,
            Period::Yearly { .. } => true,
        }
    }

    pub open spec fn spec_cadence(self) -> Cadence {
        match self {
            Period::Weekly { .. } => Cadence::Weekly,
            Period::Monthly { .. } => Cadence::Monthly,
            Period::Yearly { .. } => Cadence::Yearly,
        }
    }

    pub open spec fn spec_year(self) -> int {
        match self {
            Period::Weekly { year, .. } => year as int,
            Period::Monthly { year, .. } => year as int,
            Period::Yearly { year } => year as int,
        }
    }
}

/// The text of a period (what `Display` printed).
pub open spec fn period_str(p: Period) -> Seq<char> {
    match p {
        Period::Weekly { year, week } => int_str_padded(year as int, 4) + seq!['-', 'W']
            + zero_pad(nat_digits(week as nat), 2),
        Period::Monthly { year, month } => int_str_padded(year as int, 4) + seq!['-']
            + zero_pad(nat_digits(month as nat), 2),
        Period::Yearly { year } => int_str_padded(year as int, 4),
    }
}

/// `Period::weekly(year, week)`: the period, or the message of the error.
pub open spec fn weekly_spec(year: int, week: int) -> Result<Period, Seq<char>> {
    if 1 <= week <= 53 {
        Ok(Period::Weekly { year: year as i32, week: week as u8 })
    } else {
        Err(int_str(year) + seq!['-', 'W'] + zero_pad(nat_digits(week as nat), 2))
    }
}

/// `Period::monthly(year, month)`: the period, or the message of the error.
pub open spec fn monthly_spec(year: int, month: int) -> Result<Period, Seq<char>> {
    if 1 <= month <= 12 {
        Ok(Period::Monthly { year: year as i32, month: month as u8 })
    } else {
        Err(int_str(year) + seq!['-'] + zero_pad(nat_digits(month as nat), 2))
    }
}

pub open spec fn parse_i32_spec(s: Seq<char>) -> Option<int> {
    parse_in_range(s, true, i32::MIN as int, i32::MAX as int)
}

pub open spec fn parse_u8_spec(s: Seq<char>) -> Option<int> {
    parse_in_range(s, false, 0, u8::MAX as int)
}

/// What parsing the text `s` as a period gives: the period, or the message
/// carried by `InvalidPeriod`. Four characters are a year; otherwise the
/// text up to the first `-` is the year and the rest is a month, or `W`
/// and a week.
pub open spec fn spec_parse_period(s: Seq<char>) -> Result<Period, Seq<char>> {
    if s.len() == 4 {
        match parse_i32_spec(s) {
            Some(y) => Ok(Period::Yearly { year: y as i32 }),
            None => Err(s),
        }
    } else {
        let k = find_from(s, '-', 0);
        if k < 0 {
            Err(s)
        } else {
            let rest = s.subrange(k + 1, s.len() as int);
            match parse_i32_spec(s.subrange(0, k)) {
                None => Err(s),
                Some(year) => if rest.len() > 0 && rest[0] == 'W' {
                    match parse_u8_spec(rest.drop_first()) {
                        None => Err(s),
                        Some(w) => weekly_spec(year, w),
                    }
                } else {
                    match parse_u8_spec(rest) {
                        None => Err(s),
                        Some(m) => monthly_spec(year, m),
                    }
                },
            }
        }
    }
}


// ───────────────────────────── Period laws ─────────────────────────────

/// Period `p` comes strictly before period `q` of the same cadence.
pub open spec fn period_before(p: Period, q: Period) -> bool {
    match (p, q) {
        (Period::Weekly { year: y1, week: w1 }, Period::Weekly { year: y2, week: w2 }) => y1 < y2
            || (y1 == y2 && w1 < w2),
        (Period::Monthly { year: y1, month: m1 }, Period::Monthly { year: y2, month: m2 }) => y1
            < y2 || (y1 == y2 && m1 < m2),
        (Period::Yearly { year: y1 }, Period::Yearly { year: y2 }) => y1 < y2,
        _ => false,
    }
}

/// The years for which the text of a period parses back: yearly periods
/// print as exactly four characters from -999 to 9999; weekly and monthly
/// periods need a year that does not print with a sign.
pub open spec fn round_trip_year(p: Period) -> bool {
    match p {
        Period::Yearly { year } => -999 <= year <= 9999,
        _ => 0 <= p.spec_year(),
    }
}

proof fn lemma_padded_digits(n: nat, w: nat)
    requires
        nat_digits(n).len() <= w,
    ensures
        all_digits(zero_pad(nat_digits(n), w)),
        digits_val(zero_pad(nat_digits(n), w)) == n,
        zero_pad(nat_digits(n), w).len() == w,
{
    lemma_nat_digits(n);
    lemma_zero_pad(nat_digits(n), w);
}

/// The text of a yearly-or-later period part "YYYY-" followed by the rest:
/// the first '-' is right after the year.
proof fn lemma_split_after_year(a: Seq<char>, t: Seq<char>)
    requires
        all_digits(a),
        a.len() >= 4,
    ensures
        t.len() > 0 && t[0] == '-' ==> find_from(a + t, '-', 0) == a.len(),
{
    if t.len() > 0 && t[0] == '-' {
        let s = a + t;
        assert forall|j: int| 0 <= j < a.len() implies s[j] != '-' by {
            assert(s[j] == a[j]);
            assert(is_digit(a[j]));
        }
        lemma_find_at(s, '-', 0, a.len() as int);
    }
}

/// Law: the text of a well-formed period parses back to the same period
/// (for the years whose text round-trips, see `round_trip_year`).
pub proof fn lemma_period_round_trip(p: Period)
    requires
        p.well_formed(),
        round_trip_year(p),
    ensures
        spec_parse_period(period_str(p)) == Ok::<Period, Seq<char>>(p),
{
    match p {
        Period::Yearly { year } => {
            if year >= 0 {
                lemma_nat_digits_small(year as nat);
                lemma_padded_digits(year as nat, 4);
                lemma_parse_digits(period_str(p), true);
            } else {
                let m = (-year) as nat;
                lemma_nat_digits_small(m);
                lemma_padded_digits(m, 3);
                let s = period_str(p);
                assert(s.drop_first() =~= zero_pad(nat_digits(m), 3));
            }
        },
        Period::Monthly { year, month } => {
            let a = zero_pad(nat_digits(year as nat), 4);
            let m = zero_pad(nat_digits(month as nat), 2);
            lemma_nat_digits(year as nat);
            lemma_zero_pad(nat_digits(year as nat), 4);
            lemma_nat_digits_small(month as nat);
            lemma_padded_digits(month as nat, 2);
            let s = period_str(p);
            let t = seq!['-'] + m;
            assert(s =~= a + t);
            lemma_split_after_year(a, t);
            let k = a.len() as int;
            assert(s.subrange(0, k) =~= a);
            assert(s.subrange(k + 1, s.len() as int) =~= m);
            lemma_parse_digits(a, true);
            lemma_parse_digits(m, false);
            assert(is_digit(m[0]));
        },
        Period::Weekly { year, week } => {
            let a = zero_pad(nat_digits(year as nat), 4);
            let w = zero_pad(nat_digits(week as nat), 2);
            lemma_nat_digits(year as nat);
            lemma_zero_pad(nat_digits(year as nat), 4);
            lemma_nat_digits_small(week as nat);
            lemma_padded_digits(week as nat, 2);
            let s = period_str(p);
            let t = seq!['-', 'W'] + w;
            assert(s =~= a + t);
            lemma_split_after_year(a, t);
            let k = a.len() as int;
            assert(s.subrange(0, k) =~= a);
            let rest = s.subrange(k + 1, s.len() as int);
            assert(rest =~= seq!['W'] + w);
            assert(rest.drop_first() =~= w);
            lemma_parse_digits(a, true);
            lemma_parse_digits(w, false);
        },
    }
}

/// Law: within one cadence, and for years 0 to 9999, the text of a period
/// sorts before the text of another exactly when the period comes first.
/// (The period lock compares period texts.)
pub proof fn lemma_period_text_order(p: Period, q: Period)
    requires
        p.well_formed(),
        q.well_formed(),
        p.spec_cadence() == q.spec_cadence(),
        0 <= p.spec_year() <= 9999,
        0 <= q.spec_year() <= 9999,
    ensures
        period_before(p, q) == seq_lt(period_str(p), period_str(q)),
{
    let y1 = p.spec_year() as nat;
    let y2 = q.spec_year() as nat;
    lemma_nat_digits_small(y1);
    lemma_nat_digits_small(y2);
    lemma_padded_digits(y1, 4);
    lemma_padded_digits(y2, 4);
    let a1 = zero_pad(nat_digits(y1), 4);
    let a2 = zero_pad(nat_digits(y2), 4);
    lemma_digits_order(a1, a2);
    match (p, q) {
        (Period::Yearly { .. }, Period::Yearly { .. }) => {},
        (Period::Monthly { month: m1, .. }, Period::Monthly { month: m2, .. }) => {
            lemma_nat_digits_small(m1 as nat);
            lemma_nat_digits_small(m2 as nat);
            lemma_padded_digits(m1 as nat, 2);
            lemma_padded_digits(m2 as nat, 2);
            let b1 = zero_pad(nat_digits(m1 as nat), 2);
            let b2 = zero_pad(nat_digits(m2 as nat), 2);
            lemma_digits_order(b1, b2);
            assert(period_str(p) =~= a1 + (seq!['-'] + b1));
            assert(period_str(q) =~= a2 + (seq!['-'] + b2));
            lemma_seq_lt_concat(a1, seq!['-'] + b1, a2, seq!['-'] + b2);
            lemma_seq_lt_concat(seq!['-'], b1, seq!['-'], b2);
        },
        (Period::Weekly { week: w1, .. }, Period::Weekly { week: w2, .. }) => {
            lemma_nat_digits_small(w1 as nat);
            lemma_nat_digits_small(w2 as nat);
            lemma_padded_digits(w1 as nat, 2);
            lemma_padded_digits(w2 as nat, 2);
            let b1 = zero_pad(nat_digits(w1 as nat), 2);
            let b2 = zero_pad(nat_digits(w2 as nat), 2);
            lemma_digits_order(b1, b2);
            assert(period_str(p) =~= a1 + (seq!['-', 'W'] + b1));
            assert(period_str(q) =~= a2 + (seq!['-', 'W'] + b2));
            lemma_seq_lt_concat(a1, seq!['-', 'W'] + b1, a2, seq!['-', 'W'] + b2);
            lemma_seq_lt_concat(seq!['-', 'W'], b1, seq!['-', 'W'], b2);
        },
        _ => {},
    }
}

/// The current period's calendar fields in a tenant's timezone.
pub struct LocalDate {
    pub year: i32,
    pub month: u8,
    pub iso_year: i32,
    pub iso_week: u8,
}

impl LocalDate {
    pub open spec fn well_formed(self) -> bool {
        1 <= self.month <= 12 && 1 <= self.iso_week <= 53
    }
}

/// The period of `cadence` that the local date `d` falls in: its ISO week,
/// its calendar month, or its calendar year.
pub open spec fn local_period(d: LocalDate, cadence: Cadence) -> Period {
    match cadence {
        Cadence::Weekly => Period::Weekly { year: d.iso_year, week: d.iso_week },
        Cadence::Monthly => Period::Monthly { year: d.year, month: d.month },
        Cadence::Yearly => Period::Yearly { year: d.year },
    }
}

/// Law: two local dates fall in the same period exactly when they share
/// the ISO week (weekly), the calendar month of the same year (monthly) or
/// the calendar year (yearly); so the period of a date is never the one of
/// a neighbouring week, month or year.
pub proof fn lemma_same_period_iff_same_calendar_unit(d1: LocalDate, d2: LocalDate)
    ensures
        local_period(d1, Cadence::Weekly) == local_period(d2, Cadence::Weekly) <==> (d1.iso_year
            == d2.iso_year && d1.iso_week == d2.iso_week),
        local_period(d1, Cadence::Monthly) == local_period(d2, Cadence::Monthly) <==> (d1.year
            == d2.year && d1.month == d2.month),
        local_period(d1, Cadence::Yearly) == local_period(d2, Cadence::Yearly) <==> d1.year
            == d2.year,
{
}

/// Law: the period a date falls in is named by that date's own calendar
/// fields: the monthly one by its year and month, the weekly one by its
/// ISO year and week, the yearly one by its year; never a neighbouring one.
pub proof fn lemma_local_period_names_the_date(d: LocalDate)
    ensures
        local_period(d, Cadence::Monthly) is Monthly,
        local_period(d, Cadence::Monthly)->Monthly_year == d.year,
        local_period(d, Cadence::Monthly)->month == d.month,
        local_period(d, Cadence::Weekly) is Weekly,
        local_period(d, Cadence::Weekly)->Weekly_year == d.iso_year,
        local_period(d, Cadence::Weekly)->week == d.iso_week,
        local_period(d, Cadence::Yearly) is Yearly,
        local_period(d, Cadence::Yearly)->Yearly_year == d.year,
{
}

impl Period {
    /// A weekly period; weeks outside 1..=53 are `InvalidPeriod("{year}-W{week:02}")`.
    pub fn weekly(year: i32, week: u8) -> (r: Result<Period, Error>)
        ensures
            match (r, weekly_spec(year as int, week as int)) {
                (Ok(p), Ok(q)) => p == q,
                (Err(Error::InvalidPeriod(m)), Err(msg)) => m@ == msg,
                _ => false,
            },
    {
        if !(1 <= week && week <= 53) {
            let mut v: Vec<char> = Vec::new();
            push_int(&mut v, year as i64);
            v.push('-');
            v.push('W');
            push_padded(&mut v, week as u64, 2);
            return Err(Error::InvalidPeriod(string_from_chars(&v)));
        }
        Ok(Period::Weekly { year, week })
    }

    /// A monthly period; months outside 1..=12 are `InvalidPeriod("{year}-{month:02}")`.
    pub fn monthly(year: i32, month: u8) -> (r: Result<Period, Error>)
        ensures
            match (r, monthly_spec(year as int, month as int)) {
                (Ok(p), Ok(q)) => p == q,
                (Err(Error::InvalidPeriod(m)), Err(msg)) => m@ == msg,
                _ => false,
            },
    {
        if !(1 <= month && month <= 12) {
            let mut v: Vec<char> = Vec::new();
            push_int(&mut v, year as i64);
            v.push('-');
            push_padded(&mut v, month as u64, 2);
            return Err(Error::InvalidPeriod(string_from_chars(&v)));
        }
        Ok(Period::Monthly { year, month })
    }

    pub fn yearly(year: i32) -> (p: Period)
        ensures
            p == (Period::Yearly { year }),
    {
        Period::Yearly { year }
    }

    pub fn cadence(&self) -> (c: Cadence)
        ensures
            c == self.spec_cadence(),
    {
        match self {
            Period::Weekly { .. } => Cadence::Weekly,
            Period::Monthly { .. } => Cadence::Monthly,
            Period::Yearly { .. } => Cadence::Yearly,
        }
    }

    /// The text of the period: "YYYY-Www", "YYYY-MM" or "YYYY".
    pub fn to_string(&self) -> (s: String)
        ensures
            s@ == period_str(*self),
    {
        let mut v: Vec<char> = Vec::new();
        match *self {
            Period::Weekly { year, week } => {
                push_int_padded(&mut v, year as i64, 4);
                v.push('-');
                v.push('W');
                push_padded(&mut v, week as u64, 2);
            },
            Period::Monthly { year, month } => {
                push_int_padded(&mut v, year as i64, 4);
                v.push('-');
                push_padded(&mut v, month as u64, 2);
            },
            Period::Yearly { year } => {
                push_int_padded(&mut v, year as i64, 4);
            },
        }
        proof {
            assert(v@ =~= period_str(*self));
        }
        string_from_chars(&v)
    }

    /// Parse the text of a period.
    pub fn parse(s: &str) -> (r: Result<Period, Error>)
        ensures
            match (r, spec_parse_period(s@)) {
                (Ok(p), Ok(q)) => p == q,
                (Err(Error::InvalidPeriod(m)), Err(msg)) => m@ == msg,
                _ => false,
            },
    {
        let v = chars_of(s);
        if v.len() == 4 {
            return match parse_signed(&v, 0, 4, i32::MIN as i64, i32::MAX as i64) {
                Some(y) => {
                    proof {
                        assert(v@.subrange(0, 4) =~= v@);
                    }
                    Ok(Period::Yearly { year: y as i32 })
                },
                None => {
                    proof {
                        assert(v@.subrange(0, 4) =~= v@);
                    }
                    Err(Error::InvalidPeriod(s.to_owned()))
                },
            };
        }
        let k = match find_char(&v, '-') {
            Some(k) => k,
            None => {
                return Err(Error::InvalidPeriod(s.to_owned()));
            },
        };
        proof {
            lemma_find_from(v@, '-', 0);
        }
        let year = match parse_signed(&v, 0, k, i32::MIN as i64, i32::MAX as i64) {
            Some(y) => y as i32,
            None => {
                return Err(Error::InvalidPeriod(s.to_owned()));
            },
        };
        let ghost rest = v@.subrange(k + 1, v@.len() as int);
        if k + 1 < v.len() && v[k + 1] == 'W' {
            proof {
                assert(rest[0] == 'W');
                assert(rest.drop_first() =~= v@.subrange(k + 2, v@.len() as int));
            }
            match parse_unsigned(&v, k + 2, v.len(), 255) {
                Some(w) => Period::weekly(year, w as u8),
                None => Err(Error::InvalidPeriod(s.to_owned())),
            }
        } else {
            proof {
                assert(rest == v@.subrange(k + 1, v@.len() as int));
            }
            match parse_unsigned(&v, k + 1, v.len(), 255) {
                Some(m) => Period::monthly(year, m as u8),
                None => Err(Error::InvalidPeriod(s.to_owned())),
            }
        }
    }

    /// The period that a local calendar date falls in, for a cadence.
    pub fn from_local(d: &LocalDate, cadence: Cadence) -> (p: Period)
        requires
            d.well_formed(),
        ensures
            p.well_formed(),
            p.spec_cadence() == cadence,
            p == local_period(*d, cadence),
            p == (match cadence {
                Cadence::Weekly => Period::Weekly { year: d.iso_year, week: d.iso_week },
                Cadence::Monthly => Period::Monthly { year: d.year, month: d.month },
                Cadence::Yearly => Period::Yearly { year: d.year },
            }),
    {
        match cadence {
            Cadence::Weekly => Period::Weekly { year: d.iso_year, week: d.iso_week },
            Cadence::Monthly => Period::Monthly { year: d.year, month: d.month },
            Cadence::Yearly => Period::Yearly { year: d.year },
        }
    }

    /// The period that "right now" falls into for a tenant in `tz`.
    pub fn current_in(tz: Tz, cadence: Cadence) -> (p: Period)
        ensures
            p.well_formed(),
            p.spec_cadence() == cadence,
            exists|d: LocalDate| d.well_formed() && p == #[trigger] local_period(d, cadence),
    {
        let d = local_now(tz);
        let p = Period::from_local(&d, cadence);
        assert(d.well_formed() && p == local_period(d, cadence));
        p
    }
}

impl core::str::FromStr for Period {
    type Err = Error;

    fn from_str(s: &str) -> (r: Result<Period, Error>)
        ensures
            match (r, spec_parse_period(s@)) {
                (Ok(p), Ok(q)) => p == q,
                (Err(Error::InvalidPeriod(m)), Err(msg)) => m@ == msg,
                _ => false,
            },
    {
        Period::parse(s)
    }
}

/// chrono: the calendar fields of the current instant in `tz`. Calendar
/// months are 1..=12 and ISO weeks 1..=53 (chrono's `Datelike::month` and
/// `IsoWeek::week`); which date it is depends on the clock and is not
/// stated.
#[verifier::external_body]
fn local_now(tz: Tz) -> (d: LocalDate)
    ensures
        d.well_formed(),
{
    let local = chrono::Utc::now().with_timezone(&tz);
    let iso = local.iso_week();
    LocalDate { year: local.year(), month: local.month() as u8, iso_year: iso.year(), iso_week: iso.week() as u8 }
}

#[verifier::external_type_specification]
#[verifier::external_body]
pub struct ExTz(Tz);

/// Whether chrono-tz's database knows the IANA zone name.
pub uninterp spec fn tz_known(name: Seq<char>) -> bool;

/// chrono-tz: `name.parse::<Tz>()`; succeeds exactly on the zone names in
/// the compiled database.
#[verifier::external_body]
fn tz_from_name(name: &str) -> (r: Option<Tz>)
    ensures
        r is Some == tz_known(name@),
{
    match name.parse::<Tz>() {
        Ok(tz) => Some(tz),
        Err(_) => None,
    }
}

/// An IANA timezone name, parsed; unknown names are `InvalidTimezone(name)`.
pub fn parse_tz(name: &str) -> (r: Result<Tz, Error>)
    ensures
        match r {
            Ok(_) => tz_known(name@),
            Err(Error::InvalidTimezone(m)) => !tz_known(name@) && m@ == name@,
            Err(_) => false,
        },
{
    match tz_from_name(name) {
        Some(tz) => Ok(tz),
        None => Err(Error::InvalidTimezone(name.to_owned())),
    }
}

// ───────────────────────────── Roles & statuses ─────────────────────────────

/// A member's role in a venture.
#[derive(Debug, Clone, Copy, PartialEq, Eq, Structural)]
pub enum Role {
    Owner,
    Treasurer,
    Member,
}

pub open spec fn role_name(r: Role) -> Seq<char> {
    match r {
        Role::Owner => "owner"@,
        Role::Treasurer => "treasurer"@,
        Role::Member => "member"@,
    }
}

impl Role {
    pub fn as_str(self) -> (s: &'static str)
        ensures
            s@ == role_name(self),
    {
        match self {
            Role::Owner => "owner",
            Role::Treasurer => "treasurer",
            Role::Member => "member",
        }
    }
}

/// The review state of a contribution.
#[derive(Debug, Clone, Copy, PartialEq, Eq, Structural)]
pub enum ContributionStatus {
    Submitted,
    Verified,
    Rejected,
}

} // verus!
