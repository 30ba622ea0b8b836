use vstd::prelude::*;

use crate::common::time::{format_utc_minute, utc_minute_text, Timestamp};
use crate::text::{
    chars_eq_str, chars_of, find_char, find_from, lemma_find_from, nat_digits, push_all,
    push_digits, push_int, push_padded, push_str, slice_chars, string_from_chars, zero_pad,
    char_to_uppercase, int_str, unicode_uppercase,
};

verus! {

/// `s` with a `,` between every group of three digits, counted from the
/// right.
pub open spec fn group3(s: Seq<char>) -> Seq<char>
    decreases s.len(),
{
    if s.len() <= 3 {
        s
    } else {
        group3(s.take(s.len() - 3)) + seq![','] + s.skip(s.len() - 3)
    }
}

/// An amount of cents in major units with thousands separators, two minor
/// digits and the currency code, e.g. `-1,234.05 MYR`.
pub open spec fn money_text(cents: int, currency: Seq<char>) -> Seq<char> {
    let a = if cents < 0 { -cents } else { cents };
    (if cents < 0 { seq!['-'] } else { Seq::<char>::empty() }) + group3(nat_digits((a / 100) as nat))
        + seq!['.'] + zero_pad(nat_digits((a % 100) as nat), 2) + seq![' '] + currency
}

fn push_group3(out: &mut Vec<char>, s: &Vec<char>, hi: usize)
    requires
        hi <= s.len(),
    ensures
        final(out)@ == old(out)@ + group3(s@.take(hi as int)),
    decreases hi,
{
    if hi <= 3 {
        let w = slice_chars(s, 0, hi);
        push_all(out, &w);
    } else {
        push_group3(out, s, hi - 3);
        out.push(',');
        let w = slice_chars(s, hi - 3, hi);
        push_all(out, &w);
        proof {
            let t = s@.take(hi as int);
            assert(t.take(t.len() - 3) =~= s@.take(hi - 3));
            assert(t.skip(t.len() - 3) =~= s@.subrange(hi - 3, hi as int));
        }
    }
}

/// `cents` shown as money in `currency`. (`i64::MIN` has no absolute value
/// in `i64` and is left out.)
pub fn fmt_money(cents: i64, currency: &str) -> (r: String)
    requires
        cents > i64::MIN,
    ensures
        r@ == money_text(cents as int, currency@),
{
    let a: i64 = if cents < 0 { -cents } else { cents };
    let major = a / 100;
    let minor = a % 100;
    let mut digits: Vec<char> = Vec::new();
    push_digits(&mut digits, major as u64);
    let mut out: Vec<char> = Vec::new();
    if cents < 0 {
        out.push('-');
    }
    push_group3(&mut out, &digits, digits.len());
    out.push('.');
    push_padded(&mut out, minor as u64, 2);
    out.push(' ');
    push_str(&mut out, currency);
    proof {
        assert(digits@.take(digits.len() as int) =~= digits@);
        assert(out@ =~= money_text(cents as int, currency@));
    }
    string_from_chars(&out)
}

/// The pill style of a role.
pub fn role_pill(role: &str) -> (s: &'static str)
    ensures
        role@ == "owner"@ ==> s@ == "pill pill-evergreen"@,
        role@ != "owner"@ && role@ == "treasurer"@ ==> s@ == "pill pill-amber"@,
        role@ != "owner"@ && role@ != "treasurer"@ ==> s@ == "pill pill-neutral"@,
{
    let v = chars_of(role);
    if chars_eq_str(&v, "owner") {
        "pill pill-evergreen"
    } else if chars_eq_str(&v, "treasurer") {
        "pill pill-amber"
    } else {
        "pill pill-neutral"
    }
}

/// How often dues fall due, in words.
pub fn cadence_word(cadence: &str) -> (s: &'static str)
    ensures
        cadence@ == "weekly"@ ==> s@ == "Each ISO week"@,
        cadence@ != "weekly"@ && cadence@ == "yearly"@ ==> s@ == "Each calendar year"@,
        cadence@ != "weekly"@ && cadence@ != "yearly"@ ==> s@ == "Each calendar month"@,
{
    let v = chars_of(cadence);
    if chars_eq_str(&v, "weekly") {
        "Each ISO week"
    } else if chars_eq_str(&v, "yearly") {
        "Each calendar year"
    } else {
        "Each calendar month"
    }
}

/// The pill style of a member's period status.
pub fn member_status_pill(status: &str) -> (s: &'static str)
    ensures
        status@ == "verified"@ ==> s@ == "pill pill-positive"@,
        status@ != "verified"@ && status@ == "missed"@ ==> s@ == "pill pill-negative"@,
        status@ != "verified"@ && status@ != "missed"@ ==> s@ == "pill pill-neutral"@,
{
    let v = chars_of(status);
    if chars_eq_str(&v, "verified") {
        "pill pill-positive"
    } else if chars_eq_str(&v, "missed") {
        "pill pill-negative"
    } else {
        "pill pill-neutral"
    }
}

/// The style of one cell of the period grid.
pub fn period_cell_class(status: &str) -> (s: &'static str)
    ensures
        status@ == "verified"@ ==> s@ == "h-8 w-full rounded-sm bg-positive/85 border border-positive/40"@,
        status@ != "verified"@ && status@ == "partial"@ ==> s@
            == "h-8 w-full rounded-sm bg-amber/70 border border-amber/40"@,
        status@ != "verified"@ && status@ != "partial"@ && status@ == "missed"@ ==> s@
            == "h-8 w-full rounded-sm bg-negative/75 border border-negative/40"@,
        status@ != "verified"@ && status@ != "partial"@ && status@ != "missed"@ && status@
            == "current"@ ==> s@
            == "h-8 w-full rounded-sm bg-evergreen border border-evergreen-deep ring-1 ring-evergreen/30"@,
        status@ != "verified"@ && status@ != "partial"@ && status@ != "missed"@ && status@
            != "current"@ ==> s@ == "h-8 w-full rounded-sm bg-bone-soft border border-rule"@,
{
    let v = chars_of(status);
    if chars_eq_str(&v, "verified") {
        "h-8 w-full rounded-sm bg-positive/85 border border-positive/40"
    } else if chars_eq_str(&v, "partial") {
        "h-8 w-full rounded-sm bg-amber/70 border border-amber/40"
    } else if chars_eq_str(&v, "missed") {
        "h-8 w-full rounded-sm bg-negative/75 border border-negative/40"
    } else if chars_eq_str(&v, "current") {
        "h-8 w-full rounded-sm bg-evergreen border border-evergreen-deep ring-1 ring-evergreen/30"
    } else {
        "h-8 w-full rounded-sm bg-bone-soft border border-rule"
    }
}

/// A period as the picker shows it: a weekly period's first `-` becomes
/// ` · ` (`2026 · W18`); others as they are.
pub open spec fn period_label(p: Seq<char>, cadence: Seq<char>) -> Seq<char> {
    let k = find_from(p, '-', 0);
    if cadence == "weekly"@ && k >= 0 {
        p.subrange(0, k) + " · "@ + p.subrange(k + 1, p.len() as int)
    } else {
        p
    }
}

pub fn fmt_period_label(p: &str, cadence: &str) -> (r: String)
    ensures
        r@ == period_label(p@, cadence@),
{
    let c = chars_of(cadence);
    let v = chars_of(p);
    if chars_eq_str(&c, "weekly") {
        proof {
            lemma_find_from(v@, '-', 0);
        }
        match find_char(&v, '-') {
            Some(k) => {
                let mut out = slice_chars(&v, 0, k);
                push_str(&mut out, " · ");
                let rest = slice_chars(&v, k + 1, v.len());
                push_all(&mut out, &rest);
                string_from_chars(&out)
            },
            None => string_from_chars(&v),
        }
    } else {
        string_from_chars(&v)
    }
}

/// The avatar letter of a name: its first character uppercased (the first
/// character of the Unicode mapping), or `—` for an empty name.
pub open spec fn initial(name: Seq<char>) -> Seq<char> {
    if name.len() == 0 {
        "—"@
    } else if unicode_uppercase(name[0]).len() > 0 {
        seq![unicode_uppercase(name[0])[0]]
    } else {
        seq![name[0]]
    }
}

pub fn initial_of(name: &str) -> (r: String)
    ensures
        r@ == initial(name@),
{
    let v = chars_of(name);
    if v.len() == 0 {
        return "—".to_string();
    }
    let up = char_to_uppercase(v[0]);
    let c = if up.len() > 0 { up[0] } else { v[0] };
    let mut out: Vec<char> = Vec::new();
    out.push(c);
    proof {
        assert(out@ =~= initial(name@));
    }
    string_from_chars(&out)
}

/// The pill style of an invite status.
pub fn pill_class(status: &str) -> (s: &'static str)
    ensures
        status@ == "pending"@ ==> s@ == "pill pill-amber"@,
        status@ != "pending"@ && status@ == "accepted"@ ==> s@ == "pill pill-positive"@,
        status@ != "pending"@ && status@ != "accepted"@ && status@ == "revoked"@ ==> s@
            == "pill pill-negative"@,
        status@ != "pending"@ && status@ != "accepted"@ && status@ != "revoked"@ ==> s@
            == "pill pill-neutral"@,
{
    let v = chars_of(status);
    if chars_eq_str(&v, "pending") {
        "pill pill-amber"
    } else if chars_eq_str(&v, "accepted") {
        "pill pill-positive"
    } else if chars_eq_str(&v, "revoked") {
        "pill pill-negative"
    } else {
        "pill pill-neutral"
    }
}

/// A role's display name (`owner` shows as Admin); `—` for an unknown one.
pub fn role_label(role: &str) -> (s: &'static str)
    ensures
        role@ == "owner"@ ==> s@ == "Admin"@,
        role@ != "owner"@ && role@ == "treasurer"@ ==> s@ == "Treasurer"@,
        role@ != "owner"@ && role@ != "treasurer"@ && role@ == "member"@ ==> s@ == "Member"@,
        role@ != "owner"@ && role@ != "treasurer"@ && role@ != "member"@ ==> s@ == "—"@,
{
    let v = chars_of(role);
    if chars_eq_str(&v, "owner") {
        "Admin"
    } else if chars_eq_str(&v, "treasurer") {
        "Treasurer"
    } else if chars_eq_str(&v, "member") {
        "Member"
    } else {
        "—"
    }
}

/// The role picked in the invite form.
#[derive(Debug, Clone, Copy, PartialEq, Eq, Structural)]
pub enum InviteRole {
    Owner,
    Treasurer,
    Member,
}

impl InviteRole {
    /// The role's name on the wire.
    pub fn wire(self) -> (s: &'static str)
        ensures
            self == InviteRole::Owner ==> s@ == "owner"@,
            self == InviteRole::Treasurer ==> s@ == "treasurer"@,
            self == InviteRole::Member ==> s@ == "member"@,
    {
        match self {
            InviteRole::Owner => "owner",
            InviteRole::Treasurer => "treasurer",
            InviteRole::Member => "member",
        }
    }

    /// The role's display name.
    pub fn label(self) -> (s: &'static str)
        ensures
            self == InviteRole::Owner ==> s@ == "Admin"@,
            self == InviteRole::Treasurer ==> s@ == "Treasurer"@,
            self == InviteRole::Member ==> s@ == "Member"@,
    {
        match self {
            InviteRole::Owner => "Admin",
            InviteRole::Treasurer => "Treasurer",
            InviteRole::Member => "Member",
        }
    }

    /// What the role may do.
    pub fn description(self) -> (s: &'static str)
        ensures
            self == InviteRole::Owner ==> s@ == "Full control. Manage members, roles, and venture settings."@,
            self == InviteRole::Treasurer ==> s@
                == "Verify contributions, manage period locks, post receipts."@,
            self == InviteRole::Member ==> s@ == "Submit contributions and view ledger history."@,
    {
        match self {
            InviteRole::Owner => "Full control. Manage members, roles, and venture settings.",
            InviteRole::Treasurer => "Verify contributions, manage period locks, post receipts.",
            InviteRole::Member => "Submit contributions and view ledger history.",
        }
    }
}

/// A Unix time as `YYYY-MM-DD HH:MM UTC`; `—` for a time not after the
/// epoch or out of range.
pub fn format_unix(ts: i64) -> (r: String)
    ensures
        ts <= 0 ==> r@ == "—"@,
        ts > 0 ==> match utc_minute_text(ts as int) {
            Some(t) => r@ == t,
            None => r@ == "—"@,
        },
{
    if ts <= 0 {
        return "—".to_string();
    }
    match format_utc_minute(ts) {
        Some(s) => s,
        None => "—".to_string(),
    }
}

/// How far off an expiry `exp` is from `now` (seconds), in words.
pub open spec fn expiry_text(exp: int, now: int) -> Option<Seq<char>> {
    let d = exp - now;
    if exp <= 0 {
        None
    } else if d <= 0 {
        Some("expired"@)
    } else if d < 60 {
        Some("in "@ + int_str(d) + "s"@)
    } else if d < 3600 {
        Some("in "@ + int_str(d / 60) + "m"@)
    } else {
        Some("in "@ + int_str(d / 3600) + "h "@ + int_str((d % 3600) / 60) + "m"@)
    }
}

pub fn expiry_hint_at(exp: i64, now: i64) -> (r: Option<String>)
    ensures
        match r {
            Some(s) => expiry_text(exp as int, now as int) == Some(s@),
            None => expiry_text(exp as int, now as int) is None,
        },
{
    if exp <= 0 {
        return None;
    }
    let d: i128 = exp as i128 - now as i128;
    let mut v: Vec<char> = Vec::new();
    if d <= 0 {
        return Some("expired".to_string());
    } else if d < 60 {
        push_str(&mut v, "in ");
        push_int(&mut v, d as i64);
        push_str(&mut v, "s");
    } else if d < 3600 {
        push_str(&mut v, "in ");
        push_int(&mut v, (d / 60) as i64);
        push_str(&mut v, "m");
    } else {
        push_str(&mut v, "in ");
        push_int(&mut v, (d / 3600) as i64);
        push_str(&mut v, "h ");
        push_int(&mut v, ((d % 3600) / 60) as i64);
        push_str(&mut v, "m");
    }
    Some(string_from_chars(&v))
}

/// `r` is the hint `expiry_hint_at` gives for `exp` at `now`.
pub open spec fn hint_matches(r: Option<String>, exp: int, now: int) -> bool {
    match r {
        Some(s) => expiry_text(exp, now) == Some(s@),
        None => expiry_text(exp, now) is None,
    }
}

/// How far off an expiry is from now, in words; `None` without an expiry.
pub fn expiry_hint(exp: i64) -> (r: Option<String>)
    ensures
        exp <= 0 <==> r is None,
        exists|now: i64| #[trigger] hint_matches(r, exp as int, now as int),
{
    let now = Timestamp::now();
    let r = expiry_hint_at(exp, now.secs);
    assert(hint_matches(r, exp as int, now.secs as int));
    r
}

/// The Google sign-in button's state.
#[derive(Debug, Clone, PartialEq, Eq)]
pub enum GoogleState {
    Idle,
    Pending,
    Verifying,
    Error(String),
}

impl GoogleState {
    /// Whether a sign-in is under way.
    pub fn busy(&self) -> (b: bool)
        ensures
            b == (*self is Pending || *self is Verifying),
    {
        match self {
            GoogleState::Pending | GoogleState::Verifying => true,
            _ => false,
        }
    }

    /// The button's text.
    pub fn label(&self) -> (s: &'static str)
        ensures
            *self is Pending ==> s@ == "Awaiting Google…"@,
            *self is Verifying ==> s@ == "Verifying signature…"@,
            !(*self is Pending || *self is Verifying) ==> s@ == "Continue with Google"@,
    {
        match self {
            GoogleState::Pending => "Awaiting Google…",
            GoogleState::Verifying => "Verifying signature…",
            _ => "Continue with Google",
        }
    }
}

} // verus!
