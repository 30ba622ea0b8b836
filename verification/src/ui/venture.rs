use vstd::prelude::*;

use crate::text::{
    chars_eq, chars_eq_str, chars_of, int_str, nat_digits, parse_in_range, parse_signed,
    push_digits, push_str, string_from_chars, trim, trim_chars,
};
use crate::ui::api::ApiError;
use crate::ui::format::{cadence_word, fmt_money, money_text};

verus! {

/// The pill style of a period's state.
pub fn period_status_pill(status: &str) -> (s: &'static str)
    ensures
        status@ == "open"@ ==> s@ == "pill pill-evergreen"@,
        status@ != "open"@ && status@ == "closing"@ ==> s@ == "pill pill-amber"@,
        status@ != "open"@ && status@ != "closing"@ ==> s@ == "pill pill-neutral"@,
{
    let v = chars_of(status);
    if chars_eq_str(&v, "open") {
        "pill pill-evergreen"
    } else if chars_eq_str(&v, "closing") {
        "pill pill-amber"
    } else {
        "pill pill-neutral"
    }
}

/// The date part of an RFC 3339 time: its first ten bytes, or nothing when
/// the text is shorter or byte ten falls inside a character.
pub fn date_prefix(s: &str) -> (r: &str)
    ensures
        vstd::utf8::is_char_boundary(vstd::utf8::encode_utf8(s@), 10) && s.len() >= 10 ==> vstd::utf8::encode_utf8(r@)
            == vstd::utf8::encode_utf8(s@).subrange(0, 10),
        !(vstd::utf8::is_char_boundary(vstd::utf8::encode_utf8(s@), 10) && s.len() >= 10) ==> r@.len() == 0,
{
    if s.len() >= 10 && s.is_char_boundary(10) {
        let (a, _) = s.split_at(10);
        a
    } else {
        proof {
            reveal_strlit("");
        }
        ""
    }
}

/// `x / d` rounded toward zero (Rust's integer division), for `d > 0`.
pub open spec fn trunc_div(x: int, d: int) -> int {
    if x >= 0 {
        x / d
    } else {
        -((-x) / d)
    }
}

/// The dues shown in the editor, in whole major units.
pub fn dues_major_text(cents: i64) -> (r: String)
    ensures
        r@ == int_str(trunc_div(cents as int, 100)),
{
    let q: i64 = if cents >= 0 {
        cents / 100
    } else {
        let m: i128 = -(cents as i128);
        let d: i128 = m / 100;
        -(d as i64)
    };
    let mut v: Vec<char> = Vec::new();
    crate::text::push_int(&mut v, q);
    crate::text::string_from_chars(&v)
}

/// `v` clamped to the `i64` range.
pub open spec fn saturate(v: int) -> int {
    if v > i64::MAX {
        i64::MAX as int
    } else if v < i64::MIN {
        i64::MIN as int
    } else {
        v
    }
}

/// The dues typed in the editor (whole major units) as cents: a number
/// that does not parse counts as zero, and the product saturates.
pub open spec fn edited_cents(text: Seq<char>) -> int {
    match parse_in_range(trim(text), true, i64::MIN as int, i64::MAX as int) {
        Some(n) => saturate(n * 100),
        None => 0,
    }
}

pub fn edited_dues_cents(text: &str) -> (r: i64)
    ensures
        r == edited_cents(text@),
{
    let t = trim_chars(text);
    let n: i64 = match parse_signed(&t, 0, t.len(), i64::MIN, i64::MAX) {
        Some(n) => n,
        None => 0,
    };
    proof {
        assert(t@.subrange(0, t@.len() as int) =~= t@);
    }
    let p: i128 = n as i128 * 100;
    if p > i64::MAX as i128 {
        i64::MAX
    } else if p < i64::MIN as i128 {
        i64::MIN
    } else {
        p as i64
    }
}

/// How much of the dues is paid, in percent from 0 to 100 (100 when there
/// are no dues).
pub open spec fn paid_percent_of(paid: int, dues: int) -> int {
    if dues > 0 {
        let p = trunc_div(paid * 100, dues);
        if p < 0 {
            0
        } else if p > 100 {
            100
        } else {
            p
        }
    } else {
        100
    }
}

/// The progress of this period's payments. (`paid * 100` must fit in
/// `i64`.)
pub fn paid_percent(paid: i64, dues: i64) -> (r: i64)
    requires
        i64::MIN <= paid * 100 <= i64::MAX,
    ensures
        r == paid_percent_of(paid as int, dues as int),
{
    if dues <= 0 {
        return 100;
    }
    let x: i64 = paid * 100;
    let q: i64 = if x >= 0 {
        x / dues
    } else {
        let m: i128 = -(x as i128);
        let d: i128 = m / (dues as i128);
        -(d as i64)
    };
    if q < 0 {
        0
    } else if q > 100 {
        100
    } else {
        q
    }
}

/// The style of the progress bar: settled, partly paid, or nothing yet.
pub fn payment_bar_class(remaining: i64, paid: i64) -> (s: &'static str)
    ensures
        remaining == 0 ==> s@ == "h-3 rounded-full bg-positive/85"@,
        remaining != 0 && paid > 0 ==> s@ == "h-3 rounded-full bg-amber/80"@,
        remaining != 0 && paid <= 0 ==> s@ == "h-3 rounded-full bg-bone-soft border border-rule"@,
{
    if remaining == 0 {
        "h-3 rounded-full bg-positive/85"
    } else if paid > 0 {
        "h-3 rounded-full bg-amber/80"
    } else {
        "h-3 rounded-full bg-bone-soft border border-rule"
    }
}

/// What the dashboard knows of a venture's settings.
pub enum SettingsState {
    Loading,
    Failed,
    Loaded { current_period: String, cadence: String, dues_amount_cents: i64, currency: String, timezone: String },
}

/// The dashboard's figures for a venture: the period and its rhythm, the
/// dues and their currency, and the timezone caption.
pub struct Holdings {
    pub period_value: String,
    pub period_sub: String,
    pub dues_value: String,
    pub dues_sub: String,
    pub tz_caption: String,
}

pub fn holdings(detail: &SettingsState) -> (h: Holdings)
    requires
        detail matches SettingsState::Loaded { dues_amount_cents, .. } ==> dues_amount_cents > i64::MIN,
    ensures
        match detail {
            SettingsState::Loaded { current_period, cadence, dues_amount_cents, currency, timezone } => {
                &&& h.period_value == *current_period
                &&& (cadence@ == "weekly"@ ==> h.period_sub@ == "Each ISO week"@)
                &&& (cadence@ != "weekly"@ && cadence@ == "yearly"@ ==> h.period_sub@ == "Each calendar year"@)
                &&& (cadence@ != "weekly"@ && cadence@ != "yearly"@ ==> h.period_sub@ == "Each calendar month"@)
                &&& h.dues_value@ == money_text(*dues_amount_cents as int, currency@)
                &&& h.dues_sub == *currency
                &&& h.tz_caption == *timezone
            },
            SettingsState::Failed => {
                &&& h.period_value@ == "—"@
                &&& h.period_sub@ == "couldn't reach the venture"@
                &&& h.dues_value@ == "—"@
                &&& h.dues_sub@ == "—"@
                &&& h.tz_caption@ == "—"@
            },
            SettingsState::Loading => {
                &&& h.period_value@ == "···"@
                &&& h.period_sub@ == "loading"@
                &&& h.dues_value@ == "···"@
                &&& h.dues_sub@ == "loading"@
                &&& h.tz_caption@ == "syncing"@
            },
        },
{
    match detail {
        SettingsState::Loaded { current_period, cadence, dues_amount_cents, currency, timezone } => Holdings {
            period_value: current_period.clone(),
            period_sub: cadence_word(cadence.as_str()).to_string(),
            dues_value: fmt_money(*dues_amount_cents, currency.as_str()),
            dues_sub: currency.clone(),
            tz_caption: timezone.clone(),
        },
        SettingsState::Failed => Holdings {
            period_value: "—".to_string(),
            period_sub: "couldn't reach the venture".to_string(),
            dues_value: "—".to_string(),
            dues_sub: "—".to_string(),
            tz_caption: "—".to_string(),
        },
        SettingsState::Loading => Holdings {
            period_value: "···".to_string(),
            period_sub: "loading".to_string(),
            dues_value: "···".to_string(),
            dues_sub: "loading".to_string(),
            tz_caption: "syncing".to_string(),
        },
    }
}

// ───────────────────────── the venture picker ─────────────────────────

/// A stored selection; an empty one counts as none.
pub fn stored_selection(raw: Option<String>) -> (r: Option<String>)
    ensures
        match raw {
            Some(v) => if v@.len() == 0 { r is None } else { r == Some(v) },
            None => r is None,
        },
{
    match raw {
        Some(v) => if v.as_str().is_empty() {
            None
        } else {
            Some(v)
        },
        None => None,
    }
}

/// Whether some slug of `slugs` is `s`.
pub open spec fn lists_slug(slugs: Seq<String>, s: Seq<char>) -> bool {
    exists|i: int| 0 <= i < slugs.len() && #[trigger] slugs[i]@ == s
}

/// The selection once the caller's ventures are known: a stored selection
/// that is still one of them stays; otherwise the first venture (or none)
/// is selected and must be stored. Gives the selection and whether it
/// changed.
pub fn reconcile_selection(selected: Option<String>, slugs: &Vec<String>) -> (r: (Option<String>, bool))
    ensures
        match selected {
            Some(s) => if lists_slug(slugs@, s@) {
                r.0 == Some(s) && !r.1
            } else {
                r.1 && (slugs.len() > 0 ==> r.0 == Some(slugs[0])) && (slugs.len() == 0 ==> r.0 is None)
            },
            None => r.1 && (slugs.len() > 0 ==> r.0 == Some(slugs[0])) && (slugs.len() == 0 ==> r.0 is None),
        },
{
    if let Some(s) = &selected {
        let sv = chars_of(s.as_str());
        let mut i: usize = 0;
        while i < slugs.len()
            invariant
                i <= slugs.len(),
                sv@ == s@,
                selected == Some(*s),
                forall|j: int| 0 <= j < i ==> (#[trigger] slugs@[j])@ != s@,
            decreases slugs.len() - i,
        {
            let t = chars_of(slugs[i].as_str());
            if chars_eq(&t, &sv) {
                assert(slugs@[i as int]@ == s@);
                return (selected, false);
            }
            i += 1;
        }
    }
    if slugs.len() > 0 {
        (Some(slugs[0].clone()), true)
    } else {
        (None, true)
    }
}

/// What the venture picker shows.
#[derive(Debug, Clone, Copy, PartialEq, Eq, Structural)]
pub enum PickerView {
    /// The list is still loading.
    Loading,
    /// The session is missing or expired: a sign-in link.
    SignIn,
    /// Loading failed otherwise.
    LoadFailed,
    /// No ventures yet: a link to create the first one.
    CreateFirst,
    /// The list, with the active venture.
    List,
}

pub fn picker_view(loaded: bool, error: Option<&ApiError>, count: usize) -> (v: PickerView)
    ensures
        !loaded ==> v == PickerView::Loading,
        loaded && error is Some && (*error->Some_0 is NotSignedIn || *error->Some_0 is Unauthorized) ==> v
            == PickerView::SignIn,
        loaded && error is Some && !(*error->Some_0 is NotSignedIn || *error->Some_0 is Unauthorized) ==> v
            == PickerView::LoadFailed,
        loaded && error is None && count == 0 ==> v == PickerView::CreateFirst,
        loaded && error is None && count > 0 ==> v == PickerView::List,
{
    if !loaded {
        return PickerView::Loading;
    }
    match error {
        Some(ApiError::NotSignedIn) | Some(ApiError::Unauthorized) => PickerView::SignIn,
        Some(_) => PickerView::LoadFailed,
        None => if count == 0 {
            PickerView::CreateFirst
        } else {
            PickerView::List
        },
    }
}

// ───────────────────────── more of the venture page ─────────────────────────

/// The caller's row for `slug` among their ventures, by position; a venture
/// the caller does not belong to is an error.
pub fn find_venture(slugs: &Vec<String>, slug: &str) -> (r: Result<usize, ApiError>)
    ensures
        match r {
            Ok(i) => i < slugs.len() && slugs[i as int]@ == slug@ && forall|j: int|
                0 <= j < i ==> (#[trigger] slugs@[j])@ != slug@,
            Err(e) => !lists_slug(slugs@, slug@) && e is Other && e->Other_0@
                == "venture not found in your memberships"@,
        },
{
    let sv = chars_of(slug);
    let mut i: usize = 0;
    while i < slugs.len()
        invariant
            i <= slugs.len(),
            sv@ == slug@,
            forall|j: int| 0 <= j < i ==> (#[trigger] slugs@[j])@ != slug@,
        decreases slugs.len() - i,
    {
        let t = chars_of(slugs[i].as_str());
        if chars_eq(&t, &sv) {
            return Ok(i);
        }
        i += 1;
    }
    Err(ApiError::Other("venture not found in your memberships".to_string()))
}

/// The period picked in the pool's selector: the empty choice means the
/// current period.
pub fn picked_period(p: String) -> (r: Option<String>)
    ensures
        p@.len() == 0 ==> r is None,
        p@.len() > 0 ==> r == Some(p),
{
    if p.as_str().is_empty() {
        None
    } else {
        Some(p)
    }
}

/// The tone of the pool bar: donation-style pools, settled pools, pools
/// with some payments, and empty ones.
pub fn pool_bar_tone(target_cents: i64, remaining_cents: i64, paid_cents: i64) -> (s: &'static str)
    ensures
        target_cents == 0 ==> s@ == "bg-evergreen/60"@,
        target_cents != 0 && remaining_cents == 0 ==> s@ == "bg-positive"@,
        target_cents != 0 && remaining_cents != 0 && paid_cents > 0 ==> s@ == "bg-amber"@,
        target_cents != 0 && remaining_cents != 0 && paid_cents <= 0 ==> s@ == "bg-bone-soft"@,
{
    if target_cents == 0 {
        "bg-evergreen/60"
    } else if remaining_cents == 0 {
        "bg-positive"
    } else if paid_cents > 0 {
        "bg-amber"
    } else {
        "bg-bone-soft"
    }
}

/// `X of Y settled`, or `X of Y contributing` for a pool without dues.
pub fn settled_label(dues_per_member_cents: i64, settled_count: usize, member_count: usize) -> (r: String)
    ensures
        r@ == nat_digits(settled_count as nat) + " of "@ + nat_digits(member_count as nat) + if dues_per_member_cents
            > 0 {
            " settled"@
        } else {
            " contributing"@
        },
{
    let mut v: Vec<char> = Vec::new();
    push_digits(&mut v, settled_count as u64);
    push_str(&mut v, " of ");
    push_digits(&mut v, member_count as u64);
    if dues_per_member_cents > 0 {
        push_str(&mut v, " settled");
    } else {
        push_str(&mut v, " contributing");
    }
    string_from_chars(&v)
}

/// Whether an invite row offers revoking (pending) and deleting (pending
/// or revoked).
pub fn invite_row_actions(status: &str) -> (r: (bool, bool))
    ensures
        r.0 == (status@ == "pending"@),
        r.1 == (status@ == "pending"@ || status@ == "revoked"@),
{
    let v = chars_of(status);
    let pending = chars_eq_str(&v, "pending");
    let revoked = chars_eq_str(&v, "revoked");
    (pending, pending || revoked)
}

/// One entry of the dashboard's activity feed.
pub struct ActivityEntry {
    pub kind: String,
    pub title: String,
    pub body: String,
    pub stamp: String,
}

/// The settings the activity feed speaks of.
pub struct ActivitySettings {
    pub current_period: String,
    pub cadence: String,
    pub dues_amount_cents: i64,
    pub currency: String,
    pub timezone: String,
}

/// The feed: with settings, the open period and the synced settings; and
/// always the caller's membership (dated when the join date is known).
pub fn activity_entries(settings: Option<&ActivitySettings>, role: &str, joined: &str) -> (r: Vec<ActivityEntry>)
    requires
        settings is Some ==> settings->Some_0.dues_amount_cents > i64::MIN,
    ensures
        settings is None ==> r.len() == 1,
        settings is Some ==> r.len() == 3,
        settings is Some ==> {
            let s = settings->Some_0;
            let dues = money_text(s.dues_amount_cents as int, s.currency@);
            &&& r[0].kind@ == "period"@
            &&& r[0].title@ == "Period "@ + s.current_period@ + " is open"@
            &&& r[0].body@ == s.cadence@ + " cadence; each contribution at "@ + dues
                + ". Submissions remain mutable until close, then harden."@
            &&& r[0].stamp@ == "now · "@ + s.timezone@
            &&& r[1].kind@ == "settings"@
            &&& r[1].title@ == "Cadence & dues synced"@
            &&& r[1].body@ == "Settings show "@ + dues + " per "@ + s.cadence@ + " period in "@
                + s.currency@ + "."@
            &&& r[1].stamp@ == "synced"@
        },
        ({
            let m = r[r.len() - 1];
            &&& m.kind@ == "membership"@
            &&& m.title@ == "You joined as "@ + role@
            &&& m.body@
                == "Your seat in this ledger was granted via accepted invite. Removal is not retroactive — past contributions stay on record."@
            &&& (joined@.len() == 0 ==> m.stamp@ == "—"@)
            &&& (joined@.len() > 0 ==> m.stamp@ == "on "@ + joined@)
        }),
{
    let mut r: Vec<ActivityEntry> = Vec::new();
    if let Some(s) = settings {
        let dues = fmt_money(s.dues_amount_cents, s.currency.as_str());
        let mut t: Vec<char> = Vec::new();
        push_str(&mut t, "Period ");
        push_str(&mut t, s.current_period.as_str());
        push_str(&mut t, " is open");
        let mut b: Vec<char> = Vec::new();
        push_str(&mut b, s.cadence.as_str());
        push_str(&mut b, " cadence; each contribution at ");
        push_str(&mut b, dues.as_str());
        push_str(&mut b, ". Submissions remain mutable until close, then harden.");
        let mut st: Vec<char> = Vec::new();
        push_str(&mut st, "now · ");
        push_str(&mut st, s.timezone.as_str());
        r.push(ActivityEntry {
            kind: "period".to_string(),
            title: string_from_chars(&t),
            body: string_from_chars(&b),
            stamp: string_from_chars(&st),
        });
        let mut b2: Vec<char> = Vec::new();
        push_str(&mut b2, "Settings show ");
        push_str(&mut b2, dues.as_str());
        push_str(&mut b2, " per ");
        push_str(&mut b2, s.cadence.as_str());
        push_str(&mut b2, " period in ");
        push_str(&mut b2, s.currency.as_str());
        push_str(&mut b2, ".");
        r.push(ActivityEntry {
            kind: "settings".to_string(),
            title: "Cadence & dues synced".to_string(),
            body: string_from_chars(&b2),
            stamp: "synced".to_string(),
        });
    }
    let mut t: Vec<char> = Vec::new();
    push_str(&mut t, "You joined as ");
    push_str(&mut t, role);
    let stamp = if joined.is_empty() {
        "—".to_string()
    } else {
        let mut v: Vec<char> = Vec::new();
        push_str(&mut v, "on ");
        push_str(&mut v, joined);
        string_from_chars(&v)
    };
    r.push(ActivityEntry {
        kind: "membership".to_string(),
        title: string_from_chars(&t),
        body: "Your seat in this ledger was granted via accepted invite. Removal is not retroactive — past contributions stay on record.".to_string(),
        stamp,
    });
    r
}

} // verus!
