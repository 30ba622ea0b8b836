use vstd::prelude::*;

use crate::common::domain::{period_str, spec_parse_period, tz_known, Cadence, Period, parse_tz};
use crate::common::time::Timestamp;
use crate::gateway::http::{
    api_error, api_error_owned, ApiError, BAD_REQUEST, INTERNAL_SERVER_ERROR, NOT_FOUND,
    UNPROCESSABLE_ENTITY,
};
use crate::ledger::error::{error_message as ledger_message, Error as LedgerError};
use crate::ledger::types::{
    AccumulationPoint, ContributionRecord, NewContribution, PeriodSummary, TenantSettings,
};
use crate::text::{
    chars_eq_str, chars_of, entries_view, group_by_key, grouped, has_key, int_str, int_str_padded,
    key_total, key_totals_fit, lemma_seq_lt_irreflexive, lemma_seq_lt_total, nat_digits, push_int,
    push_int_padded, push_padded, push_str, seq_lt, string_from_chars, zero_pad,
};

verus! {

/// A contribution as the API shows it; `id` is the key of its record id.
#[derive(Debug)]
pub struct ContributionView {
    pub id: String,
    pub user_email: String,
    pub cadence: String,
    pub period: String,
    pub amount_cents: i64,
    pub status: String,
    pub note: Option<String>,
    pub proof_key: Option<String>,
    pub submitted_at: Timestamp,
}

pub fn contribution_view(r: ContributionRecord) -> (v: ContributionView)
    ensures
        v.id == r.id.key,
        v.user_email == r.user_email,
        v.cadence == r.cadence,
        v.period == r.period,
        v.amount_cents == r.amount_cents,
        v.status == r.status,
        v.note == r.note,
        v.proof_key == r.proof_key,
        v.submitted_at == r.submitted_at,
{
    ContributionView {
        id: r.id.key,
        user_email: r.user_email,
        cadence: r.cadence,
        period: r.period,
        amount_cents: r.amount_cents,
        status: r.status,
        note: r.note,
        proof_key: r.proof_key,
        submitted_at: r.submitted_at,
    }
}

/// One member's roll-up for a period, as the API shows it.
#[derive(Debug)]
pub struct PeriodSummaryView {
    pub period: String,
    pub cadence: String,
    pub currency: String,
    pub dues_cents: i64,
    pub paid_cents: i64,
    pub remaining_cents: i64,
}

pub fn summary_view(period: String, cadence: String, currency: String, s: PeriodSummary) -> (v:
    PeriodSummaryView)
    ensures
        v.period == period,
        v.cadence == cadence,
        v.currency == currency,
        v.dues_cents == s.dues_cents,
        v.paid_cents == s.paid_cents,
        v.remaining_cents == s.remaining_cents,
{
    PeriodSummaryView {
        period,
        cadence,
        currency,
        dues_cents: s.dues_cents,
        paid_cents: s.paid_cents,
        remaining_cents: s.remaining_cents,
    }
}

/// The text of the period the venture considers current now, in its
/// timezone and cadence. A stored timezone or cadence that does not parse
/// is a server error carrying the parse error's message.
pub open spec fn current_period_outcome(s: TenantSettings, r: Result<String, ApiError>) -> bool {
    &&& !tz_known(s.timezone@) ==> r is Err && r->Err_0.status == INTERNAL_SERVER_ERROR
        && r->Err_0.message@ == "invalid timezone: "@ + s.timezone@
    &&& tz_known(s.timezone@) && crate::common::domain::cadence_from_name(s.cadence@) is None ==> r is Err
        && r->Err_0.status == INTERNAL_SERVER_ERROR && r->Err_0.message@ == "invalid cadence: "@
        + s.cadence@
    &&& tz_known(s.timezone@) && crate::common::domain::cadence_from_name(s.cadence@) is Some ==> r is Ok
        && exists|p: Period|
        #![trigger period_str(p)]
        p.well_formed() && Some(p.spec_cadence()) == crate::common::domain::cadence_from_name(
            s.cadence@,
        ) && r->Ok_0@ == period_str(p)
}

pub fn current_period_for(s: &TenantSettings) -> (r: Result<String, ApiError>)
    ensures
        current_period_outcome(*s, r),
{
    let tz = match parse_tz(s.timezone.as_str()) {
        Ok(tz) => tz,
        Err(e) => return Err(api_error_owned(INTERNAL_SERVER_ERROR, e.to_string())),
    };
    let cadence = match Cadence::parse(s.cadence.as_str()) {
        Ok(c) => c,
        Err(e) => return Err(api_error_owned(INTERNAL_SERVER_ERROR, e.to_string())),
    };
    let p = Period::current_in(tz, cadence);
    Ok(p.to_string())
}

/// A payment must be positive.
pub fn validate_amount(amount_cents: i64) -> (r: Result<(), ApiError>)
    ensures
        r is Ok <==> amount_cents > 0,
        r is Err ==> r->Err_0.status == BAD_REQUEST && r->Err_0.message@ == "amount_cents must be > 0"@,
{
    if amount_cents <= 0 {
        return Err(api_error(BAD_REQUEST, "amount_cents must be > 0"));
    }
    Ok(())
}

/// The row a member's payment is recorded as: the payer is the caller,
/// and the period and cadence are the venture's current ones.
pub fn contribution_record(
    payer: String,
    settings: &TenantSettings,
    period: String,
    amount_cents: i64,
    proof_key: Option<String>,
    note: Option<String>,
) -> (c: NewContribution)
    ensures
        c.user_email == payer,
        c.cadence == settings.cadence,
        c.period == period,
        c.amount_cents == amount_cents,
        c.proof_key == proof_key,
        c.note == note,
{
    NewContribution {
        user_email: payer,
        cadence: settings.cadence.clone(),
        period,
        amount_cents,
        proof_key,
        note,
    }
}

/// The period a listing is about: the one asked for, which must parse, or
/// else the current one.
pub fn requested_period(query: Option<String>, settings: &TenantSettings) -> (r: Result<
    String,
    ApiError,
>)
    ensures
        match query {
            Some(p) => match spec_parse_period(p@) {
                Ok(_) => r == Ok::<String, ApiError>(p),
                Err(m) => r is Err && r->Err_0.status == BAD_REQUEST && r->Err_0.message@
                    == "invalid period: "@ + "invalid period: "@ + m,
            },
            None => current_period_outcome(*settings, r),
        },
{
    match query {
        Some(p) => match Period::parse(p.as_str()) {
            Ok(_) => Ok(p),
            Err(e) => {
                let mut v: Vec<char> = Vec::new();
                push_str(&mut v, "invalid period: ");
                let m = e.to_string();
                push_str(&mut v, m.as_str());
                assert(v@ =~= "invalid period: "@ + "invalid period: "@ + spec_parse_period(p@)->Err_0);
                Err(api_error_owned(BAD_REQUEST, string_from_chars(&v)))
            },
        },
        None => current_period_for(settings),
    }
}

/// A ledger failure answered as a server error with its message.
pub fn internal_error(e: LedgerError) -> (r: ApiError)
    ensures
        r.status == INTERNAL_SERVER_ERROR,
        r.message@ == ledger_message(e),
{
    api_error_owned(INTERNAL_SERVER_ERROR, e.to_string())
}

/// A failed settings read: missing settings are 404.
pub fn settings_error(e: LedgerError) -> (r: ApiError)
    ensures
        e is NotFound ==> r.status == NOT_FOUND && r.message@ == "settings not found"@,
        !(e is NotFound) ==> r.status == INTERNAL_SERVER_ERROR && r.message@ == ledger_message(e),
{
    match e {
        LedgerError::NotFound => api_error(NOT_FOUND, "settings not found"),
        other => internal_error(other),
    }
}

/// A refused payment: a locked period or a breached dues cap is 422 with
/// its own wording; anything else is a server error.
pub fn add_contribution_error(e: LedgerError) -> (r: ApiError)
    ensures
        match e {
            LedgerError::PeriodLocked { period } => r.status == UNPROCESSABLE_ENTITY && r.message@
                == "period "@ + period@ + " is locked"@,
            LedgerError::DuesCapExceeded { paid_cents, dues_cents } => r.status
                == UNPROCESSABLE_ENTITY && r.message@ == "dues cap exceeded: would total "@
                + int_str(paid_cents as int) + " cents (cap "@ + int_str(dues_cents as int) + ")"@,
            other => r.status == INTERNAL_SERVER_ERROR && r.message@ == ledger_message(other),
        },
{
    match e {
        LedgerError::PeriodLocked { period } => {
            let mut v: Vec<char> = Vec::new();
            push_str(&mut v, "period ");
            push_str(&mut v, period.as_str());
            push_str(&mut v, " is locked");
            api_error_owned(UNPROCESSABLE_ENTITY, string_from_chars(&v))
        },
        LedgerError::DuesCapExceeded { paid_cents, dues_cents } => {
            let mut v: Vec<char> = Vec::new();
            push_str(&mut v, "dues cap exceeded: would total ");
            push_int(&mut v, paid_cents);
            push_str(&mut v, " cents (cap ");
            push_int(&mut v, dues_cents);
            push_str(&mut v, ")");
            api_error_owned(UNPROCESSABLE_ENTITY, string_from_chars(&v))
        },
        other => internal_error(other),
    }
}

// ───────────────────────── the pool of a period ─────────────────────────

/// The non-rejected payments of `rows` as `(member email, amount)`.
pub open spec fn paid_entries(rows: Seq<ContributionRecord>) -> Seq<(Seq<char>, int)>
    decreases rows.len(),
{
    if rows.len() == 0 {
        Seq::empty()
    } else {
        let r = rows.last();
        paid_entries(rows.drop_last()) + if r.status@ != "rejected"@ {
            seq![(r.user_email@, r.amount_cents as int)]
        } else {
            Seq::<(Seq<char>, int)>::empty()
        }
    }
}

/// The sum of the amounts of `e`.
pub open spec fn entries_total(e: Seq<(Seq<char>, int)>) -> int
    decreases e.len(),
{
    if e.len() == 0 {
        0
    } else {
        entries_total(e.drop_last()) + e.last().1
    }
}

/// Whether a member who paid `total` counts as settled: with dues, having
/// paid at least the dues; without dues (a donation-style venture), having
/// paid anything.
pub open spec fn settles(total: int, dues: int) -> bool {
    if dues > 0 {
        total >= dues
    } else {
        total > 0
    }
}

/// The members of `e` who count as settled.
pub open spec fn settled_members(e: Seq<(Seq<char>, int)>, dues: int) -> Set<Seq<char>> {
    Set::new(|k: Seq<char>| has_key(e, k) && settles(key_total(e, k), dues))
}

/// `dues * n`, saturated to the `i64` range.
pub open spec fn pool_target(dues: int, n: int) -> int {
    if dues * n > i64::MAX {
        i64::MAX as int
    } else if dues * n < i64::MIN {
        i64::MIN as int
    } else {
        dues * n
    }
}

/// The whole pool of a period, as the API shows it.
#[derive(Debug)]
pub struct PoolSummaryView {
    pub period: String,
    pub cadence: String,
    pub currency: String,
    pub dues_per_member_cents: i64,
    pub member_count: usize,
    pub target_cents: i64,
    pub paid_cents: i64,
    pub remaining_cents: i64,
    pub settled_count: usize,
}

fn saturating_mul_i64(a: i64, b: i64) -> (r: i64)
    ensures
        r == pool_target(a as int, b as int),
{
    proof {
        let (x, y) = (a as int, b as int);
        assert(-0x4000_0000_0000_0000_0000_0000_0000_0000 <= x * y <= 0x4000_0000_0000_0000_0000_0000_0000_0000)
            by (nonlinear_arith)
            requires
                -0x8000_0000_0000_0000 <= x < 0x8000_0000_0000_0000,
                -0x8000_0000_0000_0000 <= y < 0x8000_0000_0000_0000,
        ;
    }
    let p: i128 = a as i128 * b as i128;
    if p > i64::MAX as i128 {
        i64::MAX
    } else if p < i64::MIN as i128 {
        i64::MIN
    } else {
        p as i64
    }
}

/// The non-rejected payments of `rows`, as text keys and amounts.
fn paid_entries_of(rows: &Vec<ContributionRecord>) -> (e: Vec<(Vec<char>, i64)>)
    ensures
        entries_view(e@) == paid_entries(rows@),
{
    let mut e: Vec<(Vec<char>, i64)> = Vec::new();
    let mut i: usize = 0;
    while i < rows.len()
        invariant
            i <= rows.len(),
            entries_view(e@) == paid_entries(rows@.take(i as int)),
        decreases rows.len() - i,
    {
        proof {
            assert(rows@.take(i + 1).drop_last() =~= rows@.take(i as int));
        }
        let st = chars_of(rows[i].status.as_str());
        if !chars_eq_str(&st, "rejected") {
            let k = chars_of(rows[i].user_email.as_str());
            e.push((k, rows[i].amount_cents));
        }
        proof {
            assert(entries_view(e@) =~= paid_entries(rows@.take(i + 1)));
        }
        i += 1;
    }
    proof {
        assert(rows@.take(rows.len() as int) =~= rows@);
    }
    e
}

/// Roll-up of a whole period: the target is the dues times the number of
/// members (saturating), paid is the sum of all non-rejected payments,
/// remaining never goes below zero, and the settled count is the number of
/// members whose non-rejected payments settle them.
pub fn pool_summary(
    period: String,
    cadence: String,
    currency: String,
    dues_per_member_cents: i64,
    member_count: usize,
    rows: &Vec<ContributionRecord>,
) -> (v: PoolSummaryView)
    requires
        member_count <= i64::MAX,
        key_totals_fit(paid_entries(rows@)),
        i64::MIN <= entries_total(paid_entries(rows@)) <= i64::MAX,
        i64::MIN <= pool_target(dues_per_member_cents as int, member_count as int) - entries_total(
            paid_entries(rows@),
        ) <= i64::MAX,
    ensures
        v.period == period,
        v.cadence == cadence,
        v.currency == currency,
        v.dues_per_member_cents == dues_per_member_cents,
        v.member_count == member_count,
        v.target_cents == pool_target(dues_per_member_cents as int, member_count as int),
        v.paid_cents == entries_total(paid_entries(rows@)),
        v.remaining_cents == if v.target_cents - v.paid_cents > 0 {
            v.target_cents - v.paid_cents
        } else {
            0
        },
        v.settled_count == settled_members(paid_entries(rows@), dues_per_member_cents as int).len(),
{
    let ev = paid_entries_of(rows);
    let ghost e = entries_view(ev@);
    // total of the non-rejected payments, summed wide
    let mut paid: i128 = 0;
    let mut i: usize = 0;
    while i < ev.len()
        invariant
            i <= ev.len(),
            e == entries_view(ev@),
            paid == entries_total(e.take(i as int)),
            -(i as int) * 0x8000_0000_0000_0000 <= paid <= (i as int) * 0x8000_0000_0000_0000,
        decreases ev.len() - i,
    {
        proof {
            assert(e.take(i + 1).drop_last() =~= e.take(i as int));
            assert(e.take(i + 1).last() == e[i as int]);
        }
        paid = paid + ev[i].1 as i128;
        i += 1;
    }
    proof {
        assert(e.take(ev.len() as int) =~= e);
    }
    let paid: i64 = paid as i64;
    // members, each with the sum of their payments
    let g = group_by_key(&ev);
    let ghost gv = entries_view(g@);
    let mut settled: usize = 0;
    let ghost mut acc: Set<Seq<char>> = Set::empty();
    let mut j: usize = 0;
    while j < g.len()
        invariant
            j <= g.len(),
            gv == entries_view(g@),
            grouped(e, gv),
            acc.finite(),
            acc.len() == settled,
            settled <= j,
            forall|k: Seq<char>|
                acc.contains(k) <==> exists|m: int|
                    0 <= m < j && (#[trigger] gv[m]).0 == k && settles(gv[m].1, dues_per_member_cents as int),
        decreases g.len() - j,
    {
        let t = g[j].1;
        let ok = if dues_per_member_cents > 0 {
            t >= dues_per_member_cents
        } else {
            t > 0
        };
        proof {
            assert(gv[j as int] == (g@[j as int].0@, g@[j as int].1 as int));
        }
        if ok {
            proof {
                let k = gv[j as int].0;
                assert(!acc.contains(k)) by {
                    if acc.contains(k) {
                        let m = choose|m: int|
                            0 <= m < j && (#[trigger] gv[m]).0 == k && settles(gv[m].1, dues_per_member_cents as int);
                        assert(crate::text::seq_lt(gv[m].0, gv[j as int].0));
                        lemma_seq_lt_irreflexive(k);
                    }
                }
                acc = acc.insert(k);
                assert forall|k2: Seq<char>| acc.contains(k2) <==> exists|m: int|
                    0 <= m < j + 1 && (#[trigger] gv[m]).0 == k2 && settles(gv[m].1, dues_per_member_cents as int) by {
                    if k2 == k {
                        assert(gv[j as int].0 == k2);
                    }
                }
            }
            settled = settled + 1;
        } else {
            proof {
                assert forall|k2: Seq<char>| acc.contains(k2) <==> exists|m: int|
                    0 <= m < j + 1 && (#[trigger] gv[m]).0 == k2 && settles(gv[m].1, dues_per_member_cents as int) by {
                    if exists|m: int|
                        0 <= m < j + 1 && (#[trigger] gv[m]).0 == k2 && settles(gv[m].1, dues_per_member_cents as int) {
                        let m = choose|m: int|
                            0 <= m < j + 1 && (#[trigger] gv[m]).0 == k2 && settles(gv[m].1, dues_per_member_cents as int);
                        assert(m != j);
                    }
                }
            }
        }
        j += 1;
    }
    proof {
        let target = settled_members(e, dues_per_member_cents as int);
        assert forall|k: Seq<char>| acc.contains(k) <==> target.contains(k) by {
            if acc.contains(k) {
                let m = choose|m: int|
                    0 <= m < g.len() && (#[trigger] gv[m]).0 == k && settles(gv[m].1, dues_per_member_cents as int);
                assert(has_key(gv, k));
            }
            if target.contains(k) {
                assert(has_key(gv, k));
                let m = choose|m: int| 0 <= m < gv.len() && #[trigger] gv[m].0 == k;
                assert(gv[m].1 == key_total(e, gv[m].0));
            }
        }
        assert(acc =~= target);
    }
    let target_cents = saturating_mul_i64(dues_per_member_cents, member_count as i64);
    let d = target_cents - paid;
    let remaining_cents = if d > 0 { d } else { 0 };
    PoolSummaryView {
        period,
        cadence,
        currency,
        dues_per_member_cents,
        member_count,
        target_cents,
        paid_cents: paid,
        remaining_cents,
        settled_count: settled,
    }
}

// ───────────────────────── the period picker ─────────────────────────

/// The periods to offer: the current one is always there, first when it
/// had no rows yet.
pub fn with_current_period(periods: Vec<String>, current: &String) -> (r: Vec<String>)
    ensures
        crate::ledger::client::has_text(periods@, current@) ==> r@ == periods@,
        !crate::ledger::client::has_text(periods@, current@) ==> r@ == seq![*current] + periods@,
{
    let c = chars_of(current.as_str());
    let mut i: usize = 0;
    while i < periods.len()
        invariant
            i <= periods.len(),
            c@ == current@,
            forall|j: int| 0 <= j < i ==> (#[trigger] periods@[j])@ != current@,
        decreases periods.len() - i,
    {
        let p = chars_of(periods[i].as_str());
        if crate::text::chars_eq(&p, &c) {
            return periods;
        }
        i += 1;
    }
    let mut r: Vec<String> = Vec::new();
    r.push(current.clone());
    let mut k: usize = 0;
    while k < periods.len()
        invariant
            k <= periods.len(),
            r@ == seq![*current] + periods@.take(k as int),
        decreases periods.len() - k,
    {
        r.push(periods[k].clone());
        proof {
            assert(periods@.take(k + 1) =~= periods@.take(k as int).push(periods@[k as int]));
        }
        k += 1;
    }
    proof {
        assert(periods@.take(periods.len() as int) =~= periods@);
    }
    r
}

// ───────────────────────── accumulation chart ─────────────────────────

/// Bucket size of the accumulation chart.
#[derive(Debug, Clone, Copy, PartialEq, Eq, Structural)]
pub enum BucketMode {
    Year,
    Month,
}

/// The wire name of a bucket mode.
pub fn bucket_mode_name(m: BucketMode) -> (s: String)
    ensures
        m == BucketMode::Year ==> s@ == "year"@,
        m == BucketMode::Month ==> s@ == "month"@,
{
    match m {
        BucketMode::Year => "year".to_string(),
        BucketMode::Month => "month".to_string(),
    }
}

/// Seconds in the 365 days after which yearly buckets are used.
pub const YEARLY_SPAN_SECS: i64 = 31_536_000;

/// Whether `now` is at least 365 days after `first`.
pub open spec fn year_apart(now: Timestamp, first: Timestamp) -> bool {
    now.secs - first.secs > YEARLY_SPAN_SECS || (now.secs - first.secs == YEARLY_SPAN_SECS
        && now.nanos >= first.nanos)
}

/// Automatic bucket choice at time `now`: yearly when the first payment is
/// at least 365 days old, monthly otherwise (and for no payments at all).
pub fn decide_bucket_at(points: &Vec<AccumulationPoint>, now: &Timestamp) -> (m: BucketMode)
    ensures
        points.len() == 0 ==> m == BucketMode::Month,
        points.len() > 0 ==> (m == BucketMode::Year <==> year_apart(*now, points[0].submitted_at)),
{
    if points.len() == 0 {
        return BucketMode::Month;
    }
    if now.at_least_after(&points[0].submitted_at, YEARLY_SPAN_SECS) {
        BucketMode::Year
    } else {
        BucketMode::Month
    }
}

/// Automatic bucket choice now. Without payments it is monthly; otherwise
/// it is the choice at the instant the clock gave (which instant that is
/// is not stated).
pub fn decide_bucket(points: &Vec<AccumulationPoint>) -> (m: BucketMode)
    ensures
        points.len() == 0 ==> m == BucketMode::Month,
        points.len() > 0 ==> exists|now: Timestamp|
            #![trigger year_apart(now, points[0].submitted_at)]
            now.well_formed() && (m == BucketMode::Year <==> year_apart(now, points[0].submitted_at)),
{
    let now = Timestamp::now();
    let m = decide_bucket_at(points, &now);
    proof {
        if points.len() > 0 {
            assert(now.well_formed() && (m == BucketMode::Year <==> year_apart(now, points[0].submitted_at)));
        }
    }
    m
}

/// The bucket mode a query names, if it names one.
pub open spec fn named_mode(q: Seq<char>) -> Option<BucketMode> {
    if q == "year"@ {
        Some(BucketMode::Year)
    } else if q == "month"@ {
        Some(BucketMode::Month)
    } else {
        None
    }
}

/// The bucket mode asked for (`year` or `month`), or the automatic choice.
pub fn bucket_choice(requested: Option<&str>, points: &Vec<AccumulationPoint>) -> (m: BucketMode)
    ensures
        requested is Some && named_mode(requested->Some_0@) is Some ==> Some(m) == named_mode(
            requested->Some_0@,
        ),
        !(requested is Some && named_mode(requested->Some_0@) is Some) && points.len() == 0 ==> m
            == BucketMode::Month,
{
    match requested {
        Some(q) => {
            let v = chars_of(q);
            if chars_eq_str(&v, "year") {
                BucketMode::Year
            } else if chars_eq_str(&v, "month") {
                BucketMode::Month
            } else {
                decide_bucket(points)
            }
        },
        None => decide_bucket(points),
    }
}

/// The bucket key of a payment: "YYYY", or "YYYY-MM".
pub open spec fn bucket_key(t: Timestamp, mode: BucketMode) -> Seq<char> {
    match mode {
        BucketMode::Year => int_str_padded(t.year as int, 4),
        BucketMode::Month => int_str_padded(t.year as int, 4) + seq!['-'] + zero_pad(
            nat_digits(t.month as nat),
            2,
        ),
    }
}

/// The payments as `(bucket key, amount)`.
pub open spec fn bucket_entries(points: Seq<AccumulationPoint>, mode: BucketMode) -> Seq<
    (Seq<char>, int),
> {
    points.map_values(|p: AccumulationPoint| (bucket_key(p.submitted_at, mode), p.amount_cents as int))
}

/// Sum of the amounts of `e` whose key is in `s`.
pub open spec fn keys_total(e: Seq<(Seq<char>, int)>, s: Set<Seq<char>>) -> int
    decreases e.len(),
{
    if e.len() == 0 {
        0
    } else {
        keys_total(e.drop_last(), s) + if s.contains(e.last().0) {
            e.last().1
        } else {
            0
        }
    }
}

/// The texts up to and including `k` in text order.
pub open spec fn keys_upto(k: Seq<char>) -> Set<Seq<char>> {
    Set::new(|k2: Seq<char>| !seq_lt(k, k2))
}

/// Every running total of the chart, bucket by bucket in key order, fits
/// in `i64` (what adding the bucket sums in order as `i64` needs).
pub open spec fn running_totals_fit(e: Seq<(Seq<char>, int)>) -> bool {
    forall|k: Seq<char>|
        has_key(e, k) ==> i64::MIN <= #[trigger] keys_total(e, keys_upto(k)) <= i64::MAX
}

proof fn lemma_keys_total_agree(e: Seq<(Seq<char>, int)>, s1: Set<Seq<char>>, s2: Set<Seq<char>>)
    requires
        forall|i: int| 0 <= i < e.len() ==> (s1.contains(#[trigger] e[i].0) <==> s2.contains(e[i].0)),
    ensures
        keys_total(e, s1) == keys_total(e, s2),
    decreases e.len(),
{
    if e.len() > 0 {
        assert(s1.contains(e[e.len() - 1].0) <==> s2.contains(e[e.len() - 1].0));
        assert forall|i: int| 0 <= i < e.drop_last().len() implies (s1.contains(
            #[trigger] e.drop_last()[i].0,
        ) <==> s2.contains(e.drop_last()[i].0)) by {
            assert(e.drop_last()[i] == e[i]);
        }
        lemma_keys_total_agree(e.drop_last(), s1, s2);
    }
}

proof fn lemma_keys_total_insert(e: Seq<(Seq<char>, int)>, s: Set<Seq<char>>, k: Seq<char>)
    requires
        !s.contains(k),
    ensures
        keys_total(e, s.insert(k)) == keys_total(e, s) + key_total(e, k),
    decreases e.len(),
{
    if e.len() > 0 {
        lemma_keys_total_insert(e.drop_last(), s, k);
    }
}

proof fn lemma_keys_total_empty(e: Seq<(Seq<char>, int)>)
    ensures
        keys_total(e, Set::empty()) == 0,
    decreases e.len(),
{
    if e.len() > 0 {
        lemma_keys_total_empty(e.drop_last());
    }
}

/// One bar of the accumulation chart.
#[derive(Debug)]
pub struct AccumulationPointView {
    pub bucket: String,
    pub period_cents: i64,
    pub cumulative_cents: i64,
}

/// The running totals of the amounts of `s`.
pub open spec fn running_total(s: Seq<(Seq<char>, int)>, i: int) -> int
    decreases i,
{
    if i <= 0 {
        0
    } else {
        running_total(s, i - 1) + s[i - 1].1
    }
}

pub open spec fn series_entries(v: Seq<AccumulationPointView>) -> Seq<(Seq<char>, int)> {
    v.map_values(|p: AccumulationPointView| (p.bucket@, p.period_cents as int))
}

fn bucket_key_of(t: &Timestamp, mode: BucketMode) -> (k: Vec<char>)
    ensures
        k@ == bucket_key(*t, mode),
{
    let mut k: Vec<char> = Vec::new();
    push_int_padded(&mut k, t.year as i64, 4);
    if mode == BucketMode::Month {
        k.push('-');
        push_padded(&mut k, t.month as u64, 2);
    }
    k
}

/// The accumulation chart: payments grouped into buckets, one bar per
/// bucket in ascending key order (chronological, as keys are zero-padded),
/// each with its bucket's sum and the running total up to it.
pub fn bucket_series(points: &Vec<AccumulationPoint>, mode: BucketMode) -> (v: Vec<
    AccumulationPointView,
>)
    requires
        key_totals_fit(bucket_entries(points@, mode)),
        running_totals_fit(bucket_entries(points@, mode)),
    ensures
        grouped(bucket_entries(points@, mode), series_entries(v@)),
        forall|i: int| 0 <= i < v.len() ==> #[trigger] v[i].cumulative_cents == running_total(
            series_entries(v@),
            i + 1,
        ),
        v.len() == 0 <==> points.len() == 0,
        v.len() > 0 ==> v[v.len() - 1].cumulative_cents == entries_total(bucket_entries(points@, mode)),
{
    let ghost e = bucket_entries(points@, mode);
    let mut ev: Vec<(Vec<char>, i64)> = Vec::new();
    let mut i: usize = 0;
    while i < points.len()
        invariant
            i <= points.len(),
            e == bucket_entries(points@, mode),
            ev@.len() == i,
            entries_view(ev@) == e.take(i as int),
        decreases points.len() - i,
    {
        let k = bucket_key_of(&points[i].submitted_at, mode);
        let ghost kv = k@;
        let ghost old_ev = ev@;
        ev.push((k, points[i].amount_cents));
        proof {
            assert(e[i as int] == (bucket_key(points@[i as int].submitted_at, mode), points@[i as int].amount_cents as int));
            assert forall|m: int| 0 <= m < i + 1 implies #[trigger] entries_view(ev@)[m] == e.take(i + 1)[m] by {
                if m < i {
                    assert(ev@[m] == old_ev[m]);
                    assert(entries_view(old_ev)[m] == e.take(i as int)[m]);
                }
            }
            assert(entries_view(ev@) =~= e.take(i + 1));
        }
        i += 1;
    }
    proof {
        assert(e.take(points.len() as int) =~= e);
    }
    let g = group_by_key(&ev);
    let ghost gv = entries_view(g@);
    let mut out: Vec<AccumulationPointView> = Vec::new();
    let mut running: i64 = 0;
    let ghost mut seen: Set<Seq<char>> = Set::empty();
    let mut j: usize = 0;
    proof {
        lemma_keys_total_empty(e);
    }
    while j < g.len()
        invariant
            j <= g.len(),
            gv == entries_view(g@),
            grouped(e, gv),
            running_totals_fit(e),
            out.len() == j,
            series_entries(out@) == gv.take(j as int),
            forall|m: int| 0 <= m < j ==> #[trigger] out[m].cumulative_cents == running_total(gv, m + 1),
            running == running_total(gv, j as int),
            running == keys_total(e, seen),
            forall|k: Seq<char>| seen.contains(k) <==> exists|m: int| 0 <= m < j && (#[trigger] gv[m]).0 == k,
        decreases g.len() - j,
    {
        proof {
            let k = gv[j as int].0;
            assert(!seen.contains(k)) by {
                if seen.contains(k) {
                    let m = choose|m: int| 0 <= m < j && (#[trigger] gv[m]).0 == k;
                    assert(crate::text::seq_lt(gv[m].0, gv[j as int].0));
                    lemma_seq_lt_irreflexive(k);
                }
            }
            lemma_keys_total_insert(e, seen, k);
            assert forall|i: int| 0 <= i < e.len() implies (seen.insert(k).contains(#[trigger] e[i].0)
                <==> keys_upto(k).contains(e[i].0)) by {
                let k2 = e[i].0;
                assert(has_key(e, k2));
                assert(has_key(gv, k2));
                let m = choose|m: int| 0 <= m < gv.len() && #[trigger] gv[m].0 == k2;
                lemma_seq_lt_irreflexive(k);
                lemma_seq_lt_total(k, k2);
                if m < j {
                    assert(crate::text::seq_lt(gv[m].0, gv[j as int].0));
                    assert(seen.contains(k2));
                } else if m > j {
                    assert(crate::text::seq_lt(gv[j as int].0, gv[m].0));
                    assert(!seen.contains(k2)) by {
                        if seen.contains(k2) {
                            let m2 = choose|m2: int| 0 <= m2 < j && (#[trigger] gv[m2]).0 == k2;
                            assert(crate::text::seq_lt(gv[m2].0, gv[j as int].0));
                        }
                    }
                }
            }
            lemma_keys_total_agree(e, seen.insert(k), keys_upto(k));
            assert(has_key(gv, k));
            assert(has_key(e, k));
            assert(i64::MIN <= keys_total(e, keys_upto(k)) <= i64::MAX);
            assert(gv[j as int].1 == key_total(e, k));
            assert(gv[j as int].1 == g@[j as int].1);
        }
        running = running + g[j].1;
        proof {
            let k = gv[j as int].0;
            seen = seen.insert(k);
            assert forall|k2: Seq<char>| seen.contains(k2) <==> exists|m: int| 0 <= m < j + 1 && (#[trigger] gv[m]).0 == k2 by {
                if k2 == k {
                    assert(gv[j as int].0 == k2);
                }
                if exists|m: int| 0 <= m < j + 1 && (#[trigger] gv[m]).0 == k2 {
                    let m = choose|m: int| 0 <= m < j + 1 && (#[trigger] gv[m]).0 == k2;
                    if m < j {
                        assert(seen.contains(k2));
                    }
                }
            }
        }
        out.push(AccumulationPointView {
            bucket: string_from_chars(&g[j].0),
            period_cents: g[j].1,
            cumulative_cents: running,
        });
        proof {
            assert(series_entries(out@) =~= gv.take(j + 1));
        }
        j += 1;
    }
    proof {
        assert(gv.take(g.len() as int) =~= gv);
        assert forall|i: int| 0 <= i < e.len() implies seen.contains(#[trigger] e[i].0) by {
            assert(has_key(e, e[i].0));
            assert(has_key(gv, e[i].0));
            let m = choose|m: int| 0 <= m < gv.len() && #[trigger] gv[m].0 == e[i].0;
        }
        lemma_keys_total_all(e, seen);
        if e.len() > 0 {
            assert(has_key(e, e[0].0));
            assert(has_key(gv, e[0].0));
        }
        if g.len() > 0 {
            let k0 = gv[0].0;
            assert(has_key(gv, k0));
            assert(has_key(e, k0));
        }
        assert forall|i: int| 0 <= i < out.len() implies #[trigger] out[i].cumulative_cents
            == running_total(series_entries(out@), i + 1) by {
            assert forall|m: int| 0 <= m <= i + 1 implies running_total(series_entries(out@), m)
                == running_total(gv, m) by {
                lemma_running_total_eq(series_entries(out@), gv, m);
            }
        }
    }
    out
}

proof fn lemma_keys_total_all(e: Seq<(Seq<char>, int)>, s: Set<Seq<char>>)
    requires
        forall|i: int| 0 <= i < e.len() ==> s.contains(#[trigger] e[i].0),
    ensures
        keys_total(e, s) == entries_total(e),
    decreases e.len(),
{
    if e.len() > 0 {
        assert(s.contains(e[e.len() - 1].0));
        assert forall|i: int| 0 <= i < e.drop_last().len() implies s.contains(#[trigger] e.drop_last()[i].0) by {
            assert(e.drop_last()[i] == e[i]);
        }
        lemma_keys_total_all(e.drop_last(), s);
    }
}

proof fn lemma_running_total_eq(a: Seq<(Seq<char>, int)>, b: Seq<(Seq<char>, int)>, m: int)
    requires
        a == b,
    ensures
        running_total(a, m) == running_total(b, m),
{
}

} // verus!

verus! {

/// Law: the first payment counts as a year old exactly when at least 365
/// days (to the nanosecond) lie between it and `now`.
pub proof fn lemma_year_apart_is_365_days(now: Timestamp, first: Timestamp)
    requires
        now.nanos < 1_000_000_000,
        first.nanos < 1_000_000_000,
    ensures
        year_apart(now, first) <==> now.total_nanos() - first.total_nanos() >= 365 * 86_400
            * 1_000_000_000,
{
}

/// Law: once the first payment is a year old it stays so: the automatic
/// choice never goes back from yearly to monthly as time passes.
pub proof fn lemma_year_apart_stays(now: Timestamp, later: Timestamp, first: Timestamp)
    requires
        now.nanos < 1_000_000_000,
        later.nanos < 1_000_000_000,
        first.nanos < 1_000_000_000,
        now.total_nanos() <= later.total_nanos(),
        year_apart(now, first),
    ensures
        year_apart(later, first),
{
    lemma_year_apart_is_365_days(now, first);
    lemma_year_apart_is_365_days(later, first);
}

} // verus!
