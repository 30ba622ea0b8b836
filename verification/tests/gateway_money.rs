use sharam::common::time::Timestamp;
use sharam::gateway::contributions::{
    add_contribution_error, bucket_choice, bucket_mode_name, bucket_series, contribution_view,
    current_period_for, decide_bucket, decide_bucket_at, pool_summary, requested_period,
    settings_error, summary_view, validate_amount, with_current_period, BucketMode,
};
use sharam::gateway::http::api_error;
use sharam::ledger::error::Error as LedgerError;
use sharam::ledger::types::{
    AccumulationPoint, ContributionRecord, PeriodSummary, RecordId, TenantSettings,
};

fn at(year: i32, month: u8, secs: i64) -> Timestamp {
    Timestamp { secs, nanos: 0, year, month, rfc3339: String::new() }
}

fn row(email: &str, amount: i64, status: &str) -> ContributionRecord {
    ContributionRecord {
        id: RecordId { table: "contribution".into(), key: format!("{email}-{amount}") },
        user_email: email.into(),
        cadence: "monthly".into(),
        period: "2026-04".into(),
        amount_cents: amount,
        status: status.into(),
        proof_key: None,
        note: None,
        submitted_at: at(2026, 4, 100),
        updated_at: at(2026, 4, 100),
        locked_at: None,
    }
}

fn settings(tz: &str, cadence: &str) -> TenantSettings {
    TenantSettings {
        timezone: tz.into(),
        currency: "USD".into(),
        display_name: "Fund".into(),
        cadence: cadence.into(),
        dues_amount_cents: 10_000,
    }
}

#[test]
fn pool_summary_counts_settled_members() {
    let rows = vec![
        row("a@x", 4_000, "submitted"),
        row("a@x", 6_000, "verified"),
        row("b@x", 9_000, "submitted"),
        row("c@x", 50_000, "rejected"),
    ];
    let s = pool_summary("2026-04".into(), "monthly".into(), "USD".into(), 10_000, 3, &rows);
    assert_eq!(s.target_cents, 30_000);
    assert_eq!(s.paid_cents, 19_000);
    assert_eq!(s.remaining_cents, 11_000);
    assert_eq!(s.settled_count, 1);
    assert_eq!(s.member_count, 3);
}

#[test]
fn pool_summary_without_dues_counts_participants() {
    let rows = vec![row("a@x", 100, "submitted"), row("b@x", 1, "submitted"), row("a@x", 5, "submitted")];
    let s = pool_summary("2026".into(), "yearly".into(), "USD".into(), 0, 4, &rows);
    assert_eq!(s.target_cents, 0);
    assert_eq!(s.paid_cents, 106);
    assert_eq!(s.remaining_cents, 0);
    assert_eq!(s.settled_count, 2);
}

#[test]
fn pool_target_saturates() {
    let s = pool_summary("p".into(), "monthly".into(), "USD".into(), i64::MAX / 2, 3, &vec![]);
    assert_eq!(s.target_cents, i64::MAX);
    assert_eq!(s.remaining_cents, i64::MAX);
}

#[test]
fn periods_always_offer_the_current_one() {
    let v = vec!["2026-03".to_string(), "2026-02".to_string()];
    assert_eq!(
        with_current_period(v.clone(), &"2026-04".to_string()),
        vec!["2026-04".to_string(), "2026-03".to_string(), "2026-02".to_string()]
    );
    assert_eq!(with_current_period(v.clone(), &"2026-02".to_string()), v);
}

fn point(year: i32, month: u8, secs: i64, cents: i64) -> AccumulationPoint {
    AccumulationPoint { submitted_at: at(year, month, secs), amount_cents: cents }
}

#[test]
fn accumulation_series_by_month_and_year() {
    let pts = vec![
        point(2026, 2, 30, 500),
        point(2025, 11, 10, 100),
        point(2026, 2, 20, 250),
        point(2025, 12, 15, 50),
    ];
    let m = bucket_series(&pts, BucketMode::Month);
    let keys: Vec<&str> = m.iter().map(|p| p.bucket.as_str()).collect();
    assert_eq!(keys, vec!["2025-11", "2025-12", "2026-02"]);
    let per: Vec<i64> = m.iter().map(|p| p.period_cents).collect();
    assert_eq!(per, vec![100, 50, 750]);
    let cum: Vec<i64> = m.iter().map(|p| p.cumulative_cents).collect();
    assert_eq!(cum, vec![100, 150, 900]);
    let y = bucket_series(&pts, BucketMode::Year);
    assert_eq!(y.len(), 2);
    assert_eq!(y[0].bucket, "2025");
    assert_eq!(y[1].bucket, "2026");
    assert_eq!(y[1].cumulative_cents, 900);
    assert!(bucket_series(&vec![], BucketMode::Year).is_empty());
}

#[test]
fn bucket_choice_rules() {
    let pts = vec![point(2025, 1, 1_000, 1)];
    let now = at(2026, 1, 1_000 + 31_536_000);
    assert_eq!(decide_bucket_at(&pts, &now), BucketMode::Year);
    let earlier = at(2026, 1, 1_000 + 31_535_999);
    assert_eq!(decide_bucket_at(&pts, &earlier), BucketMode::Month);
    assert_eq!(decide_bucket_at(&vec![], &now), BucketMode::Month);
    assert_eq!(decide_bucket(&vec![]), BucketMode::Month);
    assert_eq!(bucket_choice(Some("year"), &vec![]), BucketMode::Year);
    assert_eq!(bucket_choice(Some("month"), &pts), BucketMode::Month);
    assert_eq!(bucket_choice(Some("auto"), &vec![]), BucketMode::Month);
    assert_eq!(bucket_mode_name(BucketMode::Year), "year");
}

#[test]
fn contribution_and_summary_views() {
    let v = contribution_view(row("a@x", 10, "submitted"));
    assert_eq!(v.id, "a@x-10");
    assert_eq!(v.amount_cents, 10);
    let s = summary_view(
        "2026-04".into(),
        "monthly".into(),
        "USD".into(),
        PeriodSummary { dues_cents: 100, paid_cents: 40, remaining_cents: 60 },
    );
    assert_eq!(s.remaining_cents, 60);
    assert_eq!(s.period, "2026-04");
}

#[test]
fn period_selection_rules() {
    let st = settings("UTC", "monthly");
    assert_eq!(requested_period(Some("2026-04".into()), &st), Ok("2026-04".to_string()));
    assert_eq!(
        requested_period(Some("2026-13".into()), &st).err(),
        Some(api_error(400, "invalid period: invalid period: 2026-13"))
    );
    let cur = requested_period(None, &st).unwrap();
    assert_eq!(cur.len(), 7);
    assert_eq!(
        current_period_for(&settings("Mars/Base", "monthly")).err(),
        Some(api_error(500, "invalid timezone: Mars/Base"))
    );
    assert_eq!(
        current_period_for(&settings("UTC", "daily")).err(),
        Some(api_error(500, "invalid cadence: daily"))
    );
    assert!(current_period_for(&settings("UTC", "weekly")).unwrap().contains("-W"));
}

#[test]
fn contribution_error_rules() {
    assert_eq!(validate_amount(0).err(), Some(api_error(400, "amount_cents must be > 0")));
    assert_eq!(validate_amount(1), Ok(()));
    assert_eq!(settings_error(LedgerError::NotFound), api_error(404, "settings not found"));
    assert_eq!(
        add_contribution_error(LedgerError::PeriodLocked { period: "2020-01".into() }),
        api_error(422, "period 2020-01 is locked")
    );
    assert_eq!(
        add_contribution_error(LedgerError::DuesCapExceeded { paid_cents: 13_000, dues_cents: 10_000 }),
        api_error(422, "dues cap exceeded: would total 13000 cents (cap 10000)")
    );
    assert_eq!(
        add_contribution_error(LedgerError::Db("boom".into())),
        api_error(500, "database: boom")
    );
}

#[test]
fn pool_summary_with_mixed_signs_near_the_limit() {
    let rows = vec![row("a@x", i64::MAX, "submitted"), row("a@x", -5, "submitted")];
    let s = pool_summary("2026-04".into(), "monthly".into(), "USD".into(), 0, 1, &rows);
    assert_eq!(s.paid_cents, i64::MAX - 5);
    assert_eq!(s.target_cents, 0);
    assert_eq!(s.remaining_cents, 0);
    assert_eq!(s.settled_count, 1);
}

#[test]
fn bucket_series_with_mixed_signs_near_the_limit() {
    let pts = vec![point(2025, 1, 1, i64::MAX), point(2026, 1, 2, -5), point(2026, 2, 3, 5)];
    let y = bucket_series(&pts, BucketMode::Year);
    assert_eq!(y.len(), 2);
    assert_eq!(y[0].cumulative_cents, i64::MAX);
    assert_eq!(y[1].period_cents, 0);
    assert_eq!(y[1].cumulative_cents, i64::MAX);
}

#[test]
fn contribution_record_is_the_callers_payment_for_the_current_period() {
    let c = sharam::gateway::contributions::contribution_record(
        "a@x".into(),
        &settings("UTC", "weekly"),
        "2026-W18".into(),
        2_500,
        Some("proofs/k".into()),
        None,
    );
    assert_eq!(c.user_email, "a@x");
    assert_eq!(c.cadence, "weekly");
    assert_eq!(c.period, "2026-W18");
    assert_eq!(c.amount_cents, 2_500);
    assert_eq!(c.proof_key.as_deref(), Some("proofs/k"));
    assert_eq!(c.note, None);
}
