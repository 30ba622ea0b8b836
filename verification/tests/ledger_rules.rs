use sharam::common::time::Timestamp;
use sharam::ledger::client::{
    acceptance_plan, accepted_slugs, distinct_periods_desc, endpoint_needs_auth, invite_plan,
    members_of, next_accept_action, settings_patch, sum_amounts, summarize_period, ventures_of,
    AcceptAction, InvitePlan, MembershipWrite, SettingValue,
};
use sharam::ledger::error::{map_db_error, Error};
use sharam::ledger::types::{
    InviteRecord, MembershipRecord, RecordId, TenantDirectoryRecord, UpdateSettings, UserRecord,
};

fn ts(secs: i64) -> Timestamp {
    Timestamp { secs, nanos: 0, year: 2026, month: 1, rfc3339: format!("t{secs}") }
}

fn rid(t: &str, k: &str) -> RecordId {
    RecordId { table: t.into(), key: k.into() }
}

#[test]
fn db_errors_are_reshaped() {
    assert_eq!(
        map_db_error("An error occurred: period_locked: 2020-01 < 2026-04"),
        Error::PeriodLocked { period: "2020-01".into() }
    );
    assert_eq!(
        map_db_error("dues_cap_exceeded: 13000 > 10000"),
        Error::DuesCapExceeded { paid_cents: 13_000, dues_cents: 10_000 }
    );
    assert_eq!(
        map_db_error("dues_cap_exceeded: lots > "),
        Error::DuesCapExceeded { paid_cents: 0, dues_cents: 0 }
    );
    assert_eq!(map_db_error("THROW carry_forward_immutable"), Error::CarryForwardExists);
    assert_eq!(
        map_db_error("Database record `carry_forward:current` already exists"),
        Error::CarryForwardExists
    );
    assert_eq!(map_db_error("connection reset"), Error::Db("connection reset".into()));
    assert_eq!(
        Error::PeriodLocked { period: "2020-01".into() }.to_string(),
        "period 2020-01 is locked and cannot be modified"
    );
}

#[test]
fn partial_payments_sum_to_dues() {
    let s = summarize_period(10_000, &vec![4_000, 6_000]);
    assert_eq!(s.paid_cents, 10_000);
    assert_eq!(s.remaining_cents, 0);
    let s = summarize_period(10_000, &vec![4_000]);
    assert_eq!(s.remaining_cents, 6_000);
    let s = summarize_period(0, &vec![999_999]);
    assert_eq!(s.remaining_cents, 0);
    assert_eq!(sum_amounts(&vec![1, 2, 3]), 6);
}

#[test]
fn endpoints_needing_sign_in() {
    assert!(endpoint_needs_auth("ws://localhost:8000"));
    assert!(endpoint_needs_auth("https://db.example.com"));
    assert!(!endpoint_needs_auth("mem://"));
    assert!(!endpoint_needs_auth("rocksdb://data"));
}

#[test]
fn periods_are_distinct_and_newest_first() {
    let raw = vec!["2026-02".to_string(), "2026-04".to_string(), "2026-02".to_string(), "2025-12".to_string()];
    assert_eq!(
        distinct_periods_desc(&raw),
        vec!["2026-04".to_string(), "2026-02".to_string(), "2025-12".to_string()]
    );
}

fn membership(slug: &str, at: i64) -> MembershipRecord {
    MembershipRecord {
        id: rid("membership", slug),
        user: rid("user", "u1"),
        tenant_slug: slug.into(),
        role: "member".into(),
        created_at: ts(at),
    }
}

#[test]
fn ventures_newest_first_with_names() {
    let ms = vec![membership("old", 1), membership("new", 3), membership("mid", 2)];
    let dirs = vec![TenantDirectoryRecord {
        id: rid("tenant_directory", "new"),
        slug: "new".into(),
        display_name: "New Fund".into(),
        created_by: rid("user", "u1"),
        created_at: ts(0),
    }];
    let v = ventures_of(&ms, &dirs);
    let slugs: Vec<&str> = v.iter().map(|x| x.slug.as_str()).collect();
    assert_eq!(slugs, vec!["new", "mid", "old"]);
    assert_eq!(v[0].display_name, "New Fund");
    assert_eq!(v[1].display_name, "mid");
}

#[test]
fn members_join_their_users() {
    let ms = vec![membership("acme", 5)];
    let users = vec![UserRecord {
        id: rid("user", "u1"),
        email: "a@b.co".into(),
        google_sub: None,
        display_name: Some("A".into()),
        display_tz: "UTC".into(),
        password_hash: None,
        created_at: ts(0),
    }];
    let m = members_of(&ms, &users);
    assert_eq!(m.len(), 1);
    assert_eq!(m[0].email, "a@b.co");
    assert_eq!(m[0].display_name, Some("A".to_string()));
}

fn invite(slug: &str, accepted: bool, revoked: bool) -> InviteRecord {
    InviteRecord {
        id: rid("invite", slug),
        tenant_slug: slug.into(),
        email: "guest@example.com".into(),
        role: "treasurer".into(),
        invited_by: rid("user", "owner"),
        created_at: ts(1),
        accepted_at: if accepted { Some(ts(2)) } else { None },
        revoked_at: if revoked { Some(ts(3)) } else { None },
    }
}

#[test]
fn invite_plans() {
    let slug = "acme".to_string();
    let email = "guest@example.com".to_string();
    assert!(matches!(invite_plan(None, &slug, &email), Ok(InvitePlan::Create)));
    let active = invite("acme", false, false);
    assert_eq!(
        invite_plan(Some(&active), &slug, &email).err(),
        Some(Error::InviteExists { slug: slug.clone(), email: email.clone() })
    );
    let revoked = invite("acme", false, true);
    match invite_plan(Some(&revoked), &slug, &email) {
        Ok(InvitePlan::Reactivate(id)) => assert_eq!(id.key, "acme"),
        _ => panic!("expected reactivation"),
    }
}

#[test]
fn acceptance_marks_only_new_invites() {
    let steps = acceptance_plan(&vec![invite("a", false, false), invite("b", true, false)]);
    assert_eq!(steps.len(), 2);
    assert!(steps[0].mark_accepted);
    assert!(!steps[1].mark_accepted);
    assert_eq!(accepted_slugs(&steps), vec!["a".to_string()]);
    assert!(accepted_slugs(&acceptance_plan(&vec![invite("b", true, false)])).is_empty());
}

#[test]
fn settings_patch_writes_only_given_fields() {
    let p = UpdateSettings {
        display_name: Some("Renamed Fund".into()),
        timezone: None,
        currency: None,
        cadence: Some("weekly".into()),
        dues_amount_cents: Some(1500),
    };
    let f = settings_patch(p);
    let names: Vec<&str> = f.iter().map(|(n, _)| n.as_str()).collect();
    assert_eq!(names, vec!["display_name", "cadence", "dues_amount_cents"]);
    assert!(matches!(f[2].1, SettingValue::Cents(1500)));
    assert!(settings_patch(UpdateSettings::default()).is_empty());
}

#[test]
fn second_sign_in_accepts_nothing() {
    let all = vec![invite("a", true, false), invite("b", true, false)];
    let steps = acceptance_plan(&all);
    assert_eq!(steps.len(), 2);
    assert!(steps.iter().all(|s| !s.mark_accepted));
    assert!(accepted_slugs(&steps).is_empty());
}

#[test]
fn acceptance_stops_when_the_membership_write_fails() {
    let steps = acceptance_plan(&vec![invite("a", false, false), invite("b", true, false)]);
    match next_accept_action(&steps[0], MembershipWrite::Written, "guest@example.com") {
        AcceptAction::MarkAccepted(id) => assert_eq!(id.key, "a"),
        other => panic!("unexpected {other:?}"),
    }
    assert!(matches!(
        next_accept_action(&steps[1], MembershipWrite::Written, "guest@example.com"),
        AcceptAction::Next
    ));
    match next_accept_action(&steps[0], MembershipWrite::Missing, "guest@example.com") {
        AcceptAction::Stop(e) => assert_eq!(
            e,
            Error::Invariant(
                "membership upsert returned no row for slug=a email=guest@example.com".into()
            )
        ),
        other => panic!("unexpected {other:?}"),
    }
    match next_accept_action(&steps[0], MembershipWrite::Failed(Error::Db("down".into())), "g@x") {
        AcceptAction::Stop(e) => assert_eq!(e, Error::Db("down".into())),
        other => panic!("unexpected {other:?}"),
    }
}

#[test]
fn summarize_period_with_mixed_signs_near_the_limit() {
    let s = summarize_period(0, &vec![i64::MAX, -5]);
    assert_eq!(s.paid_cents, i64::MAX - 5);
    assert_eq!(s.remaining_cents, 0);
    let s = summarize_period(100, &vec![30, -10]);
    assert_eq!(s.paid_cents, 20);
    assert_eq!(s.remaining_cents, 80);
}
