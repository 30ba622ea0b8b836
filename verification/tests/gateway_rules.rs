use sharam::common::domain::{Cadence, Role};
use sharam::common::time::Timestamp;
use sharam::gateway::carry_forward::{is_iso_date, set_carry_forward_error, validate_carry_forward};
use sharam::gateway::http::{
    api_error, extract_bearer, parse_slug, require_member, require_owner, trimmed_opt, ApiError,
};
use sharam::gateway::invites::{
    create_invite_error, default_role, delete_invite_error, invite_status, invite_view,
    require_invite_key, revoke_invite_error, valid_email as valid_invitee_email,
    venture_name_or_slug,
};
use sharam::gateway::members::{member_view, venture_view};
use sharam::gateway::proofs::{bare_content_type, check_key_tenant, check_upload, ext_for};
use sharam::gateway::settings::{settings_view, validate_settings_patch};
use sharam::gateway::sign_in::{
    authenticate, check_login_input, check_registration, normalize_email, register_error,
    valid_email,
};
use sharam::gateway::tenants::{create_tenant_error, default_cadence, validate_new_tenant};
use sharam::auth::password::hash_password;
use sharam::ledger::error::Error as LedgerError;
use sharam::ledger::types::{
    CarryForwardRecord, InviteRecord, MembershipRecord, RecordId, TenantMember, TenantSettings,
    UserRecord, VentureSummary,
};

fn ts(secs: i64) -> Timestamp {
    Timestamp { secs, nanos: 0, year: 2026, month: 4, rfc3339: format!("t{secs}") }
}

fn rid(table: &str, key: &str) -> RecordId {
    RecordId { table: table.to_string(), key: key.to_string() }
}

fn membership(slug: &str, role: &str) -> MembershipRecord {
    MembershipRecord {
        id: rid("membership", slug),
        user: rid("user", "u1"),
        tenant_slug: slug.to_string(),
        role: role.to_string(),
        created_at: ts(1),
    }
}

fn err(status: u16, m: &str) -> ApiError {
    api_error(status, m)
}

#[test]
fn bearer_extraction() {
    assert_eq!(extract_bearer(Some("Bearer abc.def")), Some("abc.def".to_string()));
    assert_eq!(extract_bearer(Some("bearer abc")), None);
    assert_eq!(extract_bearer(Some("Basic xyz")), None);
    assert_eq!(extract_bearer(None), None);
}

#[test]
fn membership_gates() {
    let ms = vec![membership("alpha", "member"), membership("beta", "owner")];
    assert_eq!(require_member(&ms, "alpha"), Ok(()));
    assert_eq!(require_member(&ms, "gamma"), Err(err(403, "not a member of this venture")));
    assert_eq!(require_owner(&ms, "beta"), Ok(()));
    assert_eq!(require_owner(&ms, "alpha"), Err(err(403, "owner role required")));
    assert_eq!(require_owner(&ms, "gamma"), Err(err(403, "not a member of this venture")));
}

#[test]
fn slug_path_check() {
    assert!(parse_slug("acme_capital").is_ok());
    assert_eq!(parse_slug("Acme").err(), Some(err(400, "invalid tenant slug: Acme")));
}

#[test]
fn optional_text_is_trimmed() {
    assert_eq!(trimmed_opt(&Some("  hi  ".to_string())), Some("hi".to_string()));
    assert_eq!(trimmed_opt(&Some("   ".to_string())), None);
    assert_eq!(trimmed_opt(&None), None);
}

#[test]
fn email_rules() {
    assert_eq!(normalize_email("  Alice@Example.COM "), "alice@example.com");
    assert!(valid_email("a@b.co"));
    assert!(!valid_email("@b.co"));
    assert!(!valid_email("a@"));
    assert!(!valid_email("a@bco"));
    assert!(!valid_email("a@.co"));
    assert!(!valid_email("a@co."));
    assert!(valid_email(" a@b.co"));
    assert!(valid_invitee_email(" a@b.co "));
}

#[test]
fn registration_rules() {
    assert_eq!(check_registration("bad", "longenough"), Err(err(400, "invalid email")));
    assert_eq!(
        check_registration("a@b.co", "short"),
        Err(err(400, "password must be at least 8 characters"))
    );
    // byte length counts: four two-byte characters are eight bytes
    assert_eq!(check_registration("a@b.co", "éééé"), Ok(()));
    assert_eq!(check_registration("a@b.co", "12345678"), Ok(()));
    assert_eq!(
        register_error(LedgerError::UserExists("a@b.co".into())),
        err(409, "an account with that email already exists — try signing in")
    );
    assert_eq!(register_error(LedgerError::NotFound), err(500, "not found"));
}

fn user(hash: Option<String>) -> UserRecord {
    UserRecord {
        id: rid("user", "u1"),
        email: "a@b.co".into(),
        google_sub: None,
        display_name: Some("A".into()),
        display_tz: "UTC".into(),
        password_hash: hash,
        created_at: ts(1),
    }
}

#[test]
fn login_rules() {
    assert_eq!(check_login_input("", "x"), Err(err(400, "email and password required")));
    assert_eq!(check_login_input("a@b.co", ""), Err(err(400, "email and password required")));
    assert_eq!(check_login_input("a@b.co", "x"), Ok(()));
    assert_eq!(authenticate("pw", None).err(), Some(err(401, "invalid email or password")));
    assert_eq!(
        authenticate("pw", Some(user(None))).err(),
        Some(err(401, "this account doesn't have a password — use Google sign-in"))
    );
    let h = hash_password("correct horse").unwrap();
    assert!(authenticate("correct horse", Some(user(Some(h.clone())))).is_ok());
    assert_eq!(
        authenticate("wrong horse", Some(user(Some(h)))).err(),
        Some(err(401, "invalid email or password"))
    );
    assert_eq!(
        authenticate("x", Some(user(Some("garbage".into())))).err(),
        Some(err(401, "invalid email or password"))
    );
}

fn invite(accepted: bool, revoked: bool) -> InviteRecord {
    InviteRecord {
        id: rid("invite", "k1"),
        tenant_slug: "acme".into(),
        email: "guest@example.com".into(),
        role: "member".into(),
        invited_by: rid("user", "u1"),
        created_at: ts(10),
        accepted_at: if accepted { Some(ts(20)) } else { None },
        revoked_at: if revoked { Some(ts(30)) } else { None },
    }
}

#[test]
fn invite_rules() {
    assert_eq!(default_role(), Role::Member);
    assert_eq!(invite_status(&invite(false, false)), "pending");
    assert_eq!(invite_status(&invite(true, false)), "accepted");
    assert_eq!(invite_status(&invite(true, true)), "revoked");
    let v = invite_view(invite(true, false));
    assert_eq!(v.id, "k1");
    assert_eq!(v.status, "accepted");
    assert_eq!(v.created_at, "t10");
    assert_eq!(v.accepted_at, Some("t20".to_string()));
    assert_eq!(v.revoked_at, None);
    assert_eq!(
        create_invite_error(LedgerError::InviteExists { slug: "s".into(), email: "e".into() }),
        err(409, "an active invite already exists for this email")
    );
    assert_eq!(require_invite_key(""), Err(err(400, "invite key required")));
    assert_eq!(require_invite_key("k"), Ok(()));
    assert_eq!(
        delete_invite_error(LedgerError::NotFound),
        err(404, "invite not found, already accepted, or in another tenant")
    );
    assert_eq!(
        revoke_invite_error(LedgerError::NotFound),
        err(404, "invite not found or already revoked")
    );
    assert_eq!(venture_name_or_slug(None, &"acme".to_string()), "acme");
    assert_eq!(venture_name_or_slug(Some("Acme".into()), &"acme".to_string()), "Acme");
}

#[test]
fn carry_forward_rules() {
    assert!(is_iso_date("2024-01-31"));
    assert!(!is_iso_date("2024-1-31"));
    assert!(!is_iso_date("2024/01/31"));
    assert!(!is_iso_date("20240-01-3"));
    let bad_date = validate_carry_forward("2024-01-01".into(), "2024-13".into(), 5, None, "o".into());
    assert_eq!(
        bad_date.err(),
        Some(err(400, "from_date and to_date must be ISO calendar dates (YYYY-MM-DD)"))
    );
    let order = validate_carry_forward("2024-02-01".into(), "2024-01-01".into(), 5, None, "o".into());
    assert_eq!(order.err(), Some(err(400, "from_date must be on or before to_date")));
    let amount = validate_carry_forward("2024-01-01".into(), "2024-01-01".into(), 0, None, "o".into());
    assert_eq!(amount.err(), Some(err(400, "amount_cents must be greater than 0")));
    let ok = validate_carry_forward(
        "2024-01-01".into(),
        "2024-12-31".into(),
        150_000,
        Some("  from the old sheet ".into()),
        "owner@x.io".into(),
    )
    .unwrap();
    assert_eq!(ok.note, Some("from the old sheet".to_string()));
    assert_eq!(ok.amount_cents, 150_000);
    assert_eq!(ok.recorded_by, "owner@x.io");
    assert_eq!(
        set_carry_forward_error(LedgerError::CarryForwardExists),
        err(409, "carry-forward seed is already set for this venture")
    );
    let v = sharam::gateway::carry_forward::view(CarryForwardRecord {
        from_date: "2024-01-01".into(),
        to_date: "2024-12-31".into(),
        amount_cents: 1,
        note: None,
        recorded_by: "o".into(),
        recorded_at: ts(5),
    });
    assert_eq!(v.recorded_at, "t5");
}

#[test]
fn views_of_members_and_ventures() {
    let m = member_view(TenantMember {
        email: "a@b.co".into(),
        display_name: None,
        role: "owner".into(),
        joined_at: ts(3),
    });
    assert_eq!(m.joined_at, "t3");
    assert_eq!(m.last_period_status, "—");
    let v = venture_view(VentureSummary {
        slug: "acme".into(),
        display_name: "Acme".into(),
        role: "member".into(),
        created_at: ts(4),
    });
    assert_eq!(v.created_at, "t4");
    assert_eq!(v.display_name, "Acme");
}

fn settings(tz: &str, cadence: &str) -> TenantSettings {
    TenantSettings {
        timezone: tz.into(),
        currency: "MYR".into(),
        display_name: "Acme".into(),
        cadence: cadence.into(),
        dues_amount_cents: 10_000,
    }
}

#[test]
fn settings_rules() {
    let v = settings_view(settings("Asia/Kuala_Lumpur", "weekly"));
    assert!(v.current_period.contains("-W"));
    assert_eq!(settings_view(settings("Not/AZone", "weekly")).current_period, "");
    assert_eq!(settings_view(settings("UTC", "daily")).current_period, "");
    assert_eq!(
        validate_settings_patch(None, None, None, None, Some(-1)).err(),
        Some(err(400, "dues_amount_cents must be >= 0"))
    );
    assert_eq!(
        validate_settings_patch(Some("   ".into()), None, None, None, None).err(),
        Some(err(400, "display_name cannot be empty"))
    );
    let p = validate_settings_patch(
        Some(" Renamed Fund ".into()),
        None,
        Some("USD".into()),
        Some(Cadence::Weekly),
        Some(1500),
    )
    .unwrap();
    assert_eq!(p.display_name, Some("Renamed Fund".to_string()));
    assert_eq!(p.timezone, None);
    assert_eq!(p.currency, Some("USD".to_string()));
    assert_eq!(p.cadence, Some("weekly".to_string()));
    assert_eq!(p.dues_amount_cents, Some(1500));
}

#[test]
fn tenant_rules() {
    assert_eq!(default_cadence(), Cadence::Monthly);
    let (slug, name) = validate_new_tenant(" acme_capital ", " Acme Capital ", 25_000).unwrap();
    assert_eq!(slug.as_str(), "acme_capital");
    assert_eq!(name, "Acme Capital");
    assert_eq!(
        validate_new_tenant("Acme", "Acme", 0).err(),
        Some(err(400, "invalid tenant slug: Acme"))
    );
    assert_eq!(
        validate_new_tenant("acme", "  ", 0).err(),
        Some(err(400, "display_name is required"))
    );
    assert_eq!(
        validate_new_tenant("acme", "Acme", -1).err(),
        Some(err(400, "dues_amount_cents must be >= 0"))
    );
    assert_eq!(
        create_tenant_error(LedgerError::TenantExists("acme".into())),
        err(409, "tenant 'acme' already exists")
    );
}

#[test]
fn proof_upload_rules() {
    assert_eq!(ext_for("image/jpeg"), Some("jpg"));
    assert_eq!(ext_for("application/pdf"), Some("pdf"));
    assert_eq!(ext_for("application/zip"), None);
    assert_eq!(bare_content_type(Some(" Image/PNG ; charset=binary")), "image/png");
    assert_eq!(bare_content_type(None), "");
    assert_eq!(check_upload(0, "image/png").err(), Some(err(400, "empty body")));
    assert_eq!(
        check_upload(10, "text/plain").err(),
        Some(err(415, "only image/jpeg, image/png, image/webp, application/pdf are accepted"))
    );
    assert_eq!(check_upload(10, "image/webp"), Ok("webp"));
    assert_eq!(check_key_tenant("tenants/acme/a/x.png", "acme"), Ok(()));
    assert_eq!(
        check_key_tenant("tenants/acmex/a/x.png", "acme").err(),
        Some(err(400, "key does not belong to this tenant"))
    );
    let key = sharam::storage::proof_store::proof_key("acme", "a@b.co", "id1", "png");
    assert_eq!(check_key_tenant(&key, "acme"), Ok(()));
}
