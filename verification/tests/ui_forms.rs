use sharam::ui::api::ApiError;
use sharam::ui::create_tenant::SlugIssue;
use sharam::ui::forms::{
    check_email_form, check_invite_form, check_tenant_form, created_message, cta_label,
    invite_sent_toast, optional_display_name, password_hint, seed_failed_message, seeded_suffix,
    slug_after_name_input, slug_hint, slug_preview, toggle_label, CarryForwardForm, EmailMode,
    TenantForm,
};
use sharam::ui::venture::{
    activity_entries, find_venture, invite_row_actions, picked_period, pool_bar_tone,
    settled_label, ActivitySettings,
    date_prefix, dues_major_text, edited_dues_cents, holdings, paid_percent, payment_bar_class,
    period_status_pill, picker_view, reconcile_selection, stored_selection, PickerView,
    SettingsState,
};

fn form(name: &str, slug: &str, dues: &str) -> TenantForm {
    TenantForm {
        display_name: name.into(),
        slug: slug.into(),
        timezone: "UTC".into(),
        currency: "USD".into(),
        cadence: "monthly".into(),
        dues_amount: dues.into(),
    }
}

fn cf(from: &str, to: &str, amount: &str, note: &str) -> CarryForwardForm {
    CarryForwardForm { from: from.into(), to: to.into(), amount: amount.into(), note: note.into() }
}

#[test]
fn tenant_form_checks_in_order() {
    assert_eq!(
        check_tenant_form(&form("  ", "x", "1"), None).err(),
        Some("Display name is required.".to_string())
    );
    assert_eq!(
        check_tenant_form(&form("Acme", "Ab", "1"), None).err(),
        Some("Slug must be at least 3 characters.".to_string())
    );
    assert_eq!(
        check_tenant_form(&form("Acme", "acme", "1.234"), None).err(),
        Some("Dues amount supports at most 2 decimal places.".to_string())
    );
    let (t, c) = check_tenant_form(&form(" Acme ", " acme ", " 25.5 "), None).unwrap();
    assert_eq!(t.display_name, "Acme");
    assert_eq!(t.slug, "acme");
    assert_eq!(t.dues_amount_cents, 2550);
    assert!(c.is_none());
}

#[test]
fn carry_forward_part_checks() {
    let base = form("Acme", "acme", "0");
    assert_eq!(
        check_tenant_form(&base, Some(&cf("2024-1-01", "2024-02-01", "5", ""))).err(),
        Some("Carry-forward dates must be in YYYY-MM-DD format.".to_string())
    );
    assert_eq!(
        check_tenant_form(&base, Some(&cf("2024-03-01", "2024-02-01", "5", ""))).err(),
        Some("Carry-forward 'from' date must be on or before 'to' date.".to_string())
    );
    assert_eq!(
        check_tenant_form(&base, Some(&cf("2024-01-01", "2024-02-01", "0", ""))).err(),
        Some("Carry-forward amount must be greater than zero.".to_string())
    );
    assert_eq!(
        check_tenant_form(&base, Some(&cf("2024-01-01", "2024-02-01", "x", ""))).err(),
        Some("Carry-forward: Dues amount must be a number.".to_string())
    );
    let (_, c) =
        check_tenant_form(&base, Some(&cf(" 2024-01-01 ", "2024-02-01", "1500.25", "  old kitty "))).unwrap();
    let c = c.unwrap();
    assert_eq!(c.from_date, "2024-01-01");
    assert_eq!(c.amount_cents, 150_025);
    assert_eq!(c.note, Some("old kitty".to_string()));
}

#[test]
fn tenant_form_messages() {
    assert_eq!(created_message("Acme", "acme"), "Created 'Acme' (slug: acme). You are the owner.");
    assert_eq!(
        seeded_suffix(1500, "2024-01-01", "2024-12-31"),
        " Carry-forward seeded: 1500 cents covering 2024-01-01 → 2024-12-31."
    );
    assert_eq!(seed_failed_message("boom"), "Tenant created but carry-forward seed failed: boom");
    assert_eq!(slug_preview(""), "your_slug");
    assert_eq!(slug_preview("acme"), "acme");
    assert_eq!(slug_hint(""), None);
    assert_eq!(slug_hint("ab"), Some(SlugIssue("Slug must be at least 3 characters.")));
    assert_eq!(slug_after_name_input(false, "Acme Capital", "old".into()), "acme_capital");
    assert_eq!(slug_after_name_input(true, "Acme Capital", "mine".into()), "mine");
}

#[test]
fn invite_and_email_forms() {
    assert_eq!(check_invite_form(" a@b.co "), Ok("a@b.co".to_string()));
    assert_eq!(
        check_invite_form("nope"),
        Err("Enter a valid email address (e.g. name@domain.com).".to_string())
    );
    let (t, d) = invite_sent_toast("a@b.co", "Treasurer");
    assert_eq!(t, "Invite sent to a@b.co");
    assert_eq!(d, "Joining as Treasurer.");
    assert_eq!(cta_label(true, EmailMode::Register), "Creating account…");
    assert_eq!(cta_label(false, EmailMode::SignIn), "Sign in");
    assert_eq!(toggle_label(EmailMode::SignIn), "Don't have an account? Create one");
    assert_eq!(password_hint(EmailMode::Register), "At least 8 characters");
    assert_eq!(check_email_form(" a@b.co ", "pw"), Ok("a@b.co".to_string()));
    assert_eq!(check_email_form("  ", "pw"), Err("Email and password are required.".to_string()));
    assert_eq!(check_email_form("a@b.co", ""), Err("Email and password are required.".to_string()));
    assert_eq!(optional_display_name("  Ann "), Some("Ann".to_string()));
    assert_eq!(optional_display_name("   "), None);
}

#[test]
fn venture_page_figures() {
    assert_eq!(period_status_pill("open"), "pill pill-evergreen");
    assert_eq!(period_status_pill("closing"), "pill pill-amber");
    assert_eq!(period_status_pill("locked"), "pill pill-neutral");
    assert_eq!(date_prefix("2026-04-01T10:00:00Z"), "2026-04-01");
    assert_eq!(date_prefix("2026"), "");
    assert_eq!(date_prefix("2026-04-0é..."), "");
    assert_eq!(dues_major_text(2599), "25");
    assert_eq!(dues_major_text(-2599), "-25");
    assert_eq!(edited_dues_cents(" 25 "), 2500);
    assert_eq!(edited_dues_cents("abc"), 0);
    assert_eq!(edited_dues_cents("9223372036854775807"), i64::MAX);
    assert_eq!(paid_percent(4000, 10000), 40);
    assert_eq!(paid_percent(20000, 10000), 100);
    assert_eq!(paid_percent(5, 0), 100);
    assert_eq!(paid_percent(-50, 100), 0);
    assert_eq!(payment_bar_class(0, 100), "h-3 rounded-full bg-positive/85");
    assert_eq!(payment_bar_class(10, 100), "h-3 rounded-full bg-amber/80");
    assert_eq!(payment_bar_class(10, 0), "h-3 rounded-full bg-bone-soft border border-rule");
}

#[test]
fn dashboard_holdings() {
    let h = holdings(&SettingsState::Loaded {
        current_period: "2026-04".into(),
        cadence: "monthly".into(),
        dues_amount_cents: 10_000,
        currency: "MYR".into(),
        timezone: "Asia/Kuala_Lumpur".into(),
    });
    assert_eq!(h.period_value, "2026-04");
    assert_eq!(h.period_sub, "Each calendar month");
    assert_eq!(h.dues_value, "100.00 MYR");
    assert_eq!(h.tz_caption, "Asia/Kuala_Lumpur");
    let f = holdings(&SettingsState::Failed);
    assert_eq!(f.period_sub, "couldn't reach the venture");
    let l = holdings(&SettingsState::Loading);
    assert_eq!(l.tz_caption, "syncing");
}

#[test]
fn venture_picker_state() {
    assert_eq!(stored_selection(Some(String::new())), None);
    assert_eq!(stored_selection(Some("acme".into())), Some("acme".to_string()));
    let slugs = vec!["alpha".to_string(), "beta".to_string()];
    assert_eq!(reconcile_selection(Some("beta".into()), &slugs), (Some("beta".to_string()), false));
    assert_eq!(reconcile_selection(Some("gone".into()), &slugs), (Some("alpha".to_string()), true));
    assert_eq!(reconcile_selection(None, &vec![]), (None, true));
    assert_eq!(picker_view(false, None, 0), PickerView::Loading);
    assert_eq!(picker_view(true, Some(&ApiError::Unauthorized), 0), PickerView::SignIn);
    assert_eq!(picker_view(true, Some(&ApiError::Other("x".into())), 3), PickerView::LoadFailed);
    assert_eq!(picker_view(true, None, 0), PickerView::CreateFirst);
    assert_eq!(picker_view(true, None, 2), PickerView::List);
}

#[test]
fn pool_and_feed_texts() {
    let slugs = vec!["alpha".to_string(), "beta".to_string()];
    assert_eq!(find_venture(&slugs, "beta"), Ok(1));
    assert_eq!(
        find_venture(&slugs, "gamma"),
        Err(ApiError::Other("venture not found in your memberships".into()))
    );
    assert_eq!(picked_period(String::new()), None);
    assert_eq!(picked_period("2026-04".into()), Some("2026-04".to_string()));
    assert_eq!(pool_bar_tone(0, 0, 10), "bg-evergreen/60");
    assert_eq!(pool_bar_tone(100, 0, 100), "bg-positive");
    assert_eq!(pool_bar_tone(100, 50, 50), "bg-amber");
    assert_eq!(pool_bar_tone(100, 100, 0), "bg-bone-soft");
    assert_eq!(settled_label(100, 2, 5), "2 of 5 settled");
    assert_eq!(settled_label(0, 3, 5), "3 of 5 contributing");
    assert_eq!(invite_row_actions("pending"), (true, true));
    assert_eq!(invite_row_actions("revoked"), (false, true));
    assert_eq!(invite_row_actions("accepted"), (false, false));
    let s = ActivitySettings {
        current_period: "2026-04".into(),
        cadence: "monthly".into(),
        dues_amount_cents: 10_000,
        currency: "MYR".into(),
        timezone: "UTC".into(),
    };
    let feed = activity_entries(Some(&s), "owner", "2026-01-02");
    assert_eq!(feed.len(), 3);
    assert_eq!(feed[0].title, "Period 2026-04 is open");
    assert_eq!(
        feed[0].body,
        "monthly cadence; each contribution at 100.00 MYR. Submissions remain mutable until close, then harden."
    );
    assert_eq!(feed[1].body, "Settings show 100.00 MYR per monthly period in MYR.");
    assert_eq!(feed[2].title, "You joined as owner");
    assert_eq!(feed[2].stamp, "on 2026-01-02");
    let only = activity_entries(None, "member", "");
    assert_eq!(only.len(), 1);
    assert_eq!(only[0].stamp, "—");
}
