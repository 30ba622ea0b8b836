use sharam::ui::api::{api_url_for, bearer_header, error_for_response, token_payload_b64, ApiError};
use sharam::ui::create_tenant::{parse_dues_to_cents, slugify, validate_slug, SlugIssue};
use sharam::ui::format::{
    cadence_word, expiry_hint, expiry_hint_at, fmt_money, fmt_period_label, format_unix,
    initial_of, member_status_pill, period_cell_class, pill_class, role_label, role_pill,
    GoogleState, InviteRole,
};
use sharam::common::domain::{is_valid_slug, TenantSlug};
use sharam::gateway::http::extract_bearer;

#[test]
fn money_formatting() {
    assert_eq!(fmt_money(0, "MYR"), "0.00 MYR");
    assert_eq!(fmt_money(5, "MYR"), "0.05 MYR");
    assert_eq!(fmt_money(123_456_789, "USD"), "1,234,567.89 USD");
    assert_eq!(fmt_money(-100_000, "EUR"), "-1,000.00 EUR");
    assert_eq!(fmt_money(99_999, "JPY"), "999.99 JPY");
}

#[test]
fn dues_parsing() {
    assert_eq!(parse_dues_to_cents(""), Ok(0));
    assert_eq!(parse_dues_to_cents("25"), Ok(2500));
    assert_eq!(parse_dues_to_cents("25.5"), Ok(2550));
    assert_eq!(parse_dues_to_cents("25.50"), Ok(2550));
    assert_eq!(parse_dues_to_cents(".5"), Ok(50));
    assert_eq!(parse_dues_to_cents("-1"), Err("Dues amount cannot be negative.".to_string()));
    assert_eq!(
        parse_dues_to_cents("1.234"),
        Err("Dues amount supports at most 2 decimal places.".to_string())
    );
    assert_eq!(parse_dues_to_cents("abc"), Err("Dues amount must be a number.".to_string()));
    assert_eq!(parse_dues_to_cents("1.x"), Err("Dues amount must be a number.".to_string()));
    assert_eq!(
        parse_dues_to_cents("92233720368547759"),
        Err("Dues amount is too large.".to_string())
    );
}

#[test]
fn slug_form_rules() {
    assert_eq!(validate_slug(""), Err(SlugIssue("Slug is required.")));
    assert_eq!(validate_slug("ab"), Err(SlugIssue("Slug must be at least 3 characters.")));
    assert_eq!(
        validate_slug(&"a".repeat(42)),
        Err(SlugIssue("Slug must be 41 characters or fewer."))
    );
    assert_eq!(
        validate_slug("1abc"),
        Err(SlugIssue("Slug must start with a lowercase letter."))
    );
    assert_eq!(
        validate_slug("ab-c"),
        Err(SlugIssue("Slug may only contain lowercase letters, digits and underscore."))
    );
    assert_eq!(validate_slug("acme_01"), Ok(()));
}

#[test]
fn slug_suggestions() {
    assert_eq!(slugify("Acme Capital"), "acme_capital");
    assert_eq!(slugify("  --Acme--  "), "acme");
    assert_eq!(slugify("2024 Fund!"), "fund");
    assert_eq!(slugify("Café Ünion"), "caf_nion");
    assert_eq!(slugify(&"x".repeat(50)).len(), 41);
    assert_eq!(slugify(""), "");
    for name in ["Acme Capital", "The 3 Musketeers Fund", "Zed"] {
        let s = slugify(name);
        if s.len() >= 3 {
            assert!(TenantSlug::new(&s).is_ok());
        }
    }
}

#[test]
fn labels_and_pills() {
    assert_eq!(role_pill("owner"), "pill pill-evergreen");
    assert_eq!(role_pill("treasurer"), "pill pill-amber");
    assert_eq!(role_pill("member"), "pill pill-neutral");
    assert_eq!(cadence_word("weekly"), "Each ISO week");
    assert_eq!(cadence_word("yearly"), "Each calendar year");
    assert_eq!(cadence_word("monthly"), "Each calendar month");
    assert_eq!(member_status_pill("verified"), "pill pill-positive");
    assert_eq!(member_status_pill("missed"), "pill pill-negative");
    assert_eq!(member_status_pill("submitted"), "pill pill-neutral");
    assert_eq!(
        period_cell_class("partial"),
        "h-8 w-full rounded-sm bg-amber/70 border border-amber/40"
    );
    assert_eq!(period_cell_class("?"), "h-8 w-full rounded-sm bg-bone-soft border border-rule");
    assert_eq!(pill_class("revoked"), "pill pill-negative");
    assert_eq!(pill_class("weird"), "pill pill-neutral");
    assert_eq!(role_label("owner"), "Admin");
    assert_eq!(role_label("x"), "—");
    assert_eq!(InviteRole::Owner.wire(), "owner");
    assert_eq!(InviteRole::Treasurer.label(), "Treasurer");
    assert_eq!(
        InviteRole::Member.description(),
        "Submit contributions and view ledger history."
    );
    assert_eq!(fmt_period_label("2026-W18", "weekly"), "2026 · W18");
    assert_eq!(fmt_period_label("2026-04", "monthly"), "2026-04");
    assert_eq!(initial_of("alice"), "A");
    assert_eq!(initial_of(""), "—");
    assert_eq!(initial_of("ßig"), "S");
}

#[test]
fn time_texts() {
    assert_eq!(format_unix(0), "—");
    assert_eq!(format_unix(1_700_000_000), "2023-11-14 22:13 UTC");
    assert_eq!(expiry_hint_at(0, 100), None);
    assert_eq!(expiry_hint_at(100, 100), Some("expired".to_string()));
    assert_eq!(expiry_hint_at(130, 100), Some("in 30s".to_string()));
    assert_eq!(expiry_hint_at(100 + 125, 100), Some("in 2m".to_string()));
    assert_eq!(expiry_hint_at(100 + 7_322, 100), Some("in 2h 2m".to_string()));
    assert_eq!(expiry_hint(0), None);
    assert!(expiry_hint(1).is_some());
}

#[test]
fn google_button_state() {
    assert!(GoogleState::Pending.busy());
    assert!(GoogleState::Verifying.busy());
    assert!(!GoogleState::Idle.busy());
    assert_eq!(GoogleState::Pending.label(), "Awaiting Google…");
    assert_eq!(GoogleState::Error("x".into()).label(), "Continue with Google");
}

#[test]
fn api_errors_and_requests() {
    assert_eq!(api_url_for("https://s.io", "/api/me"), "https://s.io/api/me");
    assert_eq!(bearer_header("tok"), "Bearer tok");
    assert_eq!(extract_bearer(Some(&bearer_header("abc.def.ghi"))), Some("abc.def.ghi".to_string()));
    assert_eq!(error_for_response(401, Some("x".into()), "401 Unauthorized"), ApiError::Unauthorized);
    assert_eq!(
        error_for_response(400, Some("invalid email".into()), "400 Bad Request"),
        ApiError::BadRequest("invalid email".into())
    );
    assert_eq!(
        error_for_response(409, None, "409 Conflict"),
        ApiError::Conflict("HTTP 409 Conflict".into())
    );
    assert_eq!(
        error_for_response(500, None, "500 Internal Server Error"),
        ApiError::Other("HTTP 500 Internal Server Error".into())
    );
    assert_eq!(ApiError::NotSignedIn.to_string(), "Not signed in. Please sign in first.");
    assert_eq!(ApiError::Other("boom".into()).to_string(), "boom");
}

#[test]
fn token_payloads() {
    assert_eq!(token_payload_b64("a.b-c_d.e"), Ok("b+c/d===".to_string()));
    assert_eq!(token_payload_b64("a.abcd.e"), Ok("abcd".to_string()));
    assert_eq!(token_payload_b64("a.ab.e"), Ok("ab==".to_string()));
    assert_eq!(token_payload_b64("a.b"), Err(ApiError::Other("malformed token".into())));
    assert_eq!(token_payload_b64("a.b.c.d"), Err(ApiError::Other("malformed token".into())));
}

#[test]
fn dues_never_come_out_negative() {
    assert_eq!(parse_dues_to_cents("0.-5"), Err("Dues amount cannot be negative.".to_string()));
    assert_eq!(parse_dues_to_cents(".-5"), Err("Dues amount cannot be negative.".to_string()));
    assert_eq!(parse_dues_to_cents("5.-5"), Ok(495));
    assert_eq!(parse_dues_to_cents("1-2"), Err("Dues amount must be a number.".to_string()));
    assert_eq!(parse_dues_to_cents("-0.5"), Err("Dues amount cannot be negative.".to_string()));
}

#[test]
fn dues_at_the_edge_of_i64() {
    assert_eq!(parse_dues_to_cents("92233720368547758.07"), Ok(i64::MAX));
    assert_eq!(
        parse_dues_to_cents("92233720368547758.08"),
        Err("Dues amount is too large.".to_string())
    );
    assert_eq!(parse_dues_to_cents("0.07"), Ok(7));
}

#[test]
fn slug_checks_agree() {
    for s in ["", "ab", "abc", "a_1", "1ab", "Abc", "abé", "ab-c", "acme_co", "a234567890123456789012345678901234567890", "a2345678901234567890123456789012345678901"] {
        let form = validate_slug(s).is_ok();
        assert_eq!(form, is_valid_slug(s), "{s}");
        assert_eq!(form, TenantSlug::new(s).is_ok(), "{s}");
    }
}
