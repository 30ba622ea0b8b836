use sharam::common::domain::{parse_tz, Cadence, Period, Role, TenantSlug};
use sharam::common::error::Error;

#[test]
fn period_monthly_roundtrip() {
    let p = Period::monthly(2026, 4).unwrap();
    assert_eq!(p.to_string(), "2026-04");
    assert_eq!("2026-04".parse::<Period>().unwrap(), p);
    assert_eq!(p.cadence(), Cadence::Monthly);
}

#[test]
fn period_weekly_roundtrip() {
    let p = Period::weekly(2026, 18).unwrap();
    assert_eq!(p.to_string(), "2026-W18");
    assert_eq!("2026-W18".parse::<Period>().unwrap(), p);
    assert_eq!(p.cadence(), Cadence::Weekly);
}

#[test]
fn period_yearly_roundtrip() {
    let p = Period::yearly(2026);
    assert_eq!(p.to_string(), "2026");
    assert_eq!("2026".parse::<Period>().unwrap(), p);
    assert_eq!(p.cadence(), Cadence::Yearly);
}

#[test]
fn period_invalid_month() {
    assert!(Period::monthly(2026, 13).is_err());
    assert!(Period::monthly(2026, 0).is_err());
}

#[test]
fn period_invalid_week() {
    assert!(Period::weekly(2026, 0).is_err());
    assert!(Period::weekly(2026, 54).is_err());
}

#[test]
fn period_lex_ordering_within_cadence() {
    assert!(
        Period::monthly(2026, 4).unwrap().to_string()
            < Period::monthly(2026, 5).unwrap().to_string()
    );
    assert!(
        Period::monthly(2026, 12).unwrap().to_string()
            < Period::monthly(2027, 1).unwrap().to_string()
    );
    assert!(
        Period::weekly(2026, 9).unwrap().to_string()
            < Period::weekly(2026, 10).unwrap().to_string()
    );
    assert!(Period::yearly(2026).to_string() < Period::yearly(2027).to_string());
}

#[test]
fn cadence_roundtrip() {
    for c in [Cadence::Weekly, Cadence::Monthly, Cadence::Yearly] {
        assert_eq!(c.to_string().parse::<Cadence>().unwrap(), c);
    }
    assert!("biweekly".parse::<Cadence>().is_err());
}

#[test]
fn parse_tz_known() {
    assert!(parse_tz("Asia/Kuala_Lumpur").is_ok());
    assert!(parse_tz("UTC").is_ok());
    assert!(parse_tz("Not/AReal_Zone").is_err());
}

#[test]
fn tenant_slug_valid() {
    assert!(TenantSlug::new("acme_capital").is_ok());
    assert!(TenantSlug::new("a01_test").is_ok());
    assert!(TenantSlug::new("abc").is_ok());
}

#[test]
fn tenant_slug_invalid() {
    assert!(TenantSlug::new("ab").is_err());
    assert!(TenantSlug::new("1capital").is_err());
    assert!(TenantSlug::new("Acme").is_err());
    assert!(TenantSlug::new("acme-capital").is_err());
    assert!(TenantSlug::new("").is_err());
}

// ── further cases ──

#[test]
fn period_errors_carry_the_text() {
    assert_eq!(Period::monthly(2026, 13), Err(Error::InvalidPeriod("2026-13".to_string())));
    assert_eq!(Period::weekly(2026, 54), Err(Error::InvalidPeriod("2026-W54".to_string())));
    assert_eq!(
        "2026-W99".parse::<Period>(),
        Err(Error::InvalidPeriod("2026-W99".to_string()))
    );
    assert_eq!("garbage".parse::<Period>(), Err(Error::InvalidPeriod("garbage".to_string())));
    assert_eq!(
        Error::InvalidPeriod("x".to_string()).to_string(),
        "invalid period: x"
    );
}

#[test]
fn period_text_pads_small_years() {
    assert_eq!(Period::yearly(7).to_string(), "0007");
    assert_eq!(Period::monthly(99, 1).unwrap().to_string(), "0099-01");
    assert_eq!(Period::weekly(2026, 3).unwrap().to_string(), "2026-W03");
    assert_eq!("0099-01".parse::<Period>().unwrap(), Period::monthly(99, 1).unwrap());
}

#[test]
fn cadence_errors_and_names() {
    assert_eq!(Cadence::Weekly.as_str(), "weekly");
    assert_eq!(
        Cadence::parse("Monthly"),
        Err(Error::InvalidCadence("Monthly".to_string()))
    );
    assert_eq!(
        Error::InvalidCadence("Monthly".to_string()).to_string(),
        "invalid cadence: Monthly"
    );
}

#[test]
fn tenant_slug_accessors() {
    let s = TenantSlug::new("acme_capital").unwrap();
    assert_eq!(s.as_str(), "acme_capital");
    assert_eq!(s.to_string(), "acme_capital");
    assert_eq!(s.clone().into_inner(), "acme_capital".to_string());
    assert_eq!(
        TenantSlug::new("Acme"),
        Err(Error::InvalidTenantSlug("Acme".to_string()))
    );
    // 41 characters is the maximum
    let long = format!("a{}", "b".repeat(40));
    assert!(TenantSlug::new(&long).is_ok());
    let too_long = format!("a{}", "b".repeat(41));
    assert!(TenantSlug::new(&too_long).is_err());
}

#[test]
fn parse_tz_error_names_the_zone() {
    match parse_tz("Not/AReal_Zone") {
        Err(Error::InvalidTimezone(m)) => assert_eq!(m, "Not/AReal_Zone"),
        _ => panic!("expected InvalidTimezone"),
    }
}

#[test]
fn period_current_in_follows_cadence() {
    let tz = parse_tz("UTC").unwrap();
    assert_eq!(Period::current_in(tz, Cadence::Weekly).cadence(), Cadence::Weekly);
    assert_eq!(Period::current_in(tz, Cadence::Yearly).cadence(), Cadence::Yearly);
    let m = Period::current_in(tz, Cadence::Monthly).to_string();
    assert_eq!(m.len(), 7);
    assert_eq!(m.parse::<Period>().unwrap().cadence(), Cadence::Monthly);
}

#[test]
fn role_names() {
    assert_eq!(Role::Owner.as_str(), "owner");
    assert_eq!(Role::Treasurer.as_str(), "treasurer");
    assert_eq!(Role::Member.as_str(), "member");
}
