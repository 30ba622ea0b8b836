use vstd::prelude::*;

use crate::gateway::carry_forward::{is_iso_date, iso_date_shape};
use crate::gateway::http::{non_empty_trimmed, trimmed_opt};
use crate::gateway::invites::valid_email;
use crate::gateway::sign_in::email_shape;
use crate::text::{
    chars_lt, chars_of, int_str, push_int, push_str, seq_lt, string_from_chars, trim, trim_string,
};
use crate::ui::create_tenant::{
    dues_cents, parse_dues_to_cents, slug_issue, slugify, slugify_spec, validate_slug, SlugIssue,
};

verus! {

// ───────────────────────── the new-venture form ─────────────────────────

/// What the new-venture form holds, as typed.
#[derive(Debug, Clone)]
pub struct TenantForm {
    pub display_name: String,
    pub slug: String,
    pub timezone: String,
    pub currency: String,
    pub cadence: String,
    pub dues_amount: String,
}

/// The optional carry-forward part of the form, as typed.
#[derive(Debug, Clone)]
pub struct CarryForwardForm {
    pub from: String,
    pub to: String,
    pub amount: String,
    pub note: String,
}

/// The body of the create-venture request.
#[derive(Debug, Clone, PartialEq, Eq)]
pub struct TenantRequest {
    pub slug: String,
    pub display_name: String,
    pub timezone: String,
    pub currency: String,
    pub cadence: String,
    pub dues_amount_cents: i64,
}

/// The body of the carry-forward request.
#[derive(Debug, Clone, PartialEq, Eq)]
pub struct CarryForwardRequest {
    pub from_date: String,
    pub to_date: String,
    pub amount_cents: i64,
    pub note: Option<String>,
}

/// The first problem with the carry-forward part, if any.
pub open spec fn carry_forward_problem(cf: CarryForwardForm) -> Option<Seq<char>> {
    let from = trim(cf.from@);
    let to = trim(cf.to@);
    if !iso_date_shape(from) || !iso_date_shape(to) {
        Some("Carry-forward dates must be in YYYY-MM-DD format."@)
    } else if seq_lt(to, from) {
        Some("Carry-forward 'from' date must be on or before 'to' date."@)
    } else {
        match dues_cents(trim(cf.amount@)) {
            Ok(c) => if c > 0 {
                None
            } else {
                Some("Carry-forward amount must be greater than zero."@)
            },
            Err(m) => Some("Carry-forward: "@ + m),
        }
    }
}

/// The first problem with the form, in the order it is checked: the
/// display name, the slug, the dues, then the carry-forward part.
pub open spec fn tenant_form_problem(form: TenantForm, cf: Option<CarryForwardForm>) -> Option<
    Seq<char>,
> {
    if trim(form.display_name@).len() == 0 {
        Some("Display name is required."@)
    } else if slug_issue(vstd::utf8::encode_utf8(trim(form.slug@))) is Some {
        slug_issue(vstd::utf8::encode_utf8(trim(form.slug@)))
    } else if dues_cents(trim(form.dues_amount@)) is Err {
        Some(dues_cents(trim(form.dues_amount@))->Err_0)
    } else {
        match cf {
            Some(c) => carry_forward_problem(c),
            None => None,
        }
    }
}

/// An optional text by its characters.
pub open spec fn opt_text(o: Option<String>) -> Option<Seq<char>> {
    match o {
        Some(s) => Some(s@),
        None => None,
    }
}

pub open spec fn opt_form(cf: Option<&CarryForwardForm>) -> Option<CarryForwardForm> {
    match cf {
        Some(c) => Some(*c),
        None => None,
    }
}

fn check_carry_forward(cf: &CarryForwardForm) -> (r: Result<CarryForwardRequest, String>)
    ensures
        match r {
            Ok(req) => {
                &&& carry_forward_problem(*cf) is None
                &&& req.from_date@ == trim(cf.from@)
                &&& req.to_date@ == trim(cf.to@)
                &&& dues_cents(trim(cf.amount@)) == Ok::<int, Seq<char>>(req.amount_cents as int)
                &&& match req.note {
                    Some(n) => non_empty_trimmed(cf.note@) == Some(n@),
                    None => non_empty_trimmed(cf.note@) is None,
                }
            },
            Err(m) => carry_forward_problem(*cf) == Some(m@),
        },
{
    let from = trim_string(cf.from.as_str());
    let to = trim_string(cf.to.as_str());
    let amount = trim_string(cf.amount.as_str());
    if !is_iso_date(from.as_str()) || !is_iso_date(to.as_str()) {
        return Err("Carry-forward dates must be in YYYY-MM-DD format.".to_string());
    }
    let f = chars_of(from.as_str());
    let t = chars_of(to.as_str());
    if chars_lt(&t, &f) {
        return Err("Carry-forward 'from' date must be on or before 'to' date.".to_string());
    }
    let amount_cents = match parse_dues_to_cents(amount.as_str()) {
        Ok(c) => {
            if c <= 0 {
                return Err("Carry-forward amount must be greater than zero.".to_string());
            }
            c
        },
        Err(m) => {
            let mut v: Vec<char> = Vec::new();
            push_str(&mut v, "Carry-forward: ");
            push_str(&mut v, m.as_str());
            return Err(string_from_chars(&v));
        },
    };
    let note = trimmed_opt(&Some(cf.note.clone()));
    Ok(CarryForwardRequest { from_date: from, to_date: to, amount_cents, note })
}

/// Check the new-venture form before anything is sent: the first problem
/// found is shown; otherwise the requests to send (the carry-forward one
/// only when that part is enabled).
pub fn check_tenant_form(form: &TenantForm, cf: Option<&CarryForwardForm>) -> (r: Result<
    (TenantRequest, Option<CarryForwardRequest>),
    String,
>)
    ensures
        match r {
            Err(m) => tenant_form_problem(*form, opt_form(cf)) == Some(m@),
            Ok((t, c)) => {
                &&& tenant_form_problem(*form, opt_form(cf)) is None
                &&& t.display_name@ == trim(form.display_name@)
                &&& t.slug@ == trim(form.slug@)
                &&& t.timezone == form.timezone
                &&& t.currency == form.currency
                &&& t.cadence == form.cadence
                &&& dues_cents(trim(form.dues_amount@)) == Ok::<int, Seq<char>>(t.dues_amount_cents as int)
                &&& (c is Some <==> cf is Some)
                &&& c is Some ==> c->Some_0.from_date@ == trim(cf->Some_0.from@) && c->Some_0.to_date@
                    == trim(cf->Some_0.to@) && dues_cents(trim(cf->Some_0.amount@)) == Ok::<
                    int,
                    Seq<char>,
                >(c->Some_0.amount_cents as int)
                &&& c is Some ==> opt_text(c->Some_0.note) == non_empty_trimmed(cf->Some_0.note@)
            },
        },
{
    let name = trim_string(form.display_name.as_str());
    let slug = trim_string(form.slug.as_str());
    let dues = trim_string(form.dues_amount.as_str());
    if name.as_str().is_empty() {
        return Err("Display name is required.".to_string());
    }
    if let Err(SlugIssue(m)) = validate_slug(slug.as_str()) {
        return Err(m.to_string());
    }
    let dues_amount_cents = match parse_dues_to_cents(dues.as_str()) {
        Ok(c) => c,
        Err(m) => return Err(m),
    };
    let carry = match cf {
        Some(c) => match check_carry_forward(c) {
            Ok(req) => Some(req),
            Err(m) => return Err(m),
        },
        None => None,
    };
    Ok((
        TenantRequest {
            slug,
            display_name: name,
            timezone: form.timezone.clone(),
            currency: form.currency.clone(),
            cadence: form.cadence.clone(),
            dues_amount_cents,
        },
        carry,
    ))
}

/// The notice after a venture is created.
pub fn created_message(name: &str, slug: &str) -> (r: String)
    ensures
        r@ == "Created '"@ + name@ + "' (slug: "@ + slug@ + "). You are the owner."@,
{
    let mut v: Vec<char> = Vec::new();
    push_str(&mut v, "Created '");
    push_str(&mut v, name);
    push_str(&mut v, "' (slug: ");
    push_str(&mut v, slug);
    push_str(&mut v, "). You are the owner.");
    string_from_chars(&v)
}

/// What the notice adds once the carry-forward seed is stored.
pub fn seeded_suffix(amount_cents: i64, from: &str, to: &str) -> (r: String)
    ensures
        r@ == " Carry-forward seeded: "@ + int_str(amount_cents as int) + " cents covering "@ + from@
            + " → "@ + to@ + "."@,
{
    let mut v: Vec<char> = Vec::new();
    push_str(&mut v, " Carry-forward seeded: ");
    push_int(&mut v, amount_cents);
    push_str(&mut v, " cents covering ");
    push_str(&mut v, from);
    push_str(&mut v, " → ");
    push_str(&mut v, to);
    push_str(&mut v, ".");
    string_from_chars(&v)
}

/// The error shown when the venture was created but its seed was refused.
pub fn seed_failed_message(err: &str) -> (r: String)
    ensures
        r@ == "Tenant created but carry-forward seed failed: "@ + err@,
{
    let mut v: Vec<char> = Vec::new();
    push_str(&mut v, "Tenant created but carry-forward seed failed: ");
    push_str(&mut v, err);
    string_from_chars(&v)
}

/// The slug shown in the preview: the typed one, or a placeholder.
pub fn slug_preview(slug: &str) -> (r: String)
    ensures
        slug@.len() == 0 ==> r@ == "your_slug"@,
        slug@.len() > 0 ==> r@ == slug@,
{
    if slug.is_empty() {
        "your_slug".to_string()
    } else {
        slug.to_string()
    }
}

/// The slug problem shown under the field while typing (none while empty).
pub fn slug_hint(slug: &str) -> (r: Option<SlugIssue>)
    ensures
        slug@.len() == 0 ==> r is None,
        slug@.len() > 0 ==> match r {
            Some(SlugIssue(m)) => slug_issue(vstd::utf8::encode_utf8(slug@)) == Some(m@),
            None => slug_issue(vstd::utf8::encode_utf8(slug@)) is None,
        },
{
    if slug.is_empty() {
        None
    } else {
        match validate_slug(slug) {
            Ok(()) => None,
            Err(e) => Some(e),
        }
    }
}

/// The slug after the display name changes: it follows the name until the
/// user edits the slug themselves.
pub fn slug_after_name_input(slug_touched: bool, name: &str, slug: String) -> (r: String)
    ensures
        slug_touched ==> r == slug,
        !slug_touched ==> r@ == slugify_spec(name@),
{
    if slug_touched {
        slug
    } else {
        slugify(name)
    }
}

// ───────────────────────── the invite form ─────────────────────────

/// The invitee email to send (trimmed), or the form's error.
pub fn check_invite_form(email: &str) -> (r: Result<String, String>)
    ensures
        match r {
            Ok(e) => email_shape(trim(email@)) && e@ == trim(email@),
            Err(m) => !email_shape(trim(email@)) && m@
                == "Enter a valid email address (e.g. name@domain.com)."@,
        },
{
    let e = trim_string(email);
    if !valid_email(e.as_str()) {
        proof {
            crate::text::lemma_trim_idempotent(email@);
        }
        return Err("Enter a valid email address (e.g. name@domain.com).".to_string());
    }
    proof {
        crate::text::lemma_trim_idempotent(email@);
    }
    Ok(e)
}

/// The toast after an invite is sent: the title and the description.
pub fn invite_sent_toast(email: &str, role_label: &str) -> (r: (String, String))
    ensures
        r.0@ == "Invite sent to "@ + email@,
        r.1@ == "Joining as "@ + role_label@ + "."@,
{
    let mut a: Vec<char> = Vec::new();
    push_str(&mut a, "Invite sent to ");
    push_str(&mut a, email);
    let mut b: Vec<char> = Vec::new();
    push_str(&mut b, "Joining as ");
    push_str(&mut b, role_label);
    push_str(&mut b, ".");
    (string_from_chars(&a), string_from_chars(&b))
}

// ───────────────────────── the email sign-in form ─────────────────────────

/// Whether the email panel signs in or creates an account.
#[derive(Debug, Clone, Copy, PartialEq, Eq, Structural)]
pub enum EmailMode {
    SignIn,
    Register,
}

/// The submit button's text.
pub fn cta_label(busy: bool, mode: EmailMode) -> (s: &'static str)
    ensures
        busy && mode == EmailMode::SignIn ==> s@ == "Signing in…"@,
        busy && mode == EmailMode::Register ==> s@ == "Creating account…"@,
        !busy && mode == EmailMode::SignIn ==> s@ == "Sign in"@,
        !busy && mode == EmailMode::Register ==> s@ == "Create account"@,
{
    match (busy, mode) {
        (true, EmailMode::SignIn) => "Signing in…",
        (true, EmailMode::Register) => "Creating account…",
        (false, EmailMode::SignIn) => "Sign in",
        (false, EmailMode::Register) => "Create account",
    }
}

/// The link that switches modes.
pub fn toggle_label(mode: EmailMode) -> (s: &'static str)
    ensures
        mode == EmailMode::SignIn ==> s@ == "Don't have an account? Create one"@,
        mode == EmailMode::Register ==> s@ == "Already have an account? Sign in"@,
{
    match mode {
        EmailMode::SignIn => "Don't have an account? Create one",
        EmailMode::Register => "Already have an account? Sign in",
    }
}

/// The password field's hint.
pub fn password_hint(mode: EmailMode) -> (s: &'static str)
    ensures
        mode == EmailMode::SignIn ==> s@ == "Enter your password"@,
        mode == EmailMode::Register ==> s@ == "At least 8 characters"@,
{
    match mode {
        EmailMode::SignIn => "Enter your password",
        EmailMode::Register => "At least 8 characters",
    }
}

/// The email to send (trimmed), or the form's error when a field is empty.
pub fn check_email_form(email: &str, password: &str) -> (r: Result<String, String>)
    ensures
        match r {
            Ok(e) => e@ == trim(email@) && e@.len() > 0 && password@.len() > 0,
            Err(m) => (trim(email@).len() == 0 || password@.len() == 0) && m@
                == "Email and password are required."@,
        },
{
    let e = trim_string(email);
    if e.as_str().is_empty() || password.is_empty() {
        return Err("Email and password are required.".to_string());
    }
    Ok(e)
}

/// The display name sent on registration: trimmed, and none when blank.
pub fn optional_display_name(name: &str) -> (r: Option<String>)
    ensures
        match r {
            Some(n) => non_empty_trimmed(name@) == Some(n@),
            None => non_empty_trimmed(name@) is None,
        },
{
    trimmed_opt(&Some(name.to_string()))
}

} // verus!
