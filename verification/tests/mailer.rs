use sharam::gateway::mailer::{
    build_html_body, build_text_body, html_escape, invite_link, invite_subject, link_base,
    pretty_role, smtp_mode, InviteEmail, SmtpMode,
};
use sharam::common::config::{check_session_secret, default_encryption};

fn invite<'a>(name: Option<&'a str>) -> InviteEmail<'a> {
    InviteEmail {
        to_email: "guest@example.com",
        tenant_slug: "acme",
        tenant_display_name: "Acme & <Co>",
        role: "treasurer",
        invited_by_name: name,
        invited_by_email: "owner@example.com",
    }
}

#[test]
fn escapes_html_specials() {
    assert_eq!(html_escape("<a href=\"x\">'&'</a>"), "&lt;a href=&quot;x&quot;&gt;&#39;&amp;&#39;&lt;/a&gt;");
    assert_eq!(html_escape("plain"), "plain");
}

#[test]
fn role_and_links() {
    assert_eq!(pretty_role("treasurer"), "Treasurer");
    assert_eq!(pretty_role(""), "");
    assert_eq!(pretty_role("ßeta"), "SSeta");
    assert_eq!(link_base("https://sharam.example.com//"), "https://sharam.example.com");
    assert_eq!(invite_link("https://s.io", "acme"), "https://s.io/ventures/acme");
    assert_eq!(invite_subject("Acme"), "You've been invited to Acme on Sharam");
}

#[test]
fn text_body_names_inviter() {
    let t = build_text_body(&invite(Some("Olive")), "Treasurer", "https://s.io/ventures/acme");
    assert!(t.starts_with("Hi,\n\nOlive (owner@example.com) invited you to join \"Acme & <Co>\" on Sharam as Treasurer.\n\n"));
    assert!(t.contains("Open the venture: https://s.io/ventures/acme\n\n"));
    assert!(t.contains("sign in with this email (guest@example.com) using Google"));
    assert!(t.ends_with("— Sharam\n"));
    let t2 = build_text_body(&invite(None), "Treasurer", "L");
    assert!(t2.starts_with("Hi,\n\nowner@example.com invited you"));
}

#[test]
fn html_body_escapes_user_text() {
    let h = build_html_body(&invite(Some("<b>Olive</b>")), "Treasurer", "https://s.io/ventures/acme");
    assert!(h.starts_with("<!doctype html><html><body"));
    assert!(h.contains("&lt;b&gt;Olive&lt;/b&gt; (<a href=\"mailto:owner@example.com\">owner@example.com</a>)"));
    assert!(h.contains("<strong>Acme &amp; &lt;Co&gt;</strong>"));
    assert!(h.contains("Open Acme &amp; &lt;Co&gt;</a>"));
    assert!(!h.contains("<Co>"));
    assert!(h.ends_with("</body></html>"));
}

#[test]
fn smtp_configuration() {
    assert_eq!(smtp_mode("tls"), Ok(SmtpMode::Tls));
    assert_eq!(smtp_mode("starttls"), Ok(SmtpMode::StartTls));
    assert_eq!(smtp_mode("plain"), Ok(SmtpMode::Plain));
    assert_eq!(smtp_mode("ssl"), Err("unknown smtp.encryption: ssl".to_string()));
    assert_eq!(default_encryption(), "starttls");
    assert_eq!(
        check_session_secret("short"),
        Err("gateway.session_secret must be at least 32 bytes (got 5)".to_string())
    );
    assert_eq!(check_session_secret("this-is-a-test-secret-32-bytes!!"), Ok(()));
}

#[test]
fn html_escape_reads_back_to_the_input() {
    let s = "x &lt; y & 'q' <\"z\">";
    let e = html_escape(s);
    let d = e
        .replace("&lt;", "<")
        .replace("&gt;", ">")
        .replace("&quot;", "\"")
        .replace("&#39;", "'")
        .replace("&amp;", "&");
    assert_eq!(d, s);
}

#[test]
fn mail_addresses_parse_or_name_the_bad_one() {
    let from = sharam::gateway::mailer::sender_mailbox("Sharam", "noreply@example.com").unwrap();
    assert_eq!(from.email.to_string(), "noreply@example.com");
    assert_eq!(from.name.as_deref(), Some("Sharam"));
    let to = sharam::gateway::mailer::invitee_mailbox("guest@example.com").unwrap();
    assert_eq!(to.email.to_string(), "guest@example.com");
    assert_eq!(
        sharam::gateway::mailer::invitee_mailbox("not an email").unwrap_err(),
        "invalid invitee email: not an email"
    );
    assert_eq!(
        sharam::gateway::mailer::sender_mailbox("Sharam", "nope").unwrap_err(),
        "invalid smtp.from_email: nope"
    );
}
