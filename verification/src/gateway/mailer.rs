use vstd::prelude::*;

use crate::storage::proof_store::strip_end;
use crate::text::{
    char_to_uppercase, chars_eq_str, chars_of, push_all, push_str, slice_chars, string_from_chars,
    unicode_uppercase,
};

verus! {

/// lettre's parsed mail address with an optional display name.
#[verifier::external_type_specification]
#[verifier::external_body]
pub struct ExMailbox(lettre::message::Mailbox);

/// Whether lettre's `Mailbox` parser accepts `text` (`Name <user@host>` or
/// a bare address).
pub uninterp spec fn mailbox_parses(text: Seq<char>) -> bool;

/// lettre: `str::parse::<Mailbox>` of `text`. Success depends on the text
/// alone; the parsed value is carried through, not inspected, and the
/// error message is not stated.
#[verifier::external_body]
fn parse_mailbox(text: &str) -> (r: Result<lettre::message::Mailbox, String>)
    ensures
        r is Ok <==> mailbox_parses(text@),
{
    text.parse::<lettre::message::Mailbox>().map_err(|e| e.to_string())
}

/// The sender address text: the display name, then the address in angle
/// brackets.
pub open spec fn sender_text(name: Seq<char>, email: Seq<char>) -> Seq<char> {
    name + " <"@ + email + ">"@
}

/// The configured sender as a mailbox; an address that does not parse is
/// a configuration error naming it.
pub fn sender_mailbox(from_name: &str, from_email: &str) -> (r: Result<lettre::message::Mailbox, String>)
    ensures
        r is Ok <==> mailbox_parses(sender_text(from_name@, from_email@)),
        r matches Err(m) ==> m@ == "invalid smtp.from_email: "@ + from_email@,
{
    let mut v: Vec<char> = Vec::new();
    push_str(&mut v, from_name);
    push_str(&mut v, " <");
    push_str(&mut v, from_email);
    push_str(&mut v, ">");
    proof {
        reveal_strlit(" <");
        reveal_strlit(">");
    }
    let text = string_from_chars(&v);
    match parse_mailbox(text.as_str()) {
        Ok(m) => Ok(m),
        Err(_) => {
            let mut e: Vec<char> = Vec::new();
            push_str(&mut e, "invalid smtp.from_email: ");
            push_str(&mut e, from_email);
            Err(string_from_chars(&e))
        },
    }
}

/// The invitee as a mailbox; an address that does not parse is refused,
/// naming it.
pub fn invitee_mailbox(to_email: &str) -> (r: Result<lettre::message::Mailbox, String>)
    ensures
        r is Ok <==> mailbox_parses(to_email@),
        r matches Err(m) ==> m@ == "invalid invitee email: "@ + to_email@,
{
    match parse_mailbox(to_email) {
        Ok(m) => Ok(m),
        Err(_) => {
            let mut e: Vec<char> = Vec::new();
            push_str(&mut e, "invalid invitee email: ");
            push_str(&mut e, to_email);
            Err(string_from_chars(&e))
        },
    }
}

/// What an invite email says: who is invited, to which venture, as what,
/// and by whom.
pub struct InviteEmail<'a> {
    pub to_email: &'a str,
    pub tenant_slug: &'a str,
    pub tenant_display_name: &'a str,
    pub role: &'a str,
    pub invited_by_name: Option<&'a str>,
    pub invited_by_email: &'a str,
}

/// How the SMTP transport connects.
#[derive(Debug, Clone, Copy, PartialEq, Eq, Structural)]
pub enum SmtpMode {
    /// Implicit TLS (port 465).
    Tls,
    /// STARTTLS upgrade (port 587).
    StartTls,
    /// No encryption (local development).
    Plain,
}

/// The transport a value of `smtp.encryption` names.
pub open spec fn smtp_mode_of(s: Seq<char>) -> Option<SmtpMode> {
    if s == "tls"@ {
        Some(SmtpMode::Tls)
    } else if s == "starttls"@ {
        Some(SmtpMode::StartTls)
    } else if s == "plain"@ {
        Some(SmtpMode::Plain)
    } else {
        None
    }
}

/// The transport named by `smtp.encryption`; any other value is refused.
pub fn smtp_mode(encryption: &str) -> (r: Result<SmtpMode, String>)
    ensures
        match r {
            Ok(m) => smtp_mode_of(encryption@) == Some(m),
            Err(msg) => smtp_mode_of(encryption@) is None && msg@ == "unknown smtp.encryption: "@
                + encryption@,
        },
{
    let v = chars_of(encryption);
    if chars_eq_str(&v, "tls") {
        Ok(SmtpMode::Tls)
    } else if chars_eq_str(&v, "starttls") {
        Ok(SmtpMode::StartTls)
    } else if chars_eq_str(&v, "plain") {
        Ok(SmtpMode::Plain)
    } else {
        let mut m: Vec<char> = Vec::new();
        push_str(&mut m, "unknown smtp.encryption: ");
        push_str(&mut m, encryption);
        Err(string_from_chars(&m))
    }
}

/// The public origin for links: `app_base_url` without trailing slashes.
pub fn link_base(app_base_url: &str) -> (r: String)
    ensures
        r@ == strip_end(app_base_url@, '/'),
{
    let v = chars_of(app_base_url);
    let mut b: usize = v.len();
    proof {
        assert(v@.subrange(0, v@.len() as int) =~= v@);
    }
    while b > 0 && v[b - 1] == '/'
        invariant
            b <= v.len(),
            strip_end(app_base_url@, '/') == strip_end(v@.subrange(0, b as int), '/'),
        decreases b,
    {
        proof {
            assert(v@.subrange(0, b as int).drop_last() =~= v@.subrange(0, b - 1));
        }
        b -= 1;
    }
    let w = slice_chars(&v, 0, b);
    string_from_chars(&w)
}

/// The venture page an invite links to.
pub fn invite_link(base: &str, slug: &str) -> (r: String)
    ensures
        r@ == base@ + "/ventures/"@ + slug@,
{
    let mut v: Vec<char> = Vec::new();
    push_str(&mut v, base);
    push_str(&mut v, "/ventures/");
    push_str(&mut v, slug);
    string_from_chars(&v)
}

/// The subject line of an invite email.
pub fn invite_subject(tenant_display_name: &str) -> (r: String)
    ensures
        r@ == "You've been invited to "@ + tenant_display_name@ + " on Sharam"@,
{
    let mut v: Vec<char> = Vec::new();
    push_str(&mut v, "You've been invited to ");
    push_str(&mut v, tenant_display_name);
    push_str(&mut v, " on Sharam");
    string_from_chars(&v)
}

/// A role for display: its first character uppercased (Unicode mapping),
/// the rest as it is.
pub open spec fn pretty_role_spec(role: Seq<char>) -> Seq<char> {
    if role.len() == 0 {
        Seq::empty()
    } else {
        unicode_uppercase(role[0]) + role.drop_first()
    }
}

pub fn pretty_role(role: &str) -> (r: String)
    ensures
        r@ == pretty_role_spec(role@),
{
    let v = chars_of(role);
    if v.len() == 0 {
        return String::new();
    }
    let mut out = char_to_uppercase(v[0]);
    let rest = slice_chars(&v, 1, v.len());
    push_all(&mut out, &rest);
    proof {
        assert(rest@ =~= role@.drop_first());
    }
    string_from_chars(&out)
}

/// The escaped form of one character.
pub open spec fn escape_char(c: char) -> Seq<char> {
    if c == '&' {
        "&amp;"@
    } else if c == '<' {
        "&lt;"@
    } else if c == '>' {
        "&gt;"@
    } else if c == '"' {
        "&quot;"@
    } else if c == '\'' {
        "&#39;"@
    } else {
        seq![c]
    }
}

/// `s` with the five HTML-special characters replaced by entities.
pub open spec fn html_escape_spec(s: Seq<char>) -> Seq<char>
    decreases s.len(),
{
    if s.len() == 0 {
        Seq::empty()
    } else {
        html_escape_spec(s.drop_last()) + escape_char(s.last())
    }
}

pub fn html_escape(s: &str) -> (r: String)
    ensures
        r@ == html_escape_spec(s@),
{
    let v = chars_of(s);
    let mut out: Vec<char> = Vec::new();
    let mut i: usize = 0;
    while i < v.len()
        invariant
            i <= v.len(),
            v@ == s@,
            out@ == html_escape_spec(v@.take(i as int)),
        decreases v.len() - i,
    {
        proof {
            assert(v@.take(i + 1).drop_last() =~= v@.take(i as int));
        }
        let c = v[i];
        if c == '&' {
            push_str(&mut out, "&amp;");
        } else if c == '<' {
            push_str(&mut out, "&lt;");
        } else if c == '>' {
            push_str(&mut out, "&gt;");
        } else if c == '"' {
            push_str(&mut out, "&quot;");
        } else if c == '\'' {
            push_str(&mut out, "&#39;");
        } else {
            out.push(c);
        }
        proof {
            reveal_strlit("&amp;");
            reveal_strlit("&lt;");
            reveal_strlit("&gt;");
            reveal_strlit("&quot;");
            reveal_strlit("&#39;");
        }
        i += 1;
    }
    proof {
        assert(v@.take(v.len() as int) =~= v@);
    }
    string_from_chars(&out)
}

/// Whether `c` is one of the characters HTML gives a meaning to.
pub open spec fn html_special(c: char) -> bool {
    c == '<' || c == '>' || c == '"' || c == '\''
}

/// Law: escaped text holds no `<`, `>`, `"` or `'`, so it cannot open a
/// tag or close an attribute; and every `&` in it starts an entity that
/// ends in `;`.
pub proof fn lemma_html_escape_safe(s: Seq<char>)
    ensures
        forall|i: int| 0 <= i < html_escape_spec(s).len() ==> !html_special(#[trigger] html_escape_spec(s)[i]),
        forall|i: int|
            0 <= i < html_escape_spec(s).len() && #[trigger] html_escape_spec(s)[i] == '&' ==> exists|j: int|
                i < j < html_escape_spec(s).len() && #[trigger] html_escape_spec(s)[j] == ';',
    decreases s.len(),
{
    reveal_strlit("&amp;");
    reveal_strlit("&lt;");
    reveal_strlit("&gt;");
    reveal_strlit("&quot;");
    reveal_strlit("&#39;");
    if s.len() > 0 {
        lemma_html_escape_safe(s.drop_last());
        let p = html_escape_spec(s.drop_last());
        let e = escape_char(s.last());
        let r = html_escape_spec(s);
        assert(r == p + e);
        assert forall|i: int| 0 <= i < r.len() implies !html_special(#[trigger] r[i]) by {
            if i < p.len() {
                assert(r[i] == p[i]);
            } else {
                assert(r[i] == e[i - p.len()]);
            }
        }
        assert forall|i: int| 0 <= i < r.len() && #[trigger] r[i] == '&' implies exists|j: int|
            i < j < r.len() && #[trigger] r[j] == ';' by {
            if i < p.len() {
                assert(r[i] == p[i]);
                let j = choose|j: int| i < j < p.len() && #[trigger] p[j] == ';';
                assert(r[j] == p[j]);
            } else {
                assert(r[i] == e[i - p.len()]);
                assert(r[r.len() - 1] == e[e.len() - 1]);
            }
        }
    }
}

/// Whether `s` begins with `p`.
pub open spec fn begins_with(s: Seq<char>, p: Seq<char>) -> bool {
    s.len() >= p.len() && s.subrange(0, p.len() as int) == p
}

/// One pass over `s` from the front that turns each of the five entities
/// `html_escape` writes back into its character and keeps everything else.
pub open spec fn html_unescape_spec(s: Seq<char>) -> Seq<char>
    decreases s.len(),
{
    proof {
        reveal_strlit("&amp;");
        reveal_strlit("&lt;");
        reveal_strlit("&gt;");
        reveal_strlit("&quot;");
        reveal_strlit("&#39;");
    }
    if s.len() == 0 {
        Seq::empty()
    } else if begins_with(s, "&amp;"@) {
        seq!['&'] + html_unescape_spec(s.skip(5))
    } else if begins_with(s, "&lt;"@) {
        seq!['<'] + html_unescape_spec(s.skip(4))
    } else if begins_with(s, "&gt;"@) {
        seq!['>'] + html_unescape_spec(s.skip(4))
    } else if begins_with(s, "&quot;"@) {
        seq!['"'] + html_unescape_spec(s.skip(6))
    } else if begins_with(s, "&#39;"@) {
        seq!['\''] + html_unescape_spec(s.skip(5))
    } else {
        seq![s[0]] + html_unescape_spec(s.drop_first())
    }
}

/// Whether `c` is one of the five characters `html_escape` replaces.
pub open spec fn escaped_char(c: char) -> bool {
    c == '&' || html_special(c)
}

/// Escaping two pieces one after the other is escaping them joined.
pub proof fn lemma_html_escape_append(a: Seq<char>, b: Seq<char>)
    ensures
        html_escape_spec(a + b) == html_escape_spec(a) + html_escape_spec(b),
    decreases b.len(),
{
    if b.len() == 0 {
        assert(a + b =~= a);
        assert(html_escape_spec(a) + html_escape_spec(b) =~= html_escape_spec(a));
    } else {
        lemma_html_escape_append(a, b.drop_last());
        assert((a + b).drop_last() =~= a + b.drop_last());
        assert((a + b).last() == b.last());
        assert(html_escape_spec(a) + html_escape_spec(b) =~= html_escape_spec(a)
            + html_escape_spec(b.drop_last()) + escape_char(b.last()));
    }
}

proof fn lemma_unescape_one(c: char, rest: Seq<char>)
    ensures
        html_unescape_spec(escape_char(c) + rest) == seq![c] + html_unescape_spec(rest),
{
    reveal_strlit("&amp;");
    reveal_strlit("&lt;");
    reveal_strlit("&gt;");
    reveal_strlit("&quot;");
    reveal_strlit("&#39;");
    let x = escape_char(c) + rest;
    let e = escape_char(c);
    assert(x.subrange(0, e.len() as int) =~= e);
    assert(x.skip(e.len() as int) =~= rest);
    if !escaped_char(c) {
        assert(x[0] == c);
        assert(x.drop_first() =~= rest);
        assert(!begins_with(x, "&amp;"@)) by {
            if begins_with(x, "&amp;"@) {
                assert(x.subrange(0, 5)[0] == x[0]);
            }
        }
        assert(!begins_with(x, "&lt;"@)) by {
            if begins_with(x, "&lt;"@) {
                assert(x.subrange(0, 4)[0] == x[0]);
            }
        }
        assert(!begins_with(x, "&gt;"@)) by {
            if begins_with(x, "&gt;"@) {
                assert(x.subrange(0, 4)[0] == x[0]);
            }
        }
        assert(!begins_with(x, "&quot;"@)) by {
            if begins_with(x, "&quot;"@) {
                assert(x.subrange(0, 6)[0] == x[0]);
            }
        }
        assert(!begins_with(x, "&#39;"@)) by {
            if begins_with(x, "&#39;"@) {
                assert(x.subrange(0, 5)[0] == x[0]);
            }
        }
    } else if c == '<' {
        assert(!begins_with(x, "&amp;"@)) by {
            if begins_with(x, "&amp;"@) {
                assert(x.subrange(0, 5)[1] == x[1]);
            }
        }
    } else if c == '>' {
        assert(!begins_with(x, "&amp;"@)) by {
            if begins_with(x, "&amp;"@) {
                assert(x.subrange(0, 5)[1] == x[1]);
            }
        }
        assert(!begins_with(x, "&lt;"@)) by {
            if begins_with(x, "&lt;"@) {
                assert(x.subrange(0, 4)[1] == x[1]);
            }
        }
    } else if c == '"' {
        assert(!begins_with(x, "&amp;"@)) by {
            if begins_with(x, "&amp;"@) {
                assert(x.subrange(0, 5)[1] == x[1]);
            }
        }
        assert(!begins_with(x, "&lt;"@)) by {
            if begins_with(x, "&lt;"@) {
                assert(x.subrange(0, 4)[1] == x[1]);
            }
        }
        assert(!begins_with(x, "&gt;"@)) by {
            if begins_with(x, "&gt;"@) {
                assert(x.subrange(0, 4)[1] == x[1]);
            }
        }
    } else if c == '\'' {
        assert(!begins_with(x, "&amp;"@)) by {
            if begins_with(x, "&amp;"@) {
                assert(x.subrange(0, 5)[1] == x[1]);
            }
        }
        assert(!begins_with(x, "&lt;"@)) by {
            if begins_with(x, "&lt;"@) {
                assert(x.subrange(0, 4)[1] == x[1]);
            }
        }
        assert(!begins_with(x, "&gt;"@)) by {
            if begins_with(x, "&gt;"@) {
                assert(x.subrange(0, 4)[1] == x[1]);
            }
        }
        assert(!begins_with(x, "&quot;"@)) by {
            if begins_with(x, "&quot;"@) {
                assert(x.subrange(0, 6)[1] == x[1]);
            }
        }
    }
}

/// Law: reading the escaped text once from the front, entity by entity,
/// gives the original text back, so escaping loses nothing.
pub proof fn lemma_html_escape_round_trip(s: Seq<char>)
    ensures
        html_unescape_spec(html_escape_spec(s)) == s,
    decreases s.len(),
{
    if s.len() > 0 {
        let t = s.drop_first();
        assert(s =~= seq![s[0]] + t);
        lemma_html_escape_append(seq![s[0]], t);
        let one = seq![s[0]];
        assert(one.drop_last() =~= Seq::<char>::empty());
        assert(one.last() == s[0]);
        assert(html_escape_spec(one) == html_escape_spec(one.drop_last()) + escape_char(s[0]));
        assert(html_escape_spec(one) =~= escape_char(s[0]));
        lemma_unescape_one(s[0], html_escape_spec(t));
        lemma_html_escape_round_trip(t);
    }
}

/// Law: text with none of `&`, `<`, `>`, `"` and `'` comes out of
/// `html_escape` unchanged.
pub proof fn lemma_html_escape_plain(s: Seq<char>)
    requires
        forall|i: int| 0 <= i < s.len() ==> !escaped_char(#[trigger] s[i]),
    ensures
        html_escape_spec(s) == s,
    decreases s.len(),
{
    if s.len() > 0 {
        assert(!escaped_char(s[s.len() - 1]));
        lemma_html_escape_plain(s.drop_last());
        assert(s.drop_last().push(s.last()) =~= s);
    }
}

/// The inviter as the text body names them.
pub open spec fn inviter_text(invite: InviteEmail) -> Seq<char> {
    match invite.invited_by_name {
        Some(n) => n@ + " ("@ + invite.invited_by_email@ + ")"@,
        None => invite.invited_by_email@,
    }
}

/// The plain-text body of an invite email.
pub open spec fn text_body(invite: InviteEmail, role_label: Seq<char>, link: Seq<char>) -> Seq<char> {
    "Hi,\n\n"@ + inviter_text(invite) + " invited you to join \""@ + invite.tenant_display_name@
        + "\" on Sharam as "@ + role_label + ".\n\nOpen the venture: "@ + link
        + "\n\nIf you don't have an account yet, sign in with this email ("@ + invite.to_email@
        + ") using Google and the invite will be applied automatically.\n\n— Sharam\n"@
}

pub fn build_text_body(invite: &InviteEmail, role_label: &str, link: &str) -> (r: String)
    ensures
        r@ == text_body(*invite, role_label@, link@),
{
    let mut v: Vec<char> = Vec::new();
    push_str(&mut v, "Hi,\n\n");
    match invite.invited_by_name {
        Some(n) => {
            push_str(&mut v, n);
            push_str(&mut v, " (");
            push_str(&mut v, invite.invited_by_email);
            push_str(&mut v, ")");
        },
        None => push_str(&mut v, invite.invited_by_email),
    }
    push_str(&mut v, " invited you to join \"");
    push_str(&mut v, invite.tenant_display_name);
    push_str(&mut v, "\" on Sharam as ");
    push_str(&mut v, role_label);
    push_str(&mut v, ".\n\nOpen the venture: ");
    push_str(&mut v, link);
    push_str(&mut v, "\n\nIf you don't have an account yet, sign in with this email (");
    push_str(&mut v, invite.to_email);
    push_str(
        &mut v,
        ") using Google and the invite will be applied automatically.\n\n— Sharam\n",
    );
    string_from_chars(&v)
}

/// A `mailto:` link showing the address.
pub open spec fn mailto(email: Seq<char>) -> Seq<char> {
    "<a href=\"mailto:"@ + email + "\">"@ + email + "</a>"@
}

/// The inviter as the HTML body names them (a given name is escaped).
pub open spec fn inviter_html(invite: InviteEmail) -> Seq<char> {
    match invite.invited_by_name {
        Some(n) => html_escape_spec(n@) + " ("@ + mailto(invite.invited_by_email@) + ")"@,
        None => mailto(invite.invited_by_email@),
    }
}

/// The HTML body of an invite email: the venture, role and invitee email
/// are escaped.
pub open spec fn html_body(invite: InviteEmail, role_label: Seq<char>, link: Seq<char>) -> Seq<char> {
    let venture = html_escape_spec(invite.tenant_display_name@);
    "<!doctype html><html><body style=\"font-family:system-ui,-apple-system,Segoe UI,Roboto,sans-serif;color:#111;line-height:1.5\"><p>Hi,</p><p>"@
        + inviter_html(invite) + " invited you to join <strong>"@ + venture
        + "</strong> on Sharam as <strong>"@ + html_escape_spec(role_label)
        + "</strong>.</p><p><a href=\""@ + link
        + "\" style=\"display:inline-block;padding:10px 16px;background:#111;color:#fff;text-decoration:none;border-radius:6px\">Open "@
        + venture
        + "</a></p><p style=\"font-size:13px;color:#555\">Or paste this link into your browser: <br/><a href=\""@
        + link + "\">"@ + link
        + "</a></p><p style=\"font-size:13px;color:#555\">If you don't have an account yet, sign in with this email (<strong>"@
        + html_escape_spec(invite.to_email@)
        + "</strong>) using Google and the invite will be applied automatically.</p><p style=\"font-size:13px;color:#888\">— Sharam</p></body></html>"@
}

fn push_mailto(v: &mut Vec<char>, email: &str)
    ensures
        final(v)@ == old(v)@ + mailto(email@),
{
    push_str(v, "<a href=\"mailto:");
    push_str(v, email);
    push_str(v, "\">");
    push_str(v, email);
    push_str(v, "</a>");
}

pub fn build_html_body(invite: &InviteEmail, role_label: &str, link: &str) -> (r: String)
    ensures
        r@ == html_body(*invite, role_label@, link@),
{
    let venture = html_escape(invite.tenant_display_name);
    let role = html_escape(role_label);
    let email = html_escape(invite.to_email);
    let mut v: Vec<char> = Vec::new();
    push_str(
        &mut v,
        "<!doctype html><html><body style=\"font-family:system-ui,-apple-system,Segoe UI,Roboto,sans-serif;color:#111;line-height:1.5\"><p>Hi,</p><p>",
    );
    match invite.invited_by_name {
        Some(n) => {
            let name = html_escape(n);
            push_str(&mut v, name.as_str());
            push_str(&mut v, " (");
            push_mailto(&mut v, invite.invited_by_email);
            push_str(&mut v, ")");
        },
        None => push_mailto(&mut v, invite.invited_by_email),
    }
    push_str(&mut v, " invited you to join <strong>");
    push_str(&mut v, venture.as_str());
    push_str(&mut v, "</strong> on Sharam as <strong>");
    push_str(&mut v, role.as_str());
    push_str(&mut v, "</strong>.</p><p><a href=\"");
    push_str(&mut v, link);
    push_str(
        &mut v,
        "\" style=\"display:inline-block;padding:10px 16px;background:#111;color:#fff;text-decoration:none;border-radius:6px\">Open ",
    );
    push_str(&mut v, venture.as_str());
    push_str(
        &mut v,
        "</a></p><p style=\"font-size:13px;color:#555\">Or paste this link into your browser: <br/><a href=\"",
    );
    push_str(&mut v, link);
    push_str(&mut v, "\">");
    push_str(&mut v, link);
    push_str(
        &mut v,
        "</a></p><p style=\"font-size:13px;color:#555\">If you don't have an account yet, sign in with this email (<strong>",
    );
    push_str(&mut v, email.as_str());
    push_str(
        &mut v,
        "</strong>) using Google and the invite will be applied automatically.</p><p style=\"font-size:13px;color:#888\">— Sharam</p></body></html>",
    );
    string_from_chars(&v)
}

} // verus!

verus! {

/// The closing sentence of the HTML body, before the invitee's address.
pub open spec fn html_sign_in_lead() -> Seq<char> {
    "</a></p><p style=\"font-size:13px;color:#555\">If you don't have an account yet, sign in with this email (<strong>"@
}

/// The closing sentence of the HTML body, after the invitee's address.
pub open spec fn html_sign_in_tail() -> Seq<char> {
    "</strong>) using Google and the invite will be applied automatically.</p><p style=\"font-size:13px;color:#888\">— Sharam</p></body></html>"@
}

/// The closing sentence of the text body, before the invitee's address.
pub open spec fn text_sign_in_lead() -> Seq<char> {
    "\n\nIf you don't have an account yet, sign in with this email ("@
}

/// The closing sentence of the text body, after the invitee's address.
pub open spec fn text_sign_in_tail() -> Seq<char> {
    ") using Google and the invite will be applied automatically.\n\n— Sharam\n"@
}

/// Law: both invite bodies end by telling the invitee to sign in with the
/// address the invite was sent to: the text body shows `to_email` itself,
/// the HTML body shows it escaped, and reading the escaped address back
/// gives that same address, so both bodies name the same one.
pub proof fn lemma_invite_bodies_name_the_invitee(
    invite: InviteEmail,
    role_label: Seq<char>,
    link: Seq<char>,
)
    ensures
        exists|p: Seq<char>|
            html_body(invite, role_label, link) == p + html_sign_in_lead() + html_escape_spec(
                invite.to_email@,
            ) + html_sign_in_tail(),
        exists|q: Seq<char>|
            text_body(invite, role_label, link) == q + text_sign_in_lead() + invite.to_email@
                + text_sign_in_tail(),
        html_unescape_spec(html_escape_spec(invite.to_email@)) == invite.to_email@,
{
    let venture = html_escape_spec(invite.tenant_display_name@);
    let p = "<!doctype html><html><body style=\"font-family:system-ui,-apple-system,Segoe UI,Roboto,sans-serif;color:#111;line-height:1.5\"><p>Hi,</p><p>"@
        + inviter_html(invite) + " invited you to join <strong>"@ + venture
        + "</strong> on Sharam as <strong>"@ + html_escape_spec(role_label)
        + "</strong>.</p><p><a href=\""@ + link
        + "\" style=\"display:inline-block;padding:10px 16px;background:#111;color:#fff;text-decoration:none;border-radius:6px\">Open "@
        + venture
        + "</a></p><p style=\"font-size:13px;color:#555\">Or paste this link into your browser: <br/><a href=\""@
        + link + "\">"@ + link;
    assert(html_body(invite, role_label, link) =~= p + html_sign_in_lead() + html_escape_spec(
        invite.to_email@,
    ) + html_sign_in_tail());
    let q = "Hi,\n\n"@ + inviter_text(invite) + " invited you to join \""@ + invite.tenant_display_name@
        + "\" on Sharam as "@ + role_label + ".\n\nOpen the venture: "@ + link;
    assert(text_body(invite, role_label, link) =~= q + text_sign_in_lead() + invite.to_email@
        + text_sign_in_tail());
    lemma_html_escape_round_trip(invite.to_email@);
}

} // verus!
