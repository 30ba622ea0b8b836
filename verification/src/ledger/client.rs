//! What the ledger client decides around its database queries: which
//! endpoints need a sign-in, how rows are rolled up, joined and ordered,
//! and what an invite request turns into.
use vstd::prelude::*;

use crate::common::time::Timestamp;
use crate::ledger::error::Error;
use crate::ledger::types::{
    InviteRecord, MembershipRecord, PeriodSummary, RecordId, TenantDirectoryRecord, TenantMember,
    TenantSettings, UpdateSettings, UserRecord, VentureSummary,
};
use crate::text::{
    chars_of, entries_view, group_by_key, grouped, key_total, has_key, push_str, seq_lt,
    starts_with, string_from_chars,
};

verus! {

/// `s` begins with `p`.
pub open spec fn has_prefix(s: Seq<char>, p: Seq<char>) -> bool {
    p.len() <= s.len() && s.subrange(0, p.len() as int) == p
}

/// Remote endpoints (WebSocket or HTTP) need a root sign-in; embedded
/// engines do not.
pub open spec fn needs_auth(endpoint: Seq<char>) -> bool {
    has_prefix(endpoint, "ws://"@) || has_prefix(endpoint, "wss://"@) || has_prefix(
        endpoint,
        "http://"@,
    ) || has_prefix(endpoint, "https://"@)
}

pub fn endpoint_needs_auth(endpoint: &str) -> (b: bool)
    ensures
        b == needs_auth(endpoint@),
{
    let v = chars_of(endpoint);
    starts_with(&v, &chars_of("ws://")) || starts_with(&v, &chars_of("wss://")) || starts_with(
        &v,
        &chars_of("http://"),
    ) || starts_with(&v, &chars_of("https://"))
}

// ───────────────────────── period roll-up ─────────────────────────

pub open spec fn sum_of(s: Seq<i64>) -> int
    decreases s.len(),
{
    if s.len() == 0 {
        0
    } else {
        sum_of(s.drop_last()) + s.last()
    }
}

pub open spec fn in_i64(v: int) -> bool {
    i64::MIN <= v <= i64::MAX
}

/// Every running total of `s`, from the first amount to the last, fits in
/// `i64` (what summing the amounts in order as `i64` needs).
pub open spec fn prefix_sums_fit(s: Seq<i64>) -> bool {
    forall|n: int| 0 <= n <= s.len() ==> in_i64(#[trigger] sum_of(s.take(n)))
}

/// The sum of `amounts`.
pub fn sum_amounts(amounts: &Vec<i64>) -> (t: i64)
    requires
        prefix_sums_fit(amounts@),
    ensures
        t == sum_of(amounts@),
{
    let mut t: i64 = 0;
    let mut i: usize = 0;
    while i < amounts.len()
        invariant
            i <= amounts.len(),
            prefix_sums_fit(amounts@),
            t == sum_of(amounts@.take(i as int)),
        decreases amounts.len() - i,
    {
        proof {
            assert(amounts@.take(i + 1).drop_last() =~= amounts@.take(i as int));
            assert(in_i64(sum_of(amounts@.take(i + 1))));
        }
        t = t + amounts[i];
        i += 1;
    }
    proof {
        assert(amounts@.take(amounts.len() as int) =~= amounts@);
    }
    t
}

/// Roll-up of one member's payments for one period (the amounts of the
/// non-rejected rows) against the dues amount: what was paid, and what is
/// left, never below zero.
pub fn summarize_period(dues_cents: i64, amounts: &Vec<i64>) -> (s: PeriodSummary)
    requires
        prefix_sums_fit(amounts@),
        in_i64(dues_cents - sum_of(amounts@)),
    ensures
        s.dues_cents == dues_cents,
        s.paid_cents == sum_of(amounts@),
        s.remaining_cents == if dues_cents - sum_of(amounts@) > 0 {
            dues_cents - sum_of(amounts@)
        } else {
            0
        },
{
    let paid_cents = sum_amounts(amounts);
    let d = dues_cents - paid_cents;
    let remaining_cents = if d > 0 { d } else { 0 };
    PeriodSummary { dues_cents, paid_cents, remaining_cents }
}

// ───────────────────────── active periods ─────────────────────────

/// Some string of `v` has the text `k`.
pub open spec fn has_text(v: Seq<String>, k: Seq<char>) -> bool {
    exists|i: int| 0 <= i < v.len() && #[trigger] v[i]@ == k
}

proof fn lemma_zero_key_total(e: Seq<(Seq<char>, int)>, k: Seq<char>)
    requires
        forall|i: int| 0 <= i < e.len() ==> (#[trigger] e[i]).1 == 0,
    ensures
        key_total(e, k) == 0,
    decreases e.len(),
{
    if e.len() > 0 {
        assert forall|i: int| 0 <= i < e.drop_last().len() implies (#[trigger] e.drop_last()[i]).1
            == 0 by {
            assert(e.drop_last()[i] == e[i]);
        }
        assert(e[e.len() - 1].1 == 0);
        lemma_zero_key_total(e.drop_last(), k);
    }
}

/// The distinct period texts, newest (greatest text) first.
pub fn distinct_periods_desc(raw: &Vec<String>) -> (r: Vec<String>)
    ensures
        forall|i: int, j: int| 0 <= i < j < r@.len() ==> seq_lt(#[trigger] r@[j]@, #[trigger] r@[i]@),
        forall|k: Seq<char>| #[trigger] has_text(r@, k) <==> has_text(raw@, k),
{
    let mut entries: Vec<(Vec<char>, i64)> = Vec::new();
    let mut i: usize = 0;
    while i < raw.len()
        invariant
            i <= raw.len(),
            entries@.len() == i,
            forall|j: int| 0 <= j < i ==> (#[trigger] entries@[j]).0@ == raw@[j]@ && entries@[j].1
                == 0,
        decreases raw.len() - i,
    {
        entries.push((chars_of(raw[i].as_str()), 0));
        i += 1;
    }
    let ghost e = entries_view(entries@);
    proof {
        assert forall|n: int, k: Seq<char>| 0 <= n <= e.len() implies i64::MIN <= #[trigger] key_total(
            e.take(n),
            k,
        ) <= i64::MAX by {
            assert forall|i: int| 0 <= i < e.take(n).len() implies (#[trigger] e.take(n)[i]).1
                == 0 by {
                assert(e.take(n)[i] == e[i]);
            }
            lemma_zero_key_total(e.take(n), k);
        }
    }
    let g = group_by_key(&entries);
    let ghost gv = entries_view(g@);
    let mut r: Vec<String> = Vec::new();
    let mut n: usize = g.len();
    while n > 0
        invariant
            n <= g.len(),
            gv == entries_view(g@),
            grouped(e, gv),
            r@.len() == g.len() - n,
            forall|j: int| 0 <= j < r@.len() ==> (#[trigger] r@[j])@ == gv[g.len() - 1 - j].0,
        decreases n,
    {
        n -= 1;
        r.push(string_from_chars(&g[n].0));
    }
    proof {
        assert forall|i: int, j: int| 0 <= i < j < r@.len() implies seq_lt(
            #[trigger] r@[j]@,
            #[trigger] r@[i]@,
        ) by {
            assert(seq_lt(gv[g.len() - 1 - j].0, gv[g.len() - 1 - i].0));
        }
        assert forall|k: Seq<char>| #[trigger] has_text(r@, k) <==> has_text(raw@, k) by {
            if has_text(r@, k) {
                let i = choose|i: int| 0 <= i < r@.len() && #[trigger] r@[i]@ == k;
                assert(gv[g.len() - 1 - i].0 == k);
                assert(has_key(gv, k));
                assert(has_key(e, k));
                let j = choose|j: int| 0 <= j < e.len() && #[trigger] e[j].0 == k;
                assert(raw@[j]@ == k);
            }
            if has_text(raw@, k) {
                let j = choose|j: int| 0 <= j < raw@.len() && #[trigger] raw@[j]@ == k;
                assert(e[j].0 == k);
                assert(has_key(e, k));
                assert(has_key(gv, k));
                let q = choose|q: int| 0 <= q < gv.len() && #[trigger] gv[q].0 == k;
                assert(r@[g.len() - 1 - q]@ == k);
            }
        }
    }
    r
}

// ───────────────────────── joins ─────────────────────────

/// Display name of the last directory entry for `slug`, if any (the
/// directory rows are collected into a map keyed by slug).
pub open spec fn dir_name(dirs: Seq<TenantDirectoryRecord>, slug: Seq<char>) -> Option<String>
    decreases dirs.len(),
{
    if dirs.len() == 0 {
        None
    } else if dirs.last().slug@ == slug {
        Some(dirs.last().display_name)
    } else {
        dir_name(dirs.drop_last(), slug)
    }
}

pub open spec fn venture_of(m: MembershipRecord, dirs: Seq<TenantDirectoryRecord>) -> VentureSummary {
    VentureSummary {
        display_name: match dir_name(dirs, m.tenant_slug@) {
            Some(n) => n,
            None => m.tenant_slug,
        },
        slug: m.tenant_slug,
        role: m.role,
        created_at: m.created_at,
    }
}

pub open spec fn ts_before(a: Timestamp, b: Timestamp) -> bool {
    a.secs < b.secs || (a.secs == b.secs && a.nanos < b.nanos)
}

/// Stable insertion of `x` into a list that is newest first: after every
/// entry that is not older than `x`.
pub open spec fn insert_newest_first(s: Seq<VentureSummary>, x: VentureSummary) -> Seq<VentureSummary>
    decreases s.len(),
{
    if s.len() == 0 {
        seq![x]
    } else if ts_before(s[0].created_at, x.created_at) {
        seq![x] + s
    } else {
        seq![s[0]] + insert_newest_first(s.drop_first(), x)
    }
}

/// A stable sort, newest first (what `sort_by_key(Reverse(created_at))`
/// does).
pub open spec fn newest_first(s: Seq<VentureSummary>) -> Seq<VentureSummary>
    decreases s.len(),
{
    if s.len() == 0 {
        s
    } else {
        insert_newest_first(newest_first(s.drop_last()), s.last())
    }
}

proof fn lemma_insert_at(s: Seq<VentureSummary>, x: VentureSummary, p: int)
    requires
        0 <= p <= s.len(),
        forall|i: int| 0 <= i < p ==> !ts_before(#[trigger] s[i].created_at, x.created_at),
        p < s.len() ==> ts_before(s[p].created_at, x.created_at),
    ensures
        insert_newest_first(s, x) == s.take(p).push(x) + s.skip(p),
    decreases s.len(),
{
    if s.len() == 0 {
        assert(s.take(p).push(x) + s.skip(p) =~= seq![x]);
    } else if p == 0 {
        assert(s.take(0).push(x) + s.skip(0) =~= seq![x] + s);
    } else {
        let t = s.drop_first();
        assert forall|i: int| 0 <= i < p - 1 implies !ts_before(#[trigger] t[i].created_at, x.created_at) by {
            assert(t[i] == s[i + 1]);
        }
        lemma_insert_at(t, x, p - 1);
        assert(seq![s[0]] + (t.take(p - 1).push(x) + t.skip(p - 1)) =~= s.take(p).push(x) + s.skip(p));
    }
}

fn display_name_for(dirs: &Vec<TenantDirectoryRecord>, slug: &String) -> (r: Option<String>)
    ensures
        r == dir_name(dirs@, slug@),
{
    let mut n = dirs.len();
    proof {
        assert(dirs@.take(n as int) =~= dirs@);
    }
    while n > 0
        invariant
            n <= dirs.len(),
            dir_name(dirs@, slug@) == dir_name(dirs@.take(n as int), slug@),
        decreases n,
    {
        let ghost t = dirs@.take(n as int);
        proof {
            assert(t.drop_last() =~= dirs@.take(n - 1));
            assert(t.last() == dirs@[n - 1]);
        }
        if dirs[n - 1].slug == *slug {
            return Some(dirs[n - 1].display_name.clone());
        }
        n -= 1;
    }
    None
}

/// Every venture of a user's memberships with its directory display name
/// (the slug when the directory has none), newest membership first; equal
/// times keep the membership order.
pub fn ventures_of(memberships: &Vec<MembershipRecord>, dirs: &Vec<TenantDirectoryRecord>) -> (r: Vec<VentureSummary>)
    ensures
        r@ == newest_first(memberships@.map_values(|m: MembershipRecord| venture_of(m, dirs@))),
{
    let ghost mapped = memberships@.map_values(|m: MembershipRecord| venture_of(m, dirs@));
    let mut r: Vec<VentureSummary> = Vec::new();
    let mut i: usize = 0;
    while i < memberships.len()
        invariant
            i <= memberships.len(),
            mapped == memberships@.map_values(|m: MembershipRecord| venture_of(m, dirs@)),
            r@ == newest_first(mapped.take(i as int)),
        decreases memberships.len() - i,
    {
        let m = &memberships[i];
        let display_name = match display_name_for(dirs, &m.tenant_slug) {
            Some(n) => n,
            None => m.tenant_slug.clone(),
        };
        let x = VentureSummary {
            slug: m.tenant_slug.clone(),
            display_name,
            role: m.role.clone(),
            created_at: m.created_at.clone(),
        };
        assert(x == mapped[i as int]);
        let mut p: usize = 0;
        while p < r.len() && !r[p].created_at.earlier_than(&x.created_at)
            invariant
                p <= r.len(),
                forall|j: int| 0 <= j < p ==> !ts_before(#[trigger] r@[j].created_at, x.created_at),
            decreases r.len() - p,
        {
            p += 1;
        }
        proof {
            lemma_insert_at(r@, x, p as int);
            assert(mapped.take(i + 1).drop_last() =~= mapped.take(i as int));
        }
        let ghost r0 = r@;
        r.insert(p, x);
        proof {
            assert(r@ =~= r0.take(p as int).push(mapped[i as int]) + r0.skip(p as int));
        }
        i += 1;
    }
    proof {
        assert(mapped.take(memberships.len() as int) =~= mapped);
    }
    r
}

/// The last user row with `id`, if any (the rows are collected into a map
/// keyed by id).
pub open spec fn user_by_id(users: Seq<UserRecord>, id: RecordId) -> Option<UserRecord>
    decreases users.len(),
{
    if users.len() == 0 {
        None
    } else if users.last().id.table@ == id.table@ && users.last().id.key@ == id.key@ {
        Some(users.last())
    } else {
        user_by_id(users.drop_last(), id)
    }
}

pub open spec fn member_of(m: MembershipRecord, users: Seq<UserRecord>) -> (Seq<char>, Option<String>, String, Timestamp) {
    match user_by_id(users, m.user) {
        Some(u) => (u.email@, u.display_name, m.role, m.created_at),
        None => (Seq::empty(), None, m.role, m.created_at),
    }
}

fn user_for(users: &Vec<UserRecord>, id: &RecordId) -> (r: Option<usize>)
    ensures
        match (r, user_by_id(users@, *id)) {
            (Some(i), Some(u)) => i < users@.len() && users@[i as int] == u,
            (None, None) => true,
            _ => false,
        },
{
    let mut n = users.len();
    proof {
        assert(users@.take(n as int) =~= users@);
    }
    while n > 0
        invariant
            n <= users.len(),
            user_by_id(users@, *id) == user_by_id(users@.take(n as int), *id),
        decreases n,
    {
        let ghost t = users@.take(n as int);
        proof {
            assert(t.drop_last() =~= users@.take(n - 1));
            assert(t.last() == users@[n - 1]);
        }
        if users[n - 1].id.table == id.table && users[n - 1].id.key == id.key {
            return Some(n - 1);
        }
        n -= 1;
    }
    None
}

/// Every membership of a tenant joined with its user row, in membership
/// order; a membership whose user row is missing gets an empty email and
/// no display name.
pub fn members_of(memberships: &Vec<MembershipRecord>, users: &Vec<UserRecord>) -> (r: Vec<TenantMember>)
    ensures
        r@.len() == memberships@.len(),
        forall|i: int| 0 <= i < r@.len() ==> {
            let (email, name, role, joined) = member_of(#[trigger] memberships@[i], users@);
            &&& r@[i].email@ == email
            &&& r@[i].display_name == name
            &&& r@[i].role == role
            &&& r@[i].joined_at == joined
        },
{
    let mut r: Vec<TenantMember> = Vec::new();
    let mut i: usize = 0;
    while i < memberships.len()
        invariant
            i <= memberships.len(),
            r@.len() == i,
            forall|j: int| 0 <= j < i ==> {
                let (email, name, role, joined) = member_of(#[trigger] memberships@[j], users@);
                &&& r@[j].email@ == email
                &&& r@[j].display_name == name
                &&& r@[j].role == role
                &&& r@[j].joined_at == joined
            },
        decreases memberships.len() - i,
    {
        let m = &memberships[i];
        let member = match user_for(users, &m.user) {
            Some(k) => TenantMember {
                email: users[k].email.clone(),
                display_name: match &users[k].display_name {
                    Some(n) => Some(n.clone()),
                    None => None,
                },
                role: m.role.clone(),
                joined_at: m.created_at.clone(),
            },
            None => TenantMember {
                email: String::new(),
                display_name: None,
                role: m.role.clone(),
                joined_at: m.created_at.clone(),
            },
        };
        r.push(member);
        i += 1;
    }
    r
}

// ───────────────────────── invites ─────────────────────────

/// What creating an invite does, given the existing row for the same
/// tenant and email.
#[derive(Debug)]
pub enum InvitePlan {
    /// No row yet: create one.
    Create,
    /// A revoked row: reactivate it (the row keeps its creation time).
    Reactivate(RecordId),
}

/// An active row refuses the invite; a revoked row is reactivated;
/// otherwise a row is created.
pub fn invite_plan(existing: Option<&InviteRecord>, slug: &String, email: &String) -> (r: Result<InvitePlan, Error>)
    ensures
        match existing {
            Some(rec) => if rec.revoked_at is None {
                r matches Err(Error::InviteExists { slug: s, email: e }) && s@ == slug@ && e@ == email@
            } else {
                r matches Ok(InvitePlan::Reactivate(id)) && id == rec.id
            },
            None => r matches Ok(InvitePlan::Create),
        },
{
    match existing {
        Some(rec) => {
            if rec.revoked_at.is_none() {
                Err(Error::InviteExists { slug: slug.clone(), email: email.clone() })
            } else {
                Ok(InvitePlan::Reactivate(rec.id.clone()))
            }
        },
        None => Ok(InvitePlan::Create),
    }
}

/// One step of materializing a pending invite at sign-in: upsert the
/// membership, and mark the invite accepted unless it already is.
#[derive(Debug)]
pub struct AcceptStep {
    pub invite: RecordId,
    pub tenant_slug: String,
    pub role: String,
    pub mark_accepted: bool,
}

/// The step for one invite.
pub open spec fn step_of(inv: InviteRecord) -> AcceptStep {
    AcceptStep {
        invite: inv.id,
        tenant_slug: inv.tenant_slug,
        role: inv.role,
        mark_accepted: inv.accepted_at is None,
    }
}

/// The steps for a list of invites, one for each, in order.
pub open spec fn plan_of(invites: Seq<InviteRecord>) -> Seq<AcceptStep> {
    invites.map_values(|inv: InviteRecord| step_of(inv))
}

/// The steps for the non-revoked invites of an email, in order: every one
/// upserts its membership; only those not yet accepted are marked accepted
/// (an accepted one is reconciled, keeping its first acceptance time).
pub fn acceptance_plan(invites: &Vec<InviteRecord>) -> (r: Vec<AcceptStep>)
    ensures
        r@.len() == invites@.len(),
        forall|i: int| 0 <= i < r@.len() ==> {
            &&& (#[trigger] r@[i]).invite == invites@[i].id
            &&& r@[i].tenant_slug == invites@[i].tenant_slug
            &&& r@[i].role == invites@[i].role
            &&& r@[i].mark_accepted == (invites@[i].accepted_at is None)
        },
        r@ == plan_of(invites@),
{
    let mut r: Vec<AcceptStep> = Vec::new();
    let mut i: usize = 0;
    while i < invites.len()
        invariant
            i <= invites.len(),
            r@.len() == i,
            forall|j: int| 0 <= j < i ==> {
                &&& (#[trigger] r@[j]).invite == invites@[j].id
                &&& r@[j].tenant_slug == invites@[j].tenant_slug
                &&& r@[j].role == invites@[j].role
                &&& r@[j].mark_accepted == (invites@[j].accepted_at is None)
            },
        decreases invites.len() - i,
    {
        let inv = &invites[i];
        r.push(
            AcceptStep {
                invite: inv.id.clone(),
                tenant_slug: inv.tenant_slug.clone(),
                role: inv.role.clone(),
                mark_accepted: inv.accepted_at.is_none(),
            },
        );
        i += 1;
    }
    proof {
        assert(r@ =~= plan_of(invites@));
    }
    r
}

/// The slugs a sign-in newly accepted: those of the steps that mark an
/// invite accepted, in order.
pub open spec fn accepted_slugs_spec(steps: Seq<AcceptStep>) -> Seq<String>
    decreases steps.len(),
{
    if steps.len() == 0 {
        Seq::empty()
    } else {
        let rest = accepted_slugs_spec(steps.drop_last());
        if steps.last().mark_accepted {
            rest.push(steps.last().tenant_slug)
        } else {
            rest
        }
    }
}

pub fn accepted_slugs(steps: &Vec<AcceptStep>) -> (r: Vec<String>)
    ensures
        r@ == accepted_slugs_spec(steps@),
{
    let mut r: Vec<String> = Vec::new();
    let mut i: usize = 0;
    while i < steps.len()
        invariant
            i <= steps.len(),
            r@ == accepted_slugs_spec(steps@.take(i as int)),
        decreases steps.len() - i,
    {
        proof {
            assert(steps@.take(i + 1).drop_last() =~= steps@.take(i as int));
        }
        if steps[i].mark_accepted {
            r.push(steps[i].tenant_slug.clone());
        }
        i += 1;
    }
    proof {
        assert(steps@.take(steps.len() as int) =~= steps@);
    }
    r
}

// ───────────────────────── settings patch ─────────────────────────

/// A value written into `settings:current`.
#[derive(Debug)]
pub enum SettingValue {
    Text(String),
    Cents(i64),
}

/// The fields a patch writes, in field order: `display_name`, `timezone`,
/// `currency`, `cadence`, `dues_amount_cents`, each only when given.
pub open spec fn patch_fields(p: UpdateSettings) -> Seq<(Seq<char>, SettingValue)> {
    let a = match p.display_name {
        Some(v) => seq![("display_name"@, SettingValue::Text(v))],
        None => Seq::empty(),
    };
    let b = match p.timezone {
        Some(v) => seq![("timezone"@, SettingValue::Text(v))],
        None => Seq::empty(),
    };
    let c = match p.currency {
        Some(v) => seq![("currency"@, SettingValue::Text(v))],
        None => Seq::empty(),
    };
    let d = match p.cadence {
        Some(v) => seq![("cadence"@, SettingValue::Text(v))],
        None => Seq::empty(),
    };
    let e = match p.dues_amount_cents {
        Some(v) => seq![("dues_amount_cents"@, SettingValue::Cents(v))],
        None => Seq::empty(),
    };
    a + b + c + d + e
}

/// The `(field, value)` pairs of a settings patch. An empty list means the
/// update writes nothing and the current settings are returned as they
/// are.
pub fn settings_patch(p: UpdateSettings) -> (r: Vec<(String, SettingValue)>)
    ensures
        r@.map_values(|f: (String, SettingValue)| (f.0@, f.1)) == patch_fields(p),
{
    let ghost p0 = p;
    let mut r: Vec<(String, SettingValue)> = Vec::new();
    if let Some(v) = p.display_name {
        r.push(("display_name".to_owned(), SettingValue::Text(v)));
    }
    let ghost r1 = r@;
    if let Some(v) = p.timezone {
        r.push(("timezone".to_owned(), SettingValue::Text(v)));
    }
    let ghost r2 = r@;
    if let Some(v) = p.currency {
        r.push(("currency".to_owned(), SettingValue::Text(v)));
    }
    let ghost r3 = r@;
    if let Some(v) = p.cadence {
        r.push(("cadence".to_owned(), SettingValue::Text(v)));
    }
    let ghost r4 = r@;
    if let Some(v) = p.dues_amount_cents {
        r.push(("dues_amount_cents".to_owned(), SettingValue::Cents(v)));
    }
    proof {
        assert(r@.map_values(|f: (String, SettingValue)| (f.0@, f.1)) =~= patch_fields(p0));
    }
    r
}

/// The stored settings after a merge of `p` into `s0`: each field the patch
/// gives replaces the stored one, the others stay.
pub open spec fn merged_settings(s0: TenantSettings, p: UpdateSettings) -> TenantSettings {
    TenantSettings {
        display_name: match p.display_name {
            Some(v) => v,
            None => s0.display_name,
        },
        timezone: match p.timezone {
            Some(v) => v,
            None => s0.timezone,
        },
        currency: match p.currency {
            Some(v) => v,
            None => s0.currency,
        },
        cadence: match p.cadence {
            Some(v) => v,
            None => s0.cadence,
        },
        dues_amount_cents: match p.dues_amount_cents {
            Some(v) => v,
            None => s0.dues_amount_cents,
        },
    }
}

/// One `(field, value)` pair written into the stored settings; a pair that
/// names no field of the right kind changes nothing.
pub open spec fn write_field(s: TenantSettings, f: (Seq<char>, SettingValue)) -> TenantSettings {
    match f.1 {
        SettingValue::Text(v) => if f.0 == "display_name"@ {
            TenantSettings { display_name: v, ..s }
        } else if f.0 == "timezone"@ {
            TenantSettings { timezone: v, ..s }
        } else if f.0 == "currency"@ {
            TenantSettings { currency: v, ..s }
        } else if f.0 == "cadence"@ {
            TenantSettings { cadence: v, ..s }
        } else {
            s
        },
        SettingValue::Cents(c) => if f.0 == "dues_amount_cents"@ {
            TenantSettings { dues_amount_cents: c, ..s }
        } else {
            s
        },
    }
}

/// The pairs written one after the other, as a merge does.
pub open spec fn write_fields(s: TenantSettings, fs: Seq<(Seq<char>, SettingValue)>) -> TenantSettings
    decreases fs.len(),
{
    if fs.len() == 0 {
        s
    } else {
        write_field(write_fields(s, fs.drop_last()), fs.last())
    }
}

proof fn lemma_write_fields_append(
    s: TenantSettings,
    x: Seq<(Seq<char>, SettingValue)>,
    y: Seq<(Seq<char>, SettingValue)>,
)
    ensures
        write_fields(s, x + y) == write_fields(write_fields(s, x), y),
    decreases y.len(),
{
    if y.len() == 0 {
        assert(x + y =~= x);
    } else {
        lemma_write_fields_append(s, x, y.drop_last());
        assert((x + y).drop_last() =~= x + y.drop_last());
        assert((x + y).last() == y.last());
    }
}

proof fn lemma_write_one(s: TenantSettings, f: (Seq<char>, SettingValue))
    ensures
        write_fields(s, seq![f]) == write_field(s, f),
{
    let one = seq![f];
    assert(one.drop_last() =~= Seq::<(Seq<char>, SettingValue)>::empty());
    assert(one.last() == f);
    assert(write_fields(s, one.drop_last()) == s);
}

/// Law: writing the pairs of `settings_patch(p)` into the stored settings
/// gives exactly the merge of `p`: the given fields change, the others
/// stay; and a patch with no field given writes nothing and leaves the
/// settings as they are.
pub proof fn lemma_settings_patch_merges(s0: TenantSettings, p: UpdateSettings)
    ensures
        write_fields(s0, patch_fields(p)) == merged_settings(s0, p),
        (patch_fields(p).len() == 0) <==> (p.display_name is None && p.timezone is None
            && p.currency is None && p.cadence is None && p.dues_amount_cents is None),
        patch_fields(p).len() == 0 ==> merged_settings(s0, p) == s0,
{
    reveal_strlit("display_name");
    reveal_strlit("timezone");
    reveal_strlit("currency");
    reveal_strlit("cadence");
    reveal_strlit("dues_amount_cents");
    let a = match p.display_name {
        Some(v) => seq![("display_name"@, SettingValue::Text(v))],
        None => Seq::empty(),
    };
    let b = match p.timezone {
        Some(v) => seq![("timezone"@, SettingValue::Text(v))],
        None => Seq::empty(),
    };
    let c = match p.currency {
        Some(v) => seq![("currency"@, SettingValue::Text(v))],
        None => Seq::empty(),
    };
    let d = match p.cadence {
        Some(v) => seq![("cadence"@, SettingValue::Text(v))],
        None => Seq::empty(),
    };
    let e = match p.dues_amount_cents {
        Some(v) => seq![("dues_amount_cents"@, SettingValue::Cents(v))],
        None => Seq::empty(),
    };
    assert(patch_fields(p) == a + b + c + d + e);
    assert("display_name"@.len() == 12 && "timezone"@.len() == 8 && "currency"@.len() == 8
        && "cadence"@.len() == 7);
    assert("currency"@[0] != "timezone"@[0]);
    lemma_write_fields_append(s0, a + b + c + d, e);
    lemma_write_fields_append(s0, a + b + c, d);
    lemma_write_fields_append(s0, a + b, c);
    lemma_write_fields_append(s0, a, b);
    let s1 = write_fields(s0, a);
    let s2 = write_fields(s1, b);
    let s3 = write_fields(s2, c);
    let s4 = write_fields(s3, d);
    let m = merged_settings(s0, p);
    if p.display_name is Some {
        lemma_write_one(s0, a[0]);
        assert(a =~= seq![a[0]]);
    } else {
        assert(a =~= Seq::<(Seq<char>, SettingValue)>::empty());
        assert(write_fields(s0, a) == s0);
    }
    if p.timezone is Some {
        lemma_write_one(s1, b[0]);
        assert(b =~= seq![b[0]]);
    } else {
        assert(b =~= Seq::<(Seq<char>, SettingValue)>::empty());
        assert(write_fields(s1, b) == s1);
    }
    if p.currency is Some {
        lemma_write_one(s2, c[0]);
        assert(c =~= seq![c[0]]);
    } else {
        assert(c =~= Seq::<(Seq<char>, SettingValue)>::empty());
        assert(write_fields(s2, c) == s2);
    }
    if p.cadence is Some {
        lemma_write_one(s3, d[0]);
        assert(d =~= seq![d[0]]);
    } else {
        assert(d =~= Seq::<(Seq<char>, SettingValue)>::empty());
        assert(write_fields(s3, d) == s3);
    }
    if p.dues_amount_cents is Some {
        lemma_write_one(s4, e[0]);
        assert(e =~= seq![e[0]]);
    } else {
        assert(e =~= Seq::<(Seq<char>, SettingValue)>::empty());
        assert(write_fields(s4, e) == s4);
    }
    assert(s1 == TenantSettings { display_name: m.display_name, ..s0 });
    assert(s2 == TenantSettings { display_name: m.display_name, timezone: m.timezone, ..s0 });
    assert(s3 == TenantSettings { currency: m.currency, ..s2 });
    assert(s4 == TenantSettings { cadence: m.cadence, ..s3 });
    assert(write_fields(s4, e) == m);
}

proof fn lemma_no_marks_accept_nothing(steps: Seq<AcceptStep>)
    requires
        forall|i: int| 0 <= i < steps.len() ==> !(#[trigger] steps[i]).mark_accepted,
    ensures
        accepted_slugs_spec(steps) == Seq::<String>::empty(),
    decreases steps.len(),
{
    if steps.len() > 0 {
        assert(!steps[steps.len() - 1].mark_accepted);
        assert forall|i: int| 0 <= i < steps.drop_last().len() implies !(
        #[trigger] steps.drop_last()[i]).mark_accepted by {
            assert(steps.drop_last()[i] == steps[i]);
        }
        lemma_no_marks_accept_nothing(steps.drop_last());
    }
}

/// Law: once every invite of an email is accepted, signing in again
/// accepts nothing new: the plan marks no invite and names no venture
/// (its steps only reconcile memberships).
pub proof fn lemma_second_sign_in_accepts_nothing(invites: Seq<InviteRecord>)
    requires
        forall|i: int| 0 <= i < invites.len() ==> (#[trigger] invites[i]).accepted_at is Some,
    ensures
        forall|i: int| 0 <= i < invites.len() ==> !(#[trigger] plan_of(invites)[i]).mark_accepted,
        accepted_slugs_spec(plan_of(invites)) == Seq::<String>::empty(),
{
    let steps = plan_of(invites);
    assert forall|i: int| 0 <= i < steps.len() implies !(#[trigger] steps[i]).mark_accepted by {
        assert(invites[i].accepted_at is Some);
    }
    lemma_no_marks_accept_nothing(steps);
}

/// What came of one membership upsert.
pub enum MembershipWrite {
    /// The write failed with this error.
    Failed(Error),
    /// The write ran but returned no row.
    Missing,
    /// The membership row is in place.
    Written,
}

/// What to do after one step's membership upsert.
#[derive(Debug)]
pub enum AcceptAction {
    /// Mark this invite accepted, then go on with the next step.
    MarkAccepted(RecordId),
    /// Go on with the next step.
    Next,
    /// Stop here and return this error; the invite stays unaccepted.
    Stop(Error),
}

/// The message of the error raised when an upsert returns no row.
pub open spec fn missing_row_message(slug: Seq<char>, email: Seq<char>) -> Seq<char> {
    "membership upsert returned no row for slug="@ + slug + " email="@ + email
}

/// The decision after a step's membership upsert: a failed or missing
/// write stops the acceptance before the invite is marked, so a later
/// sign-in retries it; a written one marks the invite accepted when the
/// step says so.
pub fn next_accept_action(step: &AcceptStep, write: MembershipWrite, email: &str) -> (r: AcceptAction)
    ensures
        match write {
            MembershipWrite::Failed(e) => r == AcceptAction::Stop(e),
            MembershipWrite::Missing => r matches AcceptAction::Stop(Error::Invariant(m))
                && m@ == missing_row_message(step.tenant_slug@, email@),
            MembershipWrite::Written => if step.mark_accepted {
                r == AcceptAction::MarkAccepted(step.invite)
            } else {
                r == AcceptAction::Next
            },
        },
{
    match write {
        MembershipWrite::Failed(e) => AcceptAction::Stop(e),
        MembershipWrite::Missing => {
            let mut v: Vec<char> = Vec::new();
            push_str(&mut v, "membership upsert returned no row for slug=");
            push_str(&mut v, step.tenant_slug.as_str());
            push_str(&mut v, " email=");
            push_str(&mut v, email);
            proof {
                reveal_strlit("membership upsert returned no row for slug=");
                reveal_strlit(" email=");
            }
            AcceptAction::Stop(Error::Invariant(string_from_chars(&v)))
        },
        MembershipWrite::Written => {
            if step.mark_accepted {
                AcceptAction::MarkAccepted(step.invite.clone())
            } else {
                AcceptAction::Next
            }
        },
    }
}

} // verus!

verus! {

/// Law: the slugs a sign-in newly accepts are exactly the tenant slugs of
/// the steps that mark an invite accepted, each once, in the steps' order:
/// no marked step is left out and no unmarked one is named.
pub proof fn lemma_accepted_slugs_are_the_marked_steps(steps: Seq<AcceptStep>)
    ensures
        accepted_slugs_spec(steps) == steps.filter(|s: AcceptStep| s.mark_accepted).map_values(
            |s: AcceptStep| s.tenant_slug,
        ),
    decreases steps.len(),
{
    reveal(Seq::filter);
    if steps.len() > 0 {
        lemma_accepted_slugs_are_the_marked_steps(steps.drop_last());
        let f = steps.drop_last().filter(|s: AcceptStep| s.mark_accepted);
        assert(steps.filter(|s: AcceptStep| s.mark_accepted) == if steps.last().mark_accepted {
            f.push(steps.last())
        } else {
            f
        });
        if steps.last().mark_accepted {
            assert(f.push(steps.last()).map_values(|s: AcceptStep| s.tenant_slug) =~= f.map_values(
                |s: AcceptStep| s.tenant_slug,
            ).push(steps.last().tenant_slug));
        }
    } else {
        assert(steps.filter(|s: AcceptStep| s.mark_accepted) =~= Seq::<AcceptStep>::empty());
        assert(steps.filter(|s: AcceptStep| s.mark_accepted).map_values(|s: AcceptStep| s.tenant_slug)
            =~= Seq::<String>::empty());
    }
}

/// Law: signing in with pending invites accepts each of them: the slugs
/// newly accepted are the tenant slugs of the invites not yet accepted, in
/// order.
pub proof fn lemma_pending_invites_are_accepted(invites: Seq<InviteRecord>)
    ensures
        accepted_slugs_spec(plan_of(invites)) == invites.filter(
            |i: InviteRecord| i.accepted_at is None,
        ).map_values(|i: InviteRecord| i.tenant_slug),
    decreases invites.len(),
{
    reveal(Seq::filter);
    if invites.len() > 0 {
        lemma_pending_invites_are_accepted(invites.drop_last());
        assert(plan_of(invites).drop_last() =~= plan_of(invites.drop_last()));
        assert(plan_of(invites).last() == step_of(invites.last()));
        let f = invites.drop_last().filter(|i: InviteRecord| i.accepted_at is None);
        assert(invites.filter(|i: InviteRecord| i.accepted_at is None) == if invites.last().accepted_at is None {
            f.push(invites.last())
        } else {
            f
        });
        if invites.last().accepted_at is None {
            assert(f.push(invites.last()).map_values(|i: InviteRecord| i.tenant_slug) =~= f.map_values(
                |i: InviteRecord| i.tenant_slug,
            ).push(invites.last().tenant_slug));
        }
    } else {
        assert(invites.filter(|i: InviteRecord| i.accepted_at is None) =~= Seq::<InviteRecord>::empty());
        assert(invites.filter(|i: InviteRecord| i.accepted_at is None).map_values(
            |i: InviteRecord| i.tenant_slug,
        ) =~= Seq::<String>::empty());
        assert(plan_of(invites) =~= Seq::<AcceptStep>::empty());
    }
}

} // verus!
