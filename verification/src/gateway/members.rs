use vstd::prelude::*;

use crate::ledger::types::{TenantMember, VentureSummary};

verus! {

/// A venture of the caller as the API shows it.
#[derive(Debug)]
pub struct VentureView {
    pub slug: String,
    pub display_name: String,
    pub role: String,
    pub created_at: String,
}

pub fn venture_view(v: VentureSummary) -> (r: VentureView)
    ensures
        r.slug == v.slug,
        r.display_name == v.display_name,
        r.role == v.role,
        r.created_at@ == v.created_at.rfc3339@,
{
    VentureView {
        slug: v.slug,
        display_name: v.display_name,
        role: v.role,
        created_at: v.created_at.rfc3339,
    }
}

/// A member of a venture as the API shows it. The per-period status is
/// not tracked yet and reads `—`.
#[derive(Debug)]
pub struct MemberView {
    pub email: String,
    pub display_name: Option<String>,
    pub role: String,
    pub joined_at: String,
    pub last_period_status: String,
}

pub fn member_view(m: TenantMember) -> (r: MemberView)
    ensures
        r.email == m.email,
        r.display_name == m.display_name,
        r.role == m.role,
        r.joined_at@ == m.joined_at.rfc3339@,
        r.last_period_status@ == "—"@,
{
    MemberView {
        email: m.email,
        display_name: m.display_name,
        role: m.role,
        joined_at: m.joined_at.rfc3339,
        last_period_status: "—".to_string(),
    }
}

} // verus!
