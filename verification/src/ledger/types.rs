use vstd::prelude::*;

use crate::common::domain::TenantSlug;
use crate::common::time::Timestamp;

verus! {

/// A database record id: its table and the text of its key.
#[derive(Debug)]
pub struct RecordId {
    pub table: String,
    pub key: String,
}

impl Clone for RecordId {
    fn clone(&self) -> (r: RecordId)
        ensures
            r == *self,
    {
        RecordId { table: self.table.clone(), key: self.key.clone() }
    }
}

/// Stored row for `user` (control plane).
#[derive(Debug)]
pub struct UserRecord {
    pub id: RecordId,
    pub email: String,
    pub google_sub: Option<String>,
    pub display_name: Option<String>,
    pub display_tz: String,
    /// Argon2 PHC hash, for users who registered with a password.
    pub password_hash: Option<String>,
    pub created_at: Timestamp,
}

/// Stored row for `membership` (control plane). `role` stays text, as in
/// the database.
#[derive(Debug)]
pub struct MembershipRecord {
    pub id: RecordId,
    pub user: RecordId,
    pub tenant_slug: String,
    pub role: String,
    pub created_at: Timestamp,
}

/// Tenant directory entry (control plane).
#[derive(Debug)]
pub struct TenantDirectoryRecord {
    pub id: RecordId,
    pub slug: String,
    pub display_name: String,
    pub created_by: RecordId,
    pub created_at: Timestamp,
}

/// A member of a tenant joined with their user row.
#[derive(Debug)]
pub struct TenantMember {
    pub email: String,
    pub display_name: Option<String>,
    pub role: String,
    pub joined_at: Timestamp,
}

/// A venture a user belongs to, with its display name and the user's role.
#[derive(Debug)]
pub struct VentureSummary {
    pub slug: String,
    pub display_name: String,
    pub role: String,
    pub created_at: Timestamp,
}

/// Stored row for `invite` (control plane).
#[derive(Debug)]
pub struct InviteRecord {
    pub id: RecordId,
    pub tenant_slug: String,
    pub email: String,
    pub role: String,
    pub invited_by: RecordId,
    pub created_at: Timestamp,
    pub accepted_at: Option<Timestamp>,
    pub revoked_at: Option<Timestamp>,
}

/// Input to creating an invite.
#[derive(Debug)]
pub struct NewInvite {
    pub tenant_slug: String,
    pub email: String,
    pub role: String,
    pub invited_by: RecordId,
}

/// Stored row for `settings:current` (per tenant).
#[derive(Debug)]
pub struct TenantSettings {
    pub timezone: String,
    pub currency: String,
    pub display_name: String,
    pub cadence: String,
    pub dues_amount_cents: i64,
}

/// Stored row for `contribution` (per tenant). `cadence` is the venture's
/// cadence when the row was written.
#[derive(Debug)]
pub struct ContributionRecord {
    pub id: RecordId,
    pub user_email: String,
    pub cadence: String,
    pub period: String,
    pub amount_cents: i64,
    pub status: String,
    pub proof_key: Option<String>,
    pub note: Option<String>,
    pub submitted_at: Timestamp,
    pub updated_at: Timestamp,
    pub locked_at: Option<Timestamp>,
}

/// Input to provisioning a tenant.
#[derive(Debug)]
pub struct NewTenant {
    pub slug: TenantSlug,
    pub display_name: String,
    pub timezone: String,
    pub currency: String,
    pub cadence: String,
    pub dues_amount_cents: i64,
    /// The user creating the tenant; becomes its first owner.
    pub created_by: RecordId,
}

/// Input to appending one payment.
#[derive(Debug)]
pub struct NewContribution {
    pub user_email: String,
    pub cadence: String,
    pub period: String,
    pub amount_cents: i64,
    pub proof_key: Option<String>,
    pub note: Option<String>,
}

/// Payments of one member for one period against the dues amount.
#[derive(Debug, Clone, Copy, PartialEq, Eq)]
pub struct PeriodSummary {
    pub dues_cents: i64,
    pub paid_cents: i64,
    pub remaining_cents: i64,
}

/// One non-rejected payment: when, and how much.
#[derive(Debug)]
pub struct AccumulationPoint {
    pub submitted_at: Timestamp,
    pub amount_cents: i64,
}

/// Input to upserting a Google identity.
#[derive(Debug)]
pub struct UpsertUser {
    pub email: String,
    pub google_sub: String,
    pub display_name: Option<String>,
}

/// Input to registering an email + password user.
#[derive(Debug)]
pub struct RegisterPassword {
    pub email: String,
    pub password_hash: String,
    pub display_name: Option<String>,
}

/// Patch of `settings:current`: each `Some` field is written, each `None`
/// field is left as it is.
#[derive(Debug, Default)]
pub struct UpdateSettings {
    pub display_name: Option<String>,
    pub timezone: Option<String>,
    pub currency: Option<String>,
    pub cadence: Option<String>,
    pub dues_amount_cents: Option<i64>,
}

/// The carry-forward seed: money collected before the venture moved here.
#[derive(Debug)]
pub struct CarryForwardRecord {
    pub from_date: String,
    pub to_date: String,
    pub amount_cents: i64,
    pub note: Option<String>,
    pub recorded_by: String,
    pub recorded_at: Timestamp,
}

/// Input to setting the carry-forward seed.
#[derive(Debug)]
pub struct NewCarryForward {
    pub from_date: String,
    pub to_date: String,
    pub amount_cents: i64,
    pub note: Option<String>,
    pub recorded_by: String,
}

} // verus!
