//! The ledger: records of users, memberships, invites and contributions,
//! and the rules the ledger client applies around its database.

pub mod client;
pub mod error;
pub mod types;
