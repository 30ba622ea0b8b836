//! Sharam: a self-hostable ledger for invite-only ventures. Members pay
//! periodic dues into a shared pool; this crate holds the rules of the
//! ledger, proved with Verus.

pub mod auth;
pub mod common;
pub mod gateway;
pub mod text;
pub mod ui;
pub mod ledger;
pub mod storage;
