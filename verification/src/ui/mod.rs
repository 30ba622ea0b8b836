//! Rules of the web front end: input validation before a request is sent,
//! and how amounts, dates, roles and statuses are shown.

pub mod api;
pub mod create_tenant;
pub mod format;
pub mod forms;
pub mod venture;
