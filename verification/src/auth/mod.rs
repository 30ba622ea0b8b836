//! Authentication: password hashing, session tokens and Google sign-in
//! rules.

pub mod error;
pub mod google;
pub mod password;
pub mod session;
