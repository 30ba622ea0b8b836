//! The HTTP gateway's rules: request validation, authorization, and the
//! shapes of what it answers. The server itself (routing, I/O) drives
//! these.

pub mod carry_forward;
pub mod contributions;
pub mod http;
pub mod invites;
pub mod mailer;
pub mod members;
pub mod proofs;
pub mod settings;
pub mod sign_in;
pub mod tenants;
