//! Object storage for proof-of-payment files.

pub mod error;
pub mod proof_store;
