//! Domain primitives shared by every part of Sharam.

pub mod config;
pub mod domain;
pub mod error;
pub mod time;
