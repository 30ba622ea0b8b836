use vstd::prelude::*;

use crate::text::{push_int, push_str, string_from_chars};

verus! {

/// The service's whole configuration, as loaded from `Sharam.toml` and
/// `SHARAM_*` environment variables.
#[derive(Debug, Clone)]
pub struct AppConfig {
    pub gateway: GatewayConfig,
    pub surrealdb: SurrealConfig,
    pub storage: StorageConfig,
    pub google: GoogleConfig,
    pub smtp: SmtpConfig,
}

#[derive(Debug, Clone)]
pub struct GatewayConfig {
    pub bind: String,
    pub frontend_origin: String,
    /// HS256 secret for session tokens; at least 32 bytes.
    pub session_secret: String,
}

#[derive(Debug, Clone)]
pub struct SurrealConfig {
    pub endpoint: String,
    pub namespace: String,
    pub database: String,
    pub username: String,
    pub password: String,
}

#[derive(Debug, Clone)]
pub struct StorageConfig {
    pub endpoint: String,
    pub region: String,
    pub bucket: String,
    pub access_key_id: String,
    pub secret_access_key: String,
}

#[derive(Debug, Clone)]
pub struct GoogleConfig {
    pub client_id: String,
    pub client_secret: String,
    pub redirect_uri: String,
}

/// Outbound email transport. `app_base_url` is the public origin embedded
/// in transactional links; a trailing slash is trimmed at use.
#[derive(Debug, Clone)]
pub struct SmtpConfig {
    pub host: String,
    pub port: u16,
    pub username: String,
    pub password: String,
    pub from_email: String,
    pub from_name: String,
    pub app_base_url: String,
    /// `starttls` (587), `tls` (465), or `plain` (local development).
    pub encryption: String,
}

/// The encryption used when the configuration names none.
pub fn default_encryption() -> (s: String)
    ensures
        s@ == "starttls"@,
{
    "starttls".to_string()
}

/// Minimum length of the session secret, in bytes.
pub const MIN_SESSION_SECRET_BYTES: usize = 32;

/// The session secret must be at least 32 bytes long (UTF-8).
pub fn check_session_secret(secret: &str) -> (r: Result<(), String>)
    ensures
        secret.len() >= 32 ==> r is Ok,
        secret.len() < 32 ==> r is Err && r->Err_0@
            == "gateway.session_secret must be at least 32 bytes (got "@ + crate::text::int_str(
            secret.len() as int,
        ) + ")"@,
{
    let n = secret.len();
    if n < MIN_SESSION_SECRET_BYTES {
        let mut v: Vec<char> = Vec::new();
        push_str(&mut v, "gateway.session_secret must be at least 32 bytes (got ");
        push_int(&mut v, n as i64);
        push_str(&mut v, ")");
        return Err(string_from_chars(&v));
    }
    Ok(())
}

} // verus!
