//! Service configuration and the defaults of its optional settings.
use vstd::prelude::*;

verus! {

/// Application configuration; every field but `database_url` has a default.
pub struct Config {
    /// PostgreSQL connection string (required).
    pub database_url: String,
    /// TCP port to bind.
    pub port: u16,
    /// Maximum PostgreSQL connection pool size.
    pub max_db_connections: u32,
    /// Maximum concurrency for the built-in bench engine.
    pub bench_max_concurrency: u32,
    /// Maximum request body size in bytes.
    pub body_limit_bytes: usize,
    /// Per-request timeout in seconds.
    pub request_timeout_secs: u64,
    /// Log level filter string.
    pub log_level: String,
}

/// Default TCP port.
pub fn default_port() -> (r: u16)
    ensures
        r == 8080,
{
    8080
}

/// Default connection pool size.
pub fn default_max_db_connections() -> (r: u32)
    ensures
        r == 100,
{
    100
}

/// Default bench engine concurrency ceiling.
pub fn default_bench_max_concurrency() -> (r: u32)
    ensures
        r == 2000,
{
    2000
}

/// Default request body limit: 50 MB.
pub fn default_body_limit_bytes() -> (r: usize)
    ensures
        r == 50 * 1024 * 1024,
{
    50 * 1024 * 1024
}

/// Default per-request timeout in seconds.
pub fn default_request_timeout_secs() -> (r: u64)
    ensures
        r == 30,
{
    30
}

/// Default log level filter.
pub fn default_log_level() -> (r: String)
    ensures
        r@ == "info"@,
{
    String::from_str("info")
}

} // verus!
