//! Configuration of the query API service and its defaults.
use vstd::prelude::*;
use crate::common::format::{dec_digits, decimal_text};

verus! {

/// Configuration for the API Service.
#[derive(Debug)]
pub struct Config {
    /// HTTP server configuration
    pub server: ServerConfig,
    /// Database configuration
    pub database: DatabaseConfig,
    /// CORS configuration
    pub cors: CorsConfig,
}

/// HTTP server configuration.
#[derive(Debug)]
pub struct ServerConfig {
    /// Host to bind to
    pub host: String,
    /// Port to listen on
    pub port: u16,
    /// Request timeout in seconds
    pub timeout_seconds: u64,
}

/// Database configuration.
#[derive(Debug)]
pub struct DatabaseConfig {
    /// Database URL
    pub url: String,
    /// Maximum connections in the pool
    pub max_connections: u32,
    /// Minimum connections in the pool
    pub min_connections: u32,
    /// Connection timeout in seconds
    pub connect_timeout_seconds: u64,
}

/// CORS configuration.
#[derive(Debug)]
pub struct CorsConfig {
    /// Whether to enable CORS
    pub enabled: bool,
    /// Allowed origins
    pub allowed_origins: Vec<String>,
    /// Whether to allow credentials
    pub allow_credentials: bool,
}

/// The default server configuration: 0.0.0.0:8080 with a 30 second timeout.
pub fn default_server_config() -> (r: ServerConfig)
    ensures
        r.host@ == "0.0.0.0"@,
        r.port == 8080,
        r.timeout_seconds == 30,
{
    ServerConfig { host: default_host(), port: default_port(), timeout_seconds: default_timeout() }
}

/// The host the server binds to unless configured otherwise.
pub fn default_host() -> (r: String)
    ensures
        r@ == "0.0.0.0"@,
{
    "0.0.0.0".to_owned()
}

/// The port the server listens on unless configured otherwise.
pub fn default_port() -> (r: u16)
    ensures
        r == 8080,
{
    8080
}

/// The request timeout in seconds unless configured otherwise.
pub fn default_timeout() -> (r: u64)
    ensures
        r == 30,
{
    30
}

/// The largest database pool unless configured otherwise.
pub fn default_max_connections() -> (r: u32)
    ensures
        r == 10,
{
    10
}

/// The smallest database pool unless configured otherwise.
pub fn default_min_connections() -> (r: u32)
    ensures
        r == 2,
{
    2
}

/// The database connection timeout in seconds unless configured otherwise.
pub fn default_connect_timeout() -> (r: u64)
    ensures
        r == 10,
{
    10
}

/// The default CORS configuration: enabled, any origin, no credentials.
pub fn default_cors_config() -> (r: CorsConfig)
    ensures
        r.enabled,
        r.allowed_origins@.len() == 1,
        r.allowed_origins@[0]@ == "*"@,
        !r.allow_credentials,
{
    CorsConfig {
        enabled: default_cors_enabled(),
        allowed_origins: default_allowed_origins(),
        allow_credentials: default_allow_credentials(),
    }
}

/// Whether CORS is enabled unless configured otherwise.
pub fn default_cors_enabled() -> (r: bool)
    ensures
        r,
{
    true
}

/// The allowed origins unless configured otherwise: any.
pub fn default_allowed_origins() -> (r: Vec<String>)
    ensures
        r@.len() == 1,
        r@[0]@ == "*"@,
{
    let mut origins: Vec<String> = Vec::new();
    origins.push("*".to_owned());
    origins
}

/// Whether credentials are allowed unless configured otherwise.
pub fn default_allow_credentials() -> (r: bool)
    ensures
        !r,
{
    false
}

impl Config {
    /// A configuration with the default server and CORS settings.
    pub fn new(database: DatabaseConfig) -> (r: Config)
        ensures
            r.server.host@ == "0.0.0.0"@,
            r.server.port == 8080,
            r.server.timeout_seconds == 30,
            r.database == database,
            r.cors.enabled,
            r.cors.allowed_origins@.len() == 1,
            r.cors.allowed_origins@[0]@ == "*"@,
            !r.cors.allow_credentials,
    {
        Config { server: default_server_config(), database, cors: default_cors_config() }
    }
}

impl DatabaseConfig {
    /// A database configuration with the default pool and timeout.
    pub fn new(url: String) -> (r: DatabaseConfig)
        ensures
            r.url == url,
            r.max_connections == 10,
            r.min_connections == 2,
            r.connect_timeout_seconds == 10,
    {
        DatabaseConfig {
            url,
            max_connections: default_max_connections(),
            min_connections: default_min_connections(),
            connect_timeout_seconds: default_connect_timeout(),
        }
    }
}

impl ServerConfig {
    /// The address the server binds to: host, a colon, and the port.
    pub fn address(&self) -> (r: String)
        ensures
            r@ == self.host@ + ":"@ + dec_digits(self.port as nat),
    {
        let mut a = self.host.clone();
        a.append(":");
        a.append(decimal_text(self.port as u64).as_str());
        a
    }
}

} // verus!
