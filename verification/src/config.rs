//! Configuration handles, dependency-injected at construction time.  The
//! process boundary reads them from the environment; the library only
//! carries the plain values.

use vstd::prelude::*;

verus! {

/// Where the server listens.
#[derive(Debug)]
pub struct ServerConfig {
    pub host: String,
    pub port: u16,
    pub cors_origins: Vec<String>,
}

/// How the relational store is reached.
#[derive(Debug)]
pub struct DatabaseConfig {
    pub database_url: String,
    pub max_connections: u32,
    pub connection_timeout: u64,
}

/// How much is logged, and in which format.
#[derive(Debug)]
pub struct LoggingConfig {
    pub level: String,
    pub format: String,
}

/// The token authority's parameters: signing secret, issuer, audience,
/// and token lifetime in minutes.
#[derive(Debug)]
pub struct AuthConfig {
    pub jwt_secret: String,
    pub issuer: String,
    pub audience: String,
    pub expiry_minutes: u64,
}

impl Clone for AuthConfig {
    fn clone(&self) -> (res: Self)
        ensures
            res.jwt_secret@ == self.jwt_secret@,
            res.issuer@ == self.issuer@,
            res.audience@ == self.audience@,
            res.expiry_minutes == self.expiry_minutes,
    {
        AuthConfig {
            jwt_secret: self.jwt_secret.clone(),
            issuer: self.issuer.clone(),
            audience: self.audience.clone(),
            expiry_minutes: self.expiry_minutes,
        }
    }
}

/// How the shared cache is reached, and its default time-to-live.
#[derive(Debug)]
pub struct RedisConfig {
    pub url: String,
    pub ttl_secs: u64,
}

/// The whole configuration of one service instance.
#[derive(Debug)]
pub struct AppConfig {
    pub server: ServerConfig,
    pub database: DatabaseConfig,
    pub logging: LoggingConfig,
    pub auth: AuthConfig,
    pub redis: RedisConfig,
}

} // verus!
