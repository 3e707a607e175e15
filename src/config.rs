//! Configuration of the client, the flag cache, the database and the
//! workspace service.

use vstd::prelude::*;

use crate::text::{starts_with_spec, text_starts_with};

verus! {

/// Default server address of the client.
pub fn default_base_url() -> (r: String)
    ensures
        r@ == "https://api.flaps.nubster.com"@,
{
    String::from_str("https://api.flaps.nubster.com")
}

/// Default environment of the client.
pub fn default_environment() -> (r: String)
    ensures
        r@ == "dev"@,
{
    String::from_str("dev")
}

/// Default polling interval of the client, in seconds.
pub fn default_poll_interval() -> (r: u64)
    ensures
        r == 30,
{
    30
}

/// Whether the client uses server-sent events by default.
pub fn default_use_sse() -> (r: bool)
    ensures
        r,
{
    true
}

/// Default connection timeout of the client, in seconds.
pub fn default_timeout() -> (r: u64)
    ensures
        r == 10,
{
    10
}

/// Configuration of the client.
#[derive(Clone, Debug)]
pub struct Config {
    /// API key for authentication.
    pub api_key: String,
    /// Address of the server.
    pub base_url: String,
    /// Environment to evaluate flags in.
    pub environment: String,
    /// Project key.
    pub project: Option<String>,
    /// Polling interval for updates, in seconds.
    pub poll_interval_secs: u64,
    /// Whether to use server-sent events for updates.
    pub use_sse: bool,
    /// Connection timeout, in seconds.
    pub timeout_secs: u64,
    /// Whether to use the flags at hand only.
    pub offline_mode: bool,
}

impl Default for Config {
    fn default() -> (r: Config)
        ensures
            r.api_key@.len() == 0,
            r.base_url@ == "https://api.flaps.nubster.com"@,
            r.environment@ == "dev"@,
            r.project is None,
            r.poll_interval_secs == 30,
            r.use_sse,
            r.timeout_secs == 10,
            !r.offline_mode,
    {
        Config {
            api_key: String::new(),
            base_url: default_base_url(),
            environment: default_environment(),
            project: None,
            poll_interval_secs: default_poll_interval(),
            use_sse: default_use_sse(),
            timeout_secs: default_timeout(),
            offline_mode: false,
        }
    }
}

impl Config {
    /// The default configuration with an API key.
    pub fn new(api_key: &str) -> (r: Config)
        ensures
            r.api_key@ == api_key@,
            r.base_url@ == "https://api.flaps.nubster.com"@,
            r.environment@ == "dev"@,
            r.project is None,
            r.poll_interval_secs == 30,
            r.use_sse,
            r.timeout_secs == 10,
            !r.offline_mode,
    {
        let mut r = Config::default();
        r.api_key = api_key.to_owned();
        r
    }

    /// Sets the server address.
    pub fn base_url(self, url: &str) -> (r: Config)
        ensures
            r == (Config { base_url: r.base_url, ..self }),
            r.base_url@ == url@,
    {
        let mut r = self;
        r.base_url = url.to_owned();
        r
    }

    /// Sets the environment.
    pub fn environment(self, env: &str) -> (r: Config)
        ensures
            r == (Config { environment: r.environment, ..self }),
            r.environment@ == env@,
    {
        let mut r = self;
        r.environment = env.to_owned();
        r
    }

    /// Sets the project.
    pub fn project(self, project: &str) -> (r: Config)
        ensures
            r == (Config { project: r.project, ..self }),
            r.project is Some && r.project->0@ == project@,
    {
        let mut r = self;
        r.project = Some(project.to_owned());
        r
    }

    /// Turns on offline mode.
    pub fn offline(self) -> (r: Config)
        ensures
            r == (Config { offline_mode: true, ..self }),
    {
        let mut r = self;
        r.offline_mode = true;
        r
    }
}

/// Configuration of the flag cache.
#[derive(Clone, Debug)]
pub struct RedisCacheConfig {
    /// Address of the cache server.
    pub url: String,
    /// Prefix of all keys.
    pub key_prefix: String,
    /// Default time to live, in seconds.
    pub default_ttl_secs: u64,
}

impl Default for RedisCacheConfig {
    fn default() -> (r: RedisCacheConfig)
        ensures
            r.url@ == "redis://127.0.0.1:6379"@,
            r.key_prefix@ == "flaps"@,
            r.default_ttl_secs == 300,
    {
        RedisCacheConfig {
            url: String::from_str("redis://127.0.0.1:6379"),
            key_prefix: String::from_str("flaps"),
            default_ttl_secs: 300,
        }
    }
}

impl RedisCacheConfig {
    /// The default configuration with another address.
    pub fn new(url: &str) -> (r: RedisCacheConfig)
        ensures
            r.url@ == url@,
            r.key_prefix@ == "flaps"@,
            r.default_ttl_secs == 300,
    {
        let mut r = RedisCacheConfig::default();
        r.url = url.to_owned();
        r
    }

    /// Sets the key prefix.
    pub fn with_prefix(self, prefix: &str) -> (r: RedisCacheConfig)
        ensures
            r.url == self.url,
            r.key_prefix@ == prefix@,
            r.default_ttl_secs == self.default_ttl_secs,
    {
        let mut r = self;
        r.key_prefix = prefix.to_owned();
        r
    }

    /// Sets the default time to live.
    pub fn with_ttl(self, ttl_secs: u64) -> (r: RedisCacheConfig)
        ensures
            r == (RedisCacheConfig { default_ttl_secs: ttl_secs, ..self }),
    {
        let mut r = self;
        r.default_ttl_secs = ttl_secs;
        r
    }
}

/// Configuration of the database.
#[derive(Clone, Debug)]
pub struct DatabaseConfig {
    /// Connection address (`postgres://…` or `sqlite://…`).
    pub url: String,
    /// Most connections in the pool.
    pub max_connections: u32,
    /// Fewest connections kept open.
    pub min_connections: u32,
    /// Connection timeout, in seconds.
    pub connect_timeout_secs: u64,
    /// Idle timeout of a connection, in seconds.
    pub idle_timeout_secs: u64,
    /// Whether to run migrations on startup.
    pub run_migrations: bool,
}

impl Default for DatabaseConfig {
    fn default() -> (r: DatabaseConfig)
        ensures
            r.url@ == "sqlite://flaps.db?mode=rwc"@,
            r.max_connections == 10,
            r.min_connections == 1,
            r.connect_timeout_secs == 30,
            r.idle_timeout_secs == 600,
            r.run_migrations,
    {
        DatabaseConfig {
            url: String::from_str("sqlite://flaps.db?mode=rwc"),
            max_connections: 10,
            min_connections: 1,
            connect_timeout_secs: 30,
            idle_timeout_secs: 600,
            run_migrations: true,
        }
    }
}

impl DatabaseConfig {
    /// A PostgreSQL configuration: 5 to 20 connections.
    pub fn postgres(url: &str) -> (r: DatabaseConfig)
        ensures
            r.url@ == url@,
            r.max_connections == 20,
            r.min_connections == 5,
            r.connect_timeout_secs == 30,
            r.idle_timeout_secs == 600,
            r.run_migrations,
    {
        let mut r = DatabaseConfig::default();
        r.url = url.to_owned();
        r.max_connections = 20;
        r.min_connections = 5;
        r
    }

    /// An SQLite configuration for a file, created where missing: 1 to 5
    /// connections.
    pub fn sqlite(path: &str) -> (r: DatabaseConfig)
        ensures
            r.url@ == "sqlite://"@ + path@ + "?mode=rwc"@,
            r.max_connections == 5,
            r.min_connections == 1,
            r.connect_timeout_secs == 30,
            r.idle_timeout_secs == 600,
            r.run_migrations,
    {
        let mut url = String::from_str("sqlite://");
        url.append(path);
        url.append("?mode=rwc");
        let mut r = DatabaseConfig::default();
        r.url = url;
        r.max_connections = 5;
        r.min_connections = 1;
        r
    }

    /// An in-memory SQLite configuration, with one connection.
    pub fn sqlite_memory() -> (r: DatabaseConfig)
        ensures
            r.url@ == "sqlite::memory:"@,
            r.max_connections == 1,
            r.min_connections == 1,
            r.connect_timeout_secs == 30,
            r.idle_timeout_secs == 600,
            r.run_migrations,
    {
        let mut r = DatabaseConfig::default();
        r.url = String::from_str("sqlite::memory:");
        r.max_connections = 1;
        r.min_connections = 1;
        r
    }

    /// Whether the address is a PostgreSQL one.
    pub fn is_postgres(&self) -> (r: bool)
        ensures
            r == (starts_with_spec(self.url@, "postgres://"@) || starts_with_spec(
                self.url@,
                "postgresql://"@,
            )),
    {
        text_starts_with(self.url.as_str(), "postgres://") || text_starts_with(
            self.url.as_str(),
            "postgresql://",
        )
    }

    /// Whether the address is an SQLite one.
    pub fn is_sqlite(&self) -> (r: bool)
        ensures
            r == (starts_with_spec(self.url@, "sqlite://"@) || starts_with_spec(
                self.url@,
                "sqlite:"@,
            )),
    {
        text_starts_with(self.url.as_str(), "sqlite://") || text_starts_with(
            self.url.as_str(),
            "sqlite:",
        )
    }
}

/// Kind of database.
#[derive(Clone, Copy, Debug, PartialEq, Eq, Structural)]
pub enum DatabaseType {
    PostgreSQL,
    SQLite,
}

/// Configuration of the workspace service client.
#[derive(Clone, Debug)]
pub struct WorkspaceClientConfig {
    /// Address of the workspace service.
    pub base_url: String,
    /// API key or token.
    pub api_key: Option<String>,
    /// Request timeout, in seconds.
    pub timeout_secs: u64,
}

impl Default for WorkspaceClientConfig {
    fn default() -> (r: WorkspaceClientConfig)
        ensures
            r.base_url@ == "http://localhost:8080"@,
            r.api_key is None,
            r.timeout_secs == 30,
    {
        WorkspaceClientConfig {
            base_url: String::from_str("http://localhost:8080"),
            api_key: None,
            timeout_secs: 30,
        }
    }
}

} // verus!
