use flaps::{Config, DatabaseConfig, RedisCacheConfig, WorkspaceClientConfig};

#[test]
fn redis_test_default_config() {
    let config = RedisCacheConfig::default();
    assert_eq!(config.url, "redis://127.0.0.1:6379");
    assert_eq!(config.key_prefix, "flaps");
    assert_eq!(config.default_ttl_secs, 300);
}

#[test]
fn test_config_builder() {
    let config = RedisCacheConfig::new("redis://localhost:6380").with_prefix("myapp").with_ttl(600);

    assert_eq!(config.url, "redis://localhost:6380");
    assert_eq!(config.key_prefix, "myapp");
    assert_eq!(config.default_ttl_secs, 600);
}

#[test]
fn client_test_default_config() {
    let config = WorkspaceClientConfig::default();
    assert_eq!(config.base_url, "http://localhost:8080");
    assert!(config.api_key.is_none());
    assert_eq!(config.timeout_secs, 30);
}

#[test]
fn database_configs() {
    let pg = DatabaseConfig::postgres("postgres://db/flaps");
    assert!(pg.is_postgres());
    assert!(!pg.is_sqlite());
    assert_eq!(pg.max_connections, 20);
    assert_eq!(pg.min_connections, 5);
    let lite = DatabaseConfig::sqlite("data.db");
    assert_eq!(lite.url, "sqlite://data.db?mode=rwc");
    assert!(lite.is_sqlite());
    let mem = DatabaseConfig::sqlite_memory();
    assert_eq!(mem.url, "sqlite::memory:");
    assert!(mem.is_sqlite());
    assert!(DatabaseConfig::postgres("postgresql://x").is_postgres());
    assert!(!DatabaseConfig::postgres("mysql://x").is_postgres());
}

#[test]
fn sdk_config_builder() {
    let config = Config::new("key").base_url("http://x").environment("prod").project("p").offline();
    assert_eq!(config.api_key, "key");
    assert_eq!(config.base_url, "http://x");
    assert_eq!(config.environment, "prod");
    assert_eq!(config.project, Some("p".to_string()));
    assert!(config.offline_mode);
    let d = Config::default();
    assert_eq!(d.base_url, "https://api.flaps.nubster.com");
    assert_eq!(d.environment, "dev");
    assert_eq!(d.poll_interval_secs, 30);
    assert!(d.use_sse);
    assert_eq!(d.timeout_secs, 10);
}
