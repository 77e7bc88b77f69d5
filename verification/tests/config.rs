use persistence::{DatabaseConfig, Duration};

#[test]
fn validates_configuration() {
    assert!(DatabaseConfig::new("postgresql://example", 1, 4, Duration::from_secs(1)).is_ok());
    assert!(DatabaseConfig::new("", 1, 4, Duration::from_secs(1)).is_err());
    assert!(DatabaseConfig::new("x", 0, 0, Duration::from_secs(1)).is_err());
    assert!(DatabaseConfig::new("x", 5, 4, Duration::from_secs(1)).is_err());
    assert!(DatabaseConfig::new("x", 1, 4, Duration::zero()).is_err());
}

#[test]
fn development_defaults_are_bounded() {
    let config = DatabaseConfig::development("postgresql://example")
        .expect("known-valid development configuration");
    assert_eq!(config.min_connections(), 1);
    assert_eq!(config.max_connections(), 16);
    assert_eq!(config.acquire_timeout(), Duration::from_secs(5));
    assert!(!config.redacted().contains("postgresql://example"));
}

#[test]
fn redacted_description_lists_the_pool_settings() {
    let config = DatabaseConfig::development("postgresql://user:secret@db/app").expect("valid");
    assert_eq!(
        config.redacted(),
        "DatabaseConfig { url: \"[REDACTED]\", max_connections: 16, min_connections: 1, acquire_timeout: 5s }"
    );
}

#[test]
fn durations_are_described_in_their_largest_unit() {
    assert_eq!(Duration::from_secs(5).debug_text(), "5s");
    assert_eq!(Duration::from_millis(1500).debug_text(), "1.5s");
    assert_eq!(Duration::from_millis(1001).debug_text(), "1.001s");
    assert_eq!(Duration::from_millis(250).debug_text(), "250ms");
    assert_eq!(Duration::zero().debug_text(), "0ns");
    assert_eq!(
        format!("{:?}", std::time::Duration::from_millis(1500)),
        Duration::from_millis(1500).debug_text()
    );
}
