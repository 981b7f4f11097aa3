use nishack::config::{
    default_enabled, default_interval, default_max_dimension, default_quality,
    streaming_default_enabled, streaming_default_interval_ms, streaming_default_max_dim,
    streaming_default_quality, streaming_default_reconnect_secs, streaming_default_url, ApiConfig,
    AppConfig, BanList, MonitorConfig, RedisConfig, ScreenshotConfig, StreamingConfig,
};
use nishack::control::{default_count, is_http_url, parse_lock_mode, LockMode};
use nishack::models::{
    HealthResponse, Heartbeat, Timestamp, Violation, ViolationKind, ViolationsResponse,
};

#[test]
fn screenshot_defaults() {
    assert!(default_enabled());
    assert_eq!(default_interval(), 60);
    assert_eq!(default_quality(), 75);
    assert_eq!(default_max_dimension(), 1920);
    let config = ScreenshotConfig::default();
    assert!(config.enabled);
    assert_eq!(config.interval, 60);
    assert_eq!(config.quality, 75);
    assert_eq!(config.max_dimension, 1920);
}

#[test]
fn streaming_defaults() {
    assert!(streaming_default_enabled());
    assert_eq!(streaming_default_url(), "ws://192.168.8.151:8080/ws/screen");
    assert_eq!(streaming_default_quality(), 60);
    assert_eq!(streaming_default_max_dim(), 1280);
    assert_eq!(streaming_default_interval_ms(), 700);
    assert_eq!(streaming_default_reconnect_secs(), 4);
    let config = StreamingConfig::default();
    assert!(config.enabled);
    assert_eq!(config.server_url, "ws://192.168.8.151:8080/ws/screen");
    assert_eq!(config.quality, 60);
    assert_eq!(config.max_dimension, 1280);
    assert_eq!(config.interval_ms, 700);
    assert_eq!(config.reconnect_secs, 4);
}

#[test]
fn configuration_holds_what_it_is_given() {
    let config = AppConfig {
        redis: RedisConfig {
            url: "redis://10.0.0.1/".to_string(),
            key_prefix: "nis".to_string(),
            heartbeat_interval: 30,
        },
        api: ApiConfig { port: 8081 },
        monitor: MonitorConfig {
            scan_interval: 5,
            banned_processes: BanList { names: vec!["steam".to_string()] },
            banned_domains: BanList { names: vec![] },
        },
        screenshots: ScreenshotConfig::default(),
        streaming: StreamingConfig::default(),
    };
    let copy = config.clone();
    assert_eq!(copy.redis.key_prefix, "nis");
    assert_eq!(copy.api.port, 8081);
    assert_eq!(copy.monitor.banned_processes.names, vec!["steam".to_string()]);
    assert_eq!(copy.screenshots.quality, 75);
    assert_eq!(copy.streaming.reconnect_secs, 4);
}

#[test]
fn lock_mode_is_soft_or_hard() {
    assert_eq!(parse_lock_mode("soft"), Some(LockMode::Soft));
    assert_eq!(parse_lock_mode("hard"), Some(LockMode::Hard));
    assert_eq!(parse_lock_mode("Soft"), None);
    assert_eq!(parse_lock_mode("hard "), None);
    assert_eq!(parse_lock_mode(""), None);
    assert_eq!(parse_lock_mode("lock"), None);
}

#[test]
fn only_http_urls_may_be_opened() {
    assert!(is_http_url("http://example.org"));
    assert!(is_http_url("https://example.org/a?b=c"));
    assert!(is_http_url("http://"));
    assert!(!is_http_url("ftp://example.org"));
    assert!(!is_http_url("file:///etc/passwd"));
    assert!(!is_http_url("HTTP://example.org"));
    assert!(!is_http_url(" http://example.org"));
    assert!(!is_http_url("http:/example.org"));
    assert!(!is_http_url(""));
}

#[test]
fn default_count_of_recent_violations() {
    assert_eq!(default_count(), 50);
}

#[test]
fn health_response_of_a_live_agent() {
    let response = HealthResponse::ok("1.2.3", "pc-7".to_string(), 99);
    assert_eq!(response.status, "ok");
    assert_eq!(response.version, "1.2.3");
    assert_eq!(response.hostname, "pc-7");
    assert_eq!(response.uptime_secs, 99);
}

#[test]
fn violations_response_counts_its_list() {
    let violation = Violation {
        hostname: "pc-7".to_string(),
        target: "steam".to_string(),
        kind: ViolationKind::Process,
        action_taken: true,
        username: "alice".to_string(),
        timestamp: Timestamp { secs: 1, nanos: 2 },
    };
    let response = ViolationsResponse::new(vec![violation.clone(), violation.clone()]);
    assert_eq!(response.total, 2);
    assert_eq!(response.violations, vec![violation.clone(), violation]);
    assert_eq!(ViolationsResponse::new(vec![]).total, 0);
}

#[test]
fn heartbeat_holds_what_it_is_given() {
    let beat = Heartbeat {
        hostname: "pc-7".to_string(),
        ip: "10.0.0.5".to_string(),
        port: 8081,
        version: "0.1.0".to_string(),
        timestamp: Timestamp { secs: 5, nanos: 0 },
    };
    let copy = beat.clone();
    assert_eq!(copy.hostname, "pc-7");
    assert_eq!(copy.port, 8081);
    assert_eq!(copy.timestamp, Timestamp { secs: 5, nanos: 0 });
}
