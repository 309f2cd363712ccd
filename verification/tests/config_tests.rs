use salience_gateway::config::{
    Config, RefreshConfig, SalienceConfig, ServerConfig, StorageConfig,
};
use salience_gateway::heuristic::CacheConfig;
use salience_gateway::scalar::Scalar;
use std::time::Duration;

fn s(x: f32) -> Scalar {
    Scalar::from_bits(x.to_bits())
}

fn f(x: Scalar) -> f32 {
    f32::from_bits(x.to_bits())
}

#[test]
fn test_default_config() {
    let config = Config::default();
    assert_eq!(config.server.port, 50052);
    assert_eq!(config.cache.max_events, 1000);
    assert!((f(config.cache.novelty_threshold) - 0.7).abs() < 0.001);
}

#[test]
fn defaults_of_every_section() {
    let server = ServerConfig::default();
    assert_eq!(server.host, "0.0.0.0");
    assert_eq!(server.port, 50052);
    let storage = StorageConfig::default();
    assert_eq!(storage.address, "http://localhost:50051");
    assert_eq!(storage.connect_timeout_secs, 5);
    assert_eq!(storage.request_timeout_secs, 30);
    let cache = CacheConfig::default();
    assert_eq!(cache.max_events, 1000);
    assert_eq!(cache.max_heuristics, 50);
    assert_eq!(cache.novelty_threshold, s(0.7));
    assert_eq!(cache.heuristic_ttl_ms, 300_000);
    let salience = SalienceConfig::default();
    assert_eq!(salience.min_heuristic_confidence, s(0.5));
    assert_eq!(salience.baseline_novelty, s(0.1));
    assert_eq!(salience.unmatched_novelty_boost, s(0.4));
    assert_eq!(salience.min_heuristic_similarity, s(0.7));
    let refresh = RefreshConfig::default();
    assert_eq!(refresh.interval_secs, 5);
    assert_eq!(refresh.max_heuristics, 100);
}

#[test]
fn timeouts_are_durations_of_whole_seconds() {
    let storage = StorageConfig {
        address: String::new(),
        connect_timeout_secs: 7,
        request_timeout_secs: 45,
    };
    assert_eq!(storage.connect_timeout(), Duration::from_secs(7));
    assert_eq!(storage.request_timeout(), Duration::from_secs(45));
    assert_eq!(storage.request_timeout().as_secs(), 45);
    let refresh = RefreshConfig { interval_secs: 11, max_heuristics: 1 };
    assert_eq!(refresh.interval(), Duration::from_secs(11));
}
