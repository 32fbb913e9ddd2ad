use solana_validator_optimizer::config::AppConfig;
use solana_validator_optimizer::{help_summary, VERSION};

fn raw() -> AppConfig {
    AppConfig {
        snapshot_url: "  https://snap.example/latest.tar.zst \u{3000}".to_string(),
        snapshot_sha256: Some(" \t ".to_string()),
        rpc_url: " https://rpc.example ".to_string(),
        metrics_port: 0,
        cache_size: 0,
    }
}

#[test]
fn normalize_cleans_settings() {
    let mut c = raw();
    c.normalize();
    assert_eq!(c.snapshot_url, "https://snap.example/latest.tar.zst");
    assert_eq!(c.snapshot_sha256, None);
    assert_eq!(c.rpc_url, " https://rpc.example ");
    assert_eq!(c.metrics_port, 9090);
    assert_eq!(c.cache_size, 128);
}

#[test]
fn normalize_keeps_set_values() {
    let mut c = raw();
    c.snapshot_sha256 = Some(" abc ".to_string());
    c.metrics_port = 9100;
    c.cache_size = 7;
    c.normalize();
    assert_eq!(c.snapshot_sha256.as_deref(), Some(" abc "));
    assert_eq!(c.metrics_port, 9100);
    assert_eq!(c.cache_size, 7);
}

#[test]
fn normalize_is_idempotent() {
    let mut once = raw();
    once.snapshot_sha256 = Some("x".to_string());
    once.normalize();
    let mut twice = once.clone();
    twice.normalize();
    assert_eq!(once.snapshot_url, twice.snapshot_url);
    assert_eq!(once.snapshot_sha256, twice.snapshot_sha256);
    assert_eq!(once.metrics_port, twice.metrics_port);
    assert_eq!(once.cache_size, twice.cache_size);
}

#[test]
fn summary_and_version() {
    assert_eq!(
        help_summary(),
        "Optimizes Solana infrastructure performance using snapshot prefetching, RPC caching, RPC health diagnostics, and Prometheus metrics."
    );
    assert_eq!(VERSION, "2.1.2");
}
