use solana_validator_optimizer::rpc_health::{RpcHealthReport, RpcProbes};

fn probes() -> RpcProbes {
    RpcProbes {
        health: Ok(()),
        health_latency_ms: 12,
        version: Ok("3.1.12".to_string()),
        version_latency_ms: 13,
        slot: Ok(42),
        slot_latency_ms: 14,
        latest_blockhash: Ok("HASH".to_string()),
        latest_blockhash_latency_ms: 15,
    }
}

#[test]
fn healthy_endpoint_has_no_warnings() {
    let r = RpcHealthReport::from_probes("http://node", probes());
    assert_eq!(r.endpoint, "http://node");
    assert!(r.healthy);
    assert_eq!(r.health_status, "ok");
    assert_eq!(r.solana_version.as_deref(), Some("3.1.12"));
    assert_eq!(r.slot, Some(42));
    assert_eq!(r.latest_blockhash.as_deref(), Some("HASH"));
    assert_eq!(r.get_health_latency_ms, 12);
    assert_eq!(r.get_version_latency_ms, Some(13));
    assert_eq!(r.get_slot_latency_ms, Some(14));
    assert_eq!(r.get_latest_blockhash_latency_ms, Some(15));
    assert!(r.warnings.is_empty());
}

#[test]
fn failures_and_slow_calls_are_warned_in_order() {
    let mut p = probes();
    p.health = Err("node is behind".to_string());
    p.slot = Err("timeout".to_string());
    p.health_latency_ms = 1_001;
    p.latest_blockhash_latency_ms = 2_500;
    p.version_latency_ms = 1_000;
    let r = RpcHealthReport::from_probes("http://node", p);
    assert!(!r.healthy);
    assert_eq!(r.health_status, "unhealthy");
    assert_eq!(r.slot, None);
    assert_eq!(
        r.warnings,
        vec![
            "getHealth failed: node is behind".to_string(),
            "getSlot failed: timeout".to_string(),
            "getHealth latency is high: 1001 ms".to_string(),
            "getLatestBlockhash latency is high: 2500 ms".to_string(),
        ]
    );
}
