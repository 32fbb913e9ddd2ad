use solana_validator_optimizer::lite::{digest_matches, help_summary, simulated_response, snapshot_file_name};

#[test]
fn lite_summary() {
    assert_eq!(
        help_summary(),
        "Optimizes Solana validator performance using snapshot prefetching, RPC caching, and Prometheus metrics."
    );
}

#[test]
fn simulated_fetch() {
    assert_eq!(simulated_response("getBalance:Orly"), "FreshData(getBalance:Orly)");
}

#[test]
fn file_names_from_urls() {
    assert_eq!(snapshot_file_name("https://host/a/b/snap.tar.zst"), "snap.tar.zst");
    assert_eq!(snapshot_file_name("https://host/a/"), "");
    assert_eq!(snapshot_file_name("plain"), "plain");
}

#[test]
fn exact_digest_match() {
    assert!(digest_matches(&"ab".to_string(), &"ab".to_string()));
    assert!(!digest_matches(&" ab".to_string(), &"ab".to_string()));
}
