use solana_validator_optimizer::config::AppConfig;
use solana_validator_optimizer::snapshot::{
    check_download_status, check_snapshot_digest, expected_digest, plan_snapshot, sha256_hex,
    SnapshotDigest, SnapshotError, SnapshotSource,
};

fn config(url: &str, sha: Option<&str>) -> AppConfig {
    AppConfig {
        snapshot_url: url.to_string(),
        snapshot_sha256: sha.map(|s| s.to_string()),
        rpc_url: "https://api.mainnet-beta.solana.com".to_string(),
        metrics_port: 9090,
        cache_size: 128,
    }
}

#[test]
fn snapshot_sources() {
    assert_eq!(plan_snapshot(&config("   ", None)), SnapshotSource::Skip);
    assert_eq!(
        plan_snapshot(&config(" file:///data/snap.tar.zst ", None)),
        SnapshotSource::LocalFile("/data/snap.tar.zst".to_string())
    );
    assert_eq!(
        plan_snapshot(&config("file://file://x", None)),
        SnapshotSource::LocalFile("x".to_string())
    );
    assert_eq!(
        plan_snapshot(&config("https://snap.example/latest.tar.zst\n", None)),
        SnapshotSource::Remote("https://snap.example/latest.tar.zst".to_string())
    );
}

#[test]
fn download_status() {
    assert_eq!(check_download_status(200), Ok(()));
    assert_eq!(check_download_status(299), Ok(()));
    assert_eq!(check_download_status(404), Err(SnapshotError::DownloadStatus(404)));
    assert_eq!(check_download_status(199), Err(SnapshotError::DownloadStatus(199)));
}

#[test]
fn digest_expectation() {
    assert_eq!(expected_digest(&config("", None)), None);
    assert_eq!(expected_digest(&config("", Some("  \t"))), None);
    assert_eq!(expected_digest(&config("", Some(" ab12 "))), Some("ab12".to_string()));
}

#[test]
fn sha256_of_known_input() {
    assert_eq!(
        sha256_hex(b"abc"),
        "ba7816bf8f01cfea414140de5dae2223b00361a396177a9cb410ff61f20015ad"
    );
    assert_eq!(
        sha256_hex(b""),
        "e3b0c44298fc1c149afbf4c8996fb92427ae41e4649b934ca495991b7852b855"
    );
    let mut d = SnapshotDigest::new();
    d.update(b"a");
    d.update(b"bc");
    assert_eq!(d.finish_hex(), sha256_hex(b"abc"));
    assert_eq!(sha256_hex(&[7u8; 10_000]).len(), 64);
}

#[test]
fn digest_comparison() {
    let actual = sha256_hex(b"abc");
    let expected = format!("  {}\n", actual);
    assert_eq!(check_snapshot_digest(&expected, &actual), Ok(()));
    let wrong = "00".to_string();
    assert_eq!(
        check_snapshot_digest(&wrong, &actual),
        Err(SnapshotError::DigestMismatch { expected: wrong.clone(), actual: actual.clone() })
    );
}
