use solana_validator_optimizer::priority_fee::{advise_priority_fee, classify_fee};

#[test]
fn calculates_priority_fee_in_lamports() {
    let advice = advise_priority_fee(250_000, 1_000);
    assert_eq!(advice.estimated_priority_fee_lamports, 250);
}

#[test]
fn detects_zero_compute_units() {
    let advice = advise_priority_fee(0, 1_000);
    assert_eq!(advice.risk_level, "Invalid");
}

#[test]
fn detects_zero_priority_fee() {
    let advice = advise_priority_fee(250_000, 0);
    assert_eq!(advice.risk_level, "Low");
}

#[test]
fn fee_saturates_on_overflow() {
    let advice = advise_priority_fee(u64::MAX, 2);
    assert_eq!(advice.estimated_priority_fee_lamports, u64::MAX / 1_000_000);
    assert_eq!(advice.risk_level, "High");
}

#[test]
fn fee_tiers_at_their_bounds() {
    assert_eq!(classify_fee(1, 1, 99).0, "Low");
    assert_eq!(classify_fee(1, 1, 100).0, "Normal");
    assert_eq!(classify_fee(1, 1, 5_000).0, "Normal");
    assert_eq!(classify_fee(1, 1, 5_001).0, "Elevated");
    assert_eq!(classify_fee(1, 1, 50_000).0, "Elevated");
    assert_eq!(classify_fee(1, 1, 50_001).0, "High");
}

#[test]
fn recommendations_are_exact() {
    let (level, text) = classify_fee(0, 5, 0);
    assert_eq!(level, "Invalid");
    assert_eq!(text, "Compute units must be greater than zero.");
    let advice = advise_priority_fee(200_000, 10_000);
    assert_eq!(advice.estimated_priority_fee_lamports, 2_000);
    assert_eq!(advice.risk_level, "Normal");
    assert_eq!(
        advice.recommendation,
        "Priority fee appears reasonable for moderate load. Monitor transaction landing rate and RPC latency in production."
    );
    assert_eq!(advice.compute_units, 200_000);
    assert_eq!(advice.micro_lamports_per_compute_unit, 10_000);
}

#[test]
fn higher_price_is_never_judged_less_risky() {
    let ranks = ["Low", "Normal", "Elevated", "High"];
    let rank = |s: &str| ranks.iter().position(|r| *r == s).unwrap();
    let mut last = 0;
    for price in [0u64, 1, 100, 1_000, 10_000, 100_000, 1_000_000, 10_000_000] {
        let advice = advise_priority_fee(1_400_000, price);
        let r = rank(&advice.risk_level);
        assert!(r >= last);
        last = r;
    }
}
