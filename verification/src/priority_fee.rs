//! Priority-fee advice: the fee a transaction pays for a compute-unit
//! budget at a given compute-unit price, and how that fee should be judged.
//!
//! The fee in SOL, a floating-point figure, is not part of this library's
//! advice; it is the lamport fee divided by 10^9.

use vstd::prelude::*;
use vstd::string::*;

verus! {

/// Micro-lamports in one lamport.
pub const MICRO_LAMPORTS_PER_LAMPORT: u64 = 1_000_000;

/// The estimated priority fee in lamports: compute units times the price in
/// micro-lamports per unit (saturating at `u64::MAX`), in whole lamports.
pub open spec fn estimated_fee(compute_units: u64, micro_lamports_per_compute_unit: u64) -> u64 {
    let product = compute_units * micro_lamports_per_compute_unit;
    let saturated = if product > u64::MAX { u64::MAX as int } else { product };
    (saturated / MICRO_LAMPORTS_PER_LAMPORT as int) as u64
}

pub open spec fn invalid_advice() -> (Seq<char>, Seq<char>) {
    ("Invalid"@, "Compute units must be greater than zero."@)
}

pub open spec fn unset_fee_advice() -> (Seq<char>, Seq<char>) {
    (
        "Low"@,
        "No priority fee is configured. This may be acceptable during low network activity but can reduce transaction landing reliability during congestion."@,
    )
}

pub open spec fn low_fee_advice() -> (Seq<char>, Seq<char>) {
    (
        "Low"@,
        "Priority fee is very low. Consider increasing compute unit price for production marketplace, reward, or high-frequency transaction flows."@,
    )
}

pub open spec fn normal_fee_advice() -> (Seq<char>, Seq<char>) {
    (
        "Normal"@,
        "Priority fee appears reasonable for moderate load. Monitor transaction landing rate and RPC latency in production."@,
    )
}

pub open spec fn elevated_fee_advice() -> (Seq<char>, Seq<char>) {
    (
        "Elevated"@,
        "Priority fee is elevated. This may improve landing probability during congestion but should be monitored for cost impact."@,
    )
}

pub open spec fn high_fee_advice() -> (Seq<char>, Seq<char>) {
    (
        "High"@,
        "Priority fee is high. Verify that this is intentional and justified by congestion, latency-sensitive flows, or high-value transactions."@,
    )
}

/// The risk tier of a configured, nonzero fee: 0 for below 100 lamports,
/// 1 up to 5,000, 2 up to 50,000, 3 above.
pub open spec fn fee_tier(fee_lamports: u64) -> nat {
    if fee_lamports < 100 {
        0
    } else if fee_lamports <= 5_000 {
        1
    } else if fee_lamports <= 50_000 {
        2
    } else {
        3
    }
}

/// Risk level and recommendation for a fee: zero compute units are invalid,
/// a zero price is an unset fee, otherwise the fee's tier decides.
pub open spec fn fee_class(compute_units: u64, micro_lamports_per_compute_unit: u64, fee_lamports: u64) -> (Seq<char>, Seq<char>) {
    if compute_units == 0 {
        invalid_advice()
    } else if micro_lamports_per_compute_unit == 0 {
        unset_fee_advice()
    } else if fee_tier(fee_lamports) == 0 {
        low_fee_advice()
    } else if fee_tier(fee_lamports) == 1 {
        normal_fee_advice()
    } else if fee_tier(fee_lamports) == 2 {
        elevated_fee_advice()
    } else {
        high_fee_advice()
    }
}

/// The rank of a risk level: `Low` 0, `Normal` 1, `Elevated` 2, `High` 3;
/// any other text (`Invalid`) 4.
pub open spec fn risk_rank(level: Seq<char>) -> nat {
    if level == "Low"@ {
        0
    } else if level == "Normal"@ {
        1
    } else if level == "Elevated"@ {
        2
    } else if level == "High"@ {
        3
    } else {
        4
    }
}

/// Advice on a priority fee.
#[derive(Debug, Clone)]
pub struct PriorityFeeAdvice {
    pub compute_units: u64,
    pub micro_lamports_per_compute_unit: u64,
    pub estimated_priority_fee_lamports: u64,
    pub risk_level: String,
    pub recommendation: String,
}

/// Risk level and recommendation for `estimated_priority_fee_lamports`,
/// charged for `compute_units` at `micro_lamports_per_compute_unit`.
pub fn classify_fee(compute_units: u64, micro_lamports_per_compute_unit: u64, estimated_priority_fee_lamports: u64) -> (advice: (String, String))
    ensures
        (advice.0@, advice.1@) == fee_class(compute_units, micro_lamports_per_compute_unit, estimated_priority_fee_lamports),
{
    if compute_units == 0 {
        return (
            String::from_str("Invalid"),
            String::from_str("Compute units must be greater than zero."),
        );
    }
    if micro_lamports_per_compute_unit == 0 {
        return (
            String::from_str("Low"),
            String::from_str(
                "No priority fee is configured. This may be acceptable during low network activity but can reduce transaction landing reliability during congestion.",
            ),
        );
    }
    if estimated_priority_fee_lamports < 100 {
        return (
            String::from_str("Low"),
            String::from_str(
                "Priority fee is very low. Consider increasing compute unit price for production marketplace, reward, or high-frequency transaction flows.",
            ),
        );
    }
    if estimated_priority_fee_lamports <= 5_000 {
        return (
            String::from_str("Normal"),
            String::from_str(
                "Priority fee appears reasonable for moderate load. Monitor transaction landing rate and RPC latency in production.",
            ),
        );
    }
    if estimated_priority_fee_lamports <= 50_000 {
        return (
            String::from_str("Elevated"),
            String::from_str(
                "Priority fee is elevated. This may improve landing probability during congestion but should be monitored for cost impact.",
            ),
        );
    }
    (
        String::from_str("High"),
        String::from_str(
            "Priority fee is high. Verify that this is intentional and justified by congestion, latency-sensitive flows, or high-value transactions.",
        ),
    )
}

/// Advice for `compute_units` at `micro_lamports_per_compute_unit`: the
/// estimated fee in lamports and its risk level and recommendation.
pub fn advise_priority_fee(compute_units: u64, micro_lamports_per_compute_unit: u64) -> (advice: PriorityFeeAdvice)
    ensures
        advice.compute_units == compute_units,
        advice.micro_lamports_per_compute_unit == micro_lamports_per_compute_unit,
        advice.estimated_priority_fee_lamports == estimated_fee(compute_units, micro_lamports_per_compute_unit),
        (advice.risk_level@, advice.recommendation@) == fee_class(
            compute_units,
            micro_lamports_per_compute_unit,
            estimated_fee(compute_units, micro_lamports_per_compute_unit),
        ),
{
    let product = match compute_units.checked_mul(micro_lamports_per_compute_unit) {
        Some(p) => p,
        None => u64::MAX,
    };
    let estimated_priority_fee_lamports = product / MICRO_LAMPORTS_PER_LAMPORT;
    let (risk_level, recommendation) = classify_fee(
        compute_units,
        micro_lamports_per_compute_unit,
        estimated_priority_fee_lamports,
    );
    PriorityFeeAdvice {
        compute_units,
        micro_lamports_per_compute_unit,
        estimated_priority_fee_lamports,
        risk_level,
        recommendation,
    }
}

/// The estimated fee never falls when the price or the compute units rise.
pub proof fn law_fee_monotone(cu1: u64, cu2: u64, price1: u64, price2: u64)
    requires
        cu1 <= cu2,
        price1 <= price2,
    ensures
        estimated_fee(cu1, price1) <= estimated_fee(cu2, price2),
{
    assert(cu1 * price1 <= cu2 * price2) by (nonlinear_arith)
        requires
            cu1 <= cu2,
            price1 <= price2,
            0 <= cu1,
            0 <= price1,
    ;
    let p1 = cu1 * price1;
    let p2 = cu2 * price2;
    let s1 = if p1 > u64::MAX { u64::MAX as int } else { p1 };
    let s2 = if p2 > u64::MAX { u64::MAX as int } else { p2 };
    assert(s1 <= s2);
    vstd::arithmetic::div_mod::lemma_div_is_ordered(s1, s2, MICRO_LAMPORTS_PER_LAMPORT as int);
}

proof fn lemma_rank_of_class(compute_units: u64, price: u64, fee: u64)
    requires
        compute_units > 0,
    ensures
        risk_rank(fee_class(compute_units, price, fee).0) == if price == 0 { 0 } else { fee_tier(fee) },
{
    reveal_strlit("Low");
    reveal_strlit("Normal");
    reveal_strlit("Elevated");
    reveal_strlit("High");
    assert("Low"@.len() == 3);
    assert("Normal"@.len() == 6);
    assert("Elevated"@.len() == 8);
    assert("High"@.len() == 4);
}

/// The risk level never falls as the fee rises, for a fixed positive budget:
/// a higher price is never judged less risky.
pub proof fn law_risk_monotone_in_price(compute_units: u64, price1: u64, price2: u64)
    requires
        compute_units > 0,
        price1 <= price2,
    ensures
        risk_rank(fee_class(compute_units, price1, estimated_fee(compute_units, price1)).0)
            <= risk_rank(fee_class(compute_units, price2, estimated_fee(compute_units, price2)).0),
{
    law_fee_monotone(compute_units, compute_units, price1, price2);
    lemma_rank_of_class(compute_units, price1, estimated_fee(compute_units, price1));
    lemma_rank_of_class(compute_units, price2, estimated_fee(compute_units, price2));
}

/// Zero compute units are invalid whatever the price; a positive budget at a
/// zero price costs nothing and is judged low.
pub proof fn law_edge_budgets(compute_units: u64, price: u64)
    ensures
        fee_class(0, price, estimated_fee(0, price)) == invalid_advice(),
        compute_units > 0 ==> estimated_fee(compute_units, 0) == 0 && fee_class(
            compute_units,
            0,
            estimated_fee(compute_units, 0),
        ) == unset_fee_advice(),
{
}

/// The estimated fee is the product of compute units and price converted
/// to whole lamports, rounding down: a million micro-lamports make one
/// lamport; a product beyond `u64::MAX` counts as `u64::MAX`.
pub proof fn law_fee_is_whole_lamports(compute_units: u64, price: u64)
    ensures
        compute_units * price <= u64::MAX ==> estimated_fee(compute_units, price) * 1_000_000
            <= compute_units * price < estimated_fee(compute_units, price) * 1_000_000 + 1_000_000,
        compute_units * price > u64::MAX ==> estimated_fee(compute_units, price) * 1_000_000
            <= u64::MAX < estimated_fee(compute_units, price) * 1_000_000 + 1_000_000,
{
}

/// The risk level of a positive budget at a positive price follows the fee:
/// `Low` below 100 lamports, `Normal` from 100 to 5,000, `Elevated` above
/// 5,000 up to 50,000, `High` above 50,000.
pub proof fn law_risk_level_bounds(compute_units: u64, price: u64, fee: u64)
    requires
        compute_units > 0,
        price > 0,
    ensures
        fee_class(compute_units, price, fee).0 == "Low"@ <==> fee < 100,
        fee_class(compute_units, price, fee).0 == "Normal"@ <==> 100 <= fee && fee <= 5_000,
        fee_class(compute_units, price, fee).0 == "Elevated"@ <==> 5_000 < fee && fee <= 50_000,
        fee_class(compute_units, price, fee).0 == "High"@ <==> 50_000 < fee,
{
    reveal_strlit("Low");
    reveal_strlit("Normal");
    reveal_strlit("Elevated");
    reveal_strlit("High");
    assert("Low"@.len() == 3);
    assert("Normal"@.len() == 6);
    assert("Elevated"@.len() == 8);
    assert("High"@.len() == 4);
    assert("Normal"@ != "High"@) by {
        assert("Normal"@[0] != "High"@[0]);
    }
}

} // verus!
