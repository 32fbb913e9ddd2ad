//! RPC endpoint health reports. The caller probes the endpoint
//! (`getHealth`, `getVersion`, `getSlot`, `getLatestBlockhash`) and times each
//! call; the report, with its verdict and warnings, is made from those results.

use crate::text::{concat_str, decimal, law_decimal_reads_back, push_decimal, writes_number};
use vstd::prelude::*;
use vstd::string::*;

verus! {

/// A call slower than this many milliseconds draws a warning.
pub const SLOW_CALL_MS: u128 = 1_000;

/// The outcomes and durations of the four probe calls against an endpoint.
#[derive(Debug)]
pub struct RpcProbes {
    /// Outcome of `getHealth` (the error's text on failure).
    pub health: Result<(), String>,
    /// Duration of `getHealth` in milliseconds.
    pub health_latency_ms: u128,
    /// Outcome of `getVersion`: the node's `solana-core` version.
    pub version: Result<String, String>,
    /// Duration of `getVersion` in milliseconds.
    pub version_latency_ms: u128,
    /// Outcome of `getSlot`.
    pub slot: Result<u64, String>,
    /// Duration of `getSlot` in milliseconds.
    pub slot_latency_ms: u128,
    /// Outcome of `getLatestBlockhash`: the hash in base58.
    pub latest_blockhash: Result<String, String>,
    /// Duration of `getLatestBlockhash` in milliseconds.
    pub latest_blockhash_latency_ms: u128,
}

/// The health report of an RPC endpoint.
#[derive(Debug, Clone)]
pub struct RpcHealthReport {
    pub endpoint: String,
    pub healthy: bool,
    pub health_status: String,
    pub solana_version: Option<String>,
    pub slot: Option<u64>,
    pub latest_blockhash: Option<String>,
    pub get_health_latency_ms: u128,
    pub get_version_latency_ms: Option<u128>,
    pub get_slot_latency_ms: Option<u128>,
    pub get_latest_blockhash_latency_ms: Option<u128>,
    pub warnings: Vec<String>,
}

/// The texts of a sequence of strings.
pub open spec fn texts(v: Seq<String>) -> Seq<Seq<char>> {
    v.map_values(|s: String| s@)
}

/// The error text of a failed outcome.
pub open spec fn failure_of<T>(outcome: Result<T, String>) -> Option<Seq<char>> {
    match outcome {
        Ok(_) => None,
        Err(e) => Some(e@),
    }
}

/// The warning for a failed call, if it failed.
pub open spec fn failure_warning(call: Seq<char>, failure: Option<Seq<char>>) -> Seq<Seq<char>> {
    match failure {
        Some(e) => seq![call + " failed: "@ + e],
        None => Seq::empty(),
    }
}

/// The warning for a slow call, if it was slow.
pub open spec fn latency_warning(call: Seq<char>, ms: u128) -> Seq<Seq<char>> {
    if ms > SLOW_CALL_MS {
        seq![call + " latency is high: "@ + decimal(ms as nat) + " ms"@]
    } else {
        Seq::empty()
    }
}

/// The warnings of a report: each failed call, in probe order, then each slow
/// call, in probe order.
pub open spec fn health_warnings(p: RpcProbes) -> Seq<Seq<char>> {
    failure_warning("getHealth"@, failure_of(p.health)) + failure_warning(
        "getVersion"@,
        failure_of(p.version),
    ) + failure_warning("getSlot"@, failure_of(p.slot)) + failure_warning(
        "getLatestBlockhash"@,
        failure_of(p.latest_blockhash),
    ) + latency_warning("getHealth"@, p.health_latency_ms) + latency_warning(
        "getVersion"@,
        p.version_latency_ms,
    ) + latency_warning("getSlot"@, p.slot_latency_ms) + latency_warning(
        "getLatestBlockhash"@,
        p.latest_blockhash_latency_ms,
    )
}

/// The value of a successful outcome.
pub open spec fn success_of<T>(outcome: Result<T, String>) -> Option<T> {
    match outcome {
        Ok(v) => Some(v),
        Err(_) => None,
    }
}

fn push_failure(warnings: &mut Vec<String>, call: &str, error: &String)
    ensures
        texts(final(warnings)@) == texts(old(warnings)@) + seq![call@ + " failed: "@ + error@],
{
    let mut w = concat_str(call, " failed: ");
    w.append(error.as_str());
    warnings.push(w);
    assert(texts(final(warnings)@) =~= texts(old(warnings)@) + seq![call@ + " failed: "@ + error@]);
}

fn push_latency(warnings: &mut Vec<String>, call: &str, ms: u128)
    ensures
        texts(final(warnings)@) == texts(old(warnings)@) + latency_warning(call@, ms),
{
    if ms > SLOW_CALL_MS {
        let mut w = concat_str(call, " latency is high: ");
        push_decimal(&mut w, ms);
        w.append(" ms");
        warnings.push(w);
        assert(texts(final(warnings)@) =~= texts(old(warnings)@) + latency_warning(call@, ms));
    } else {
        assert(texts(final(warnings)@) =~= texts(old(warnings)@) + latency_warning(call@, ms));
    }
}

impl RpcHealthReport {
    /// The report on `endpoint` from its probe results: healthy exactly when
    /// `getHealth` succeeded (status `ok`, else `unhealthy`); version, slot and
    /// blockhash when their calls succeeded; every duration; and the warnings
    /// of [`health_warnings`].
    pub fn from_probes(endpoint: &str, probes: RpcProbes) -> (report: RpcHealthReport)
        ensures
            report.endpoint@ == endpoint@,
            report.healthy == probes.health is Ok,
            report.health_status@ == (if probes.health is Ok { "ok"@ } else { "unhealthy"@ }),
            report.solana_version == success_of(probes.version),
            report.slot == success_of(probes.slot),
            report.latest_blockhash == success_of(probes.latest_blockhash),
            report.get_health_latency_ms == probes.health_latency_ms,
            report.get_version_latency_ms == Some(probes.version_latency_ms),
            report.get_slot_latency_ms == Some(probes.slot_latency_ms),
            report.get_latest_blockhash_latency_ms == Some(probes.latest_blockhash_latency_ms),
            texts(report.warnings@) == health_warnings(probes),
    {
        let ghost p = probes;
        let mut warnings: Vec<String> = Vec::new();
        assert(texts(warnings@) =~= Seq::<Seq<char>>::empty());
        let healthy = probes.health.is_ok();
        let health_status = if healthy {
            String::from_str("ok")
        } else {
            String::from_str("unhealthy")
        };
        match &probes.health {
            Ok(_) => {},
            Err(e) => push_failure(&mut warnings, "getHealth", e),
        }
        assert(texts(warnings@) =~= failure_warning("getHealth"@, failure_of(p.health)));
        let ghost w1 = texts(warnings@);
        match &probes.version {
            Ok(_) => {},
            Err(e) => push_failure(&mut warnings, "getVersion", e),
        }
        assert(texts(warnings@) =~= w1 + failure_warning("getVersion"@, failure_of(p.version)));
        let ghost w2 = texts(warnings@);
        match &probes.slot {
            Ok(_) => {},
            Err(e) => push_failure(&mut warnings, "getSlot", e),
        }
        assert(texts(warnings@) =~= w2 + failure_warning("getSlot"@, failure_of(p.slot)));
        let ghost w3 = texts(warnings@);
        match &probes.latest_blockhash {
            Ok(_) => {},
            Err(e) => push_failure(&mut warnings, "getLatestBlockhash", e),
        }
        assert(texts(warnings@) =~= w3 + failure_warning(
            "getLatestBlockhash"@,
            failure_of(p.latest_blockhash),
        ));
        push_latency(&mut warnings, "getHealth", probes.health_latency_ms);
        push_latency(&mut warnings, "getVersion", probes.version_latency_ms);
        push_latency(&mut warnings, "getSlot", probes.slot_latency_ms);
        push_latency(&mut warnings, "getLatestBlockhash", probes.latest_blockhash_latency_ms);
        let solana_version = match probes.version {
            Ok(v) => Some(v),
            Err(_) => None,
        };
        let slot = match probes.slot {
            Ok(s) => Some(s),
            Err(_) => None,
        };
        let latest_blockhash = match probes.latest_blockhash {
            Ok(h) => Some(h),
            Err(_) => None,
        };
        RpcHealthReport {
            endpoint: String::from_str(endpoint),
            healthy,
            health_status,
            solana_version,
            slot,
            latest_blockhash,
            get_health_latency_ms: probes.health_latency_ms,
            get_version_latency_ms: Some(probes.version_latency_ms),
            get_slot_latency_ms: Some(probes.slot_latency_ms),
            get_latest_blockhash_latency_ms: Some(probes.latest_blockhash_latency_ms),
            warnings,
        }
    }
}

/// An endpoint whose four calls all succeed, none slower than the
/// threshold, draws no warning.
pub proof fn law_clean_probes_draw_no_warning(p: RpcProbes)
    requires
        p.health is Ok,
        p.version is Ok,
        p.slot is Ok,
        p.latest_blockhash is Ok,
        p.health_latency_ms <= SLOW_CALL_MS,
        p.version_latency_ms <= SLOW_CALL_MS,
        p.slot_latency_ms <= SLOW_CALL_MS,
        p.latest_blockhash_latency_ms <= SLOW_CALL_MS,
    ensures
        health_warnings(p) == Seq::<Seq<char>>::empty(),
{
    assert(health_warnings(p) =~= Seq::<Seq<char>>::empty());
}

/// Each failed call draws exactly one failure warning and each slow call
/// exactly one latency warning: the number of warnings is the number of
/// failed calls plus the number of slow calls.
pub proof fn law_warning_count(p: RpcProbes)
    ensures
        health_warnings(p).len() == (if p.health is Err { 1int } else { 0 }) + (if p.version is Err {
            1int
        } else {
            0
        }) + (if p.slot is Err { 1int } else { 0 }) + (if p.latest_blockhash is Err {
            1int
        } else {
            0
        }) + (if p.health_latency_ms > SLOW_CALL_MS { 1int } else { 0 }) + (if p.version_latency_ms
            > SLOW_CALL_MS {
            1int
        } else {
            0
        }) + (if p.slot_latency_ms > SLOW_CALL_MS { 1int } else { 0 }) + (
        if p.latest_blockhash_latency_ms > SLOW_CALL_MS {
            1int
        } else {
            0
        }),
{
}

/// A latency warning is drawn exactly for a call slower than the threshold,
/// and it reports the call's whole duration: "<call> latency is high: <digits>
/// ms", the digits denoting exactly the measured milliseconds.
pub proof fn law_latency_warning_reports_duration(call: Seq<char>, ms: u128)
    ensures
        latency_warning(call, ms).len() == (if ms > SLOW_CALL_MS { 1int } else { 0 }),
        ms > SLOW_CALL_MS ==> exists|d: Seq<char>|
            latency_warning(call, ms)[0] == call + " latency is high: "@ + d + " ms"@
                && #[trigger] writes_number(d, ms as int),
{
    law_decimal_reads_back(ms as nat);
    assert(writes_number(decimal(ms as nat), ms as int));
}

} // verus!
