//! Tooling for Solana validator operators: RPC response caching with expiry,
//! RPC endpoint health reports, snapshot prefetch planning and integrity checks,
//! priority-fee advice and configuration normalisation.

use vstd::prelude::*;

pub mod config;
pub mod lite;
pub mod priority_fee;
pub mod rpc_cache;
pub mod rpc_health;
pub mod snapshot;
pub mod text;
pub mod upstream;

verus! {

/// Version of the optimizer library.
pub const VERSION: &'static str = "2.1.2";

/// The text that [`help_summary`] returns.
pub open spec fn help_summary_text() -> Seq<char> {
    "Optimizes Solana infrastructure performance using snapshot prefetching, RPC caching, RPC health diagnostics, and Prometheus metrics."@
}

/// A brief description of this optimizer's capabilities.
pub fn help_summary() -> (summary: &'static str)
    ensures
        summary@ == help_summary_text(),
{
    "Optimizes Solana infrastructure performance using snapshot prefetching, RPC caching, RPC health diagnostics, and Prometheus metrics."
}

} // verus!
