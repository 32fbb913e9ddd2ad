//! The optimizer's settings and the clean-up applied to them once they have
//! been read from `Config.toml` and the `OPTIMIZER_*` environment variables.

use crate::text::{lemma_trim_idempotent, trim, trim_str};
use vstd::prelude::*;
use vstd::string::*;

verus! {

/// Cache size used when the configured one is zero.
pub const DEFAULT_CACHE_SIZE: usize = 128;

/// Metrics port used when the configured one is zero.
pub const DEFAULT_METRICS_PORT: u16 = 9090;

/// The optimizer's settings.
#[derive(Debug, Clone)]
pub struct AppConfig {
    /// Where to fetch the ledger snapshot from (`http(s)://` or `file://`); empty to skip.
    pub snapshot_url: String,
    /// Expected SHA-256 of the snapshot, lower-case hex; `None` to skip the check.
    pub snapshot_sha256: Option<String>,
    /// The Solana RPC endpoint.
    pub rpc_url: String,
    /// Port of the Prometheus metrics endpoint.
    pub metrics_port: u16,
    /// Number of entries the RPC cache holds.
    pub cache_size: usize,
}

/// What the specifications see of an [`AppConfig`].
pub struct ConfigView {
    pub snapshot_url: Seq<char>,
    pub snapshot_sha256: Option<Seq<char>>,
    pub rpc_url: Seq<char>,
    pub metrics_port: u16,
    pub cache_size: usize,
}

impl View for AppConfig {
    type V = ConfigView;

    open spec fn view(&self) -> ConfigView {
        ConfigView {
            snapshot_url: self.snapshot_url@,
            snapshot_sha256: match self.snapshot_sha256 {
                Some(s) => Some(s@),
                None => None,
            },
            rpc_url: self.rpc_url@,
            metrics_port: self.metrics_port,
            cache_size: self.cache_size,
        }
    }
}

/// Whether a configured checksum is blank (empty or white space only).
pub open spec fn is_blank(s: Seq<char>) -> bool {
    trim(s).len() == 0
}

/// The settings after clean-up: a blank checksum counts as unset, the
/// snapshot URL loses surrounding white space, and a zero cache size or
/// metrics port is replaced by its default.
pub open spec fn normalized(c: ConfigView) -> ConfigView {
    ConfigView {
        snapshot_url: trim(c.snapshot_url),
        snapshot_sha256: match c.snapshot_sha256 {
            Some(s) => if is_blank(s) {
                None
            } else {
                Some(s)
            },
            None => None,
        },
        rpc_url: c.rpc_url,
        metrics_port: if c.metrics_port == 0 {
            DEFAULT_METRICS_PORT
        } else {
            c.metrics_port
        },
        cache_size: if c.cache_size == 0 {
            DEFAULT_CACHE_SIZE
        } else {
            c.cache_size
        },
    }
}

impl AppConfig {
    /// Cleans the settings up after they have been read (see [`normalized`]).
    pub fn normalize(&mut self)
        ensures
            final(self)@ == normalized(old(self)@),
    {
        let blank = match &self.snapshot_sha256 {
            Some(s) => trim_str(s.as_str()).unicode_len() == 0,
            None => false,
        };
        if blank {
            self.snapshot_sha256 = None;
        }
        let url = String::from_str(trim_str(self.snapshot_url.as_str()));
        self.snapshot_url = url;
        if self.cache_size == 0 {
            self.cache_size = DEFAULT_CACHE_SIZE;
        }
        if self.metrics_port == 0 {
            self.metrics_port = DEFAULT_METRICS_PORT;
        }
    }
}

/// Clean-up is idempotent: cleaning settings that were already cleaned
/// changes nothing.
pub proof fn law_normalize_idempotent(c: ConfigView)
    ensures
        normalized(normalized(c)) == normalized(c),
{
    lemma_trim_idempotent(c.snapshot_url);
    if let Some(s) = c.snapshot_sha256 {
        if !is_blank(s) {
            lemma_trim_idempotent(s);
        }
    }
}

/// Clean-up leaves no zero cache size or metrics port and no blank checksum.
pub proof fn law_normalized_settings_are_usable(c: ConfigView)
    ensures
        normalized(c).cache_size > 0,
        normalized(c).metrics_port > 0,
        normalized(c).snapshot_sha256 matches Some(s) ==> !is_blank(s),
{
}

/// Clean-up keeps every value that is set: a nonzero cache size or metrics
/// port, the RPC URL, and a checksum that is not blank stay as configured;
/// only surrounding white space leaves the snapshot URL.
pub proof fn law_normalize_keeps_set_values(c: ConfigView)
    ensures
        c.cache_size > 0 ==> normalized(c).cache_size == c.cache_size,
        c.metrics_port > 0 ==> normalized(c).metrics_port == c.metrics_port,
        normalized(c).rpc_url == c.rpc_url,
        c.snapshot_sha256 matches Some(s) ==> (trim(s).len() > 0 ==> normalized(
            c,
        ).snapshot_sha256 == Some(s)),
        normalized(c).snapshot_url == trim(c.snapshot_url),
{
}

} // verus!
