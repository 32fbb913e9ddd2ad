//! Snapshot prefetching: where the ledger snapshot comes from, whether a
//! download succeeded, and whether the stored snapshot has the configured
//! SHA-256 digest. Copying and downloading are left to the caller.

use crate::config::AppConfig;
use crate::text::{has_prefix, hex_lower, lemma_hex_lower_len, push_hex_lower, str_eq, strip_prefix_repeated,
    strip_prefix_repeated_str, starts_with_str, trim, trim_str};
use sha2::{Digest, Sha256};
use vstd::prelude::*;
use vstd::string::*;

verus! {

/// Directory the snapshot is stored in.
pub const SNAPSHOT_DIR: &'static str = "./snapshots";

/// Path the snapshot is stored at.
pub const SNAPSHOT_PATH: &'static str = "./snapshots/snapshot-latest.tar.zst";

/// The scheme prefix of local snapshot sources.
pub open spec fn file_scheme() -> Seq<char> {
    "file://"@
}

/// Where the snapshot comes from.
#[derive(Debug, PartialEq, Eq)]
pub enum SnapshotSource {
    /// No snapshot URL is configured: nothing to fetch.
    Skip,
    /// Copy the file at this local path.
    LocalFile(String),
    /// Download from this URL.
    Remote(String),
}

/// A source as the specifications see it.
pub enum SourceView {
    /// Nothing to fetch.
    Skip,
    /// Copy from this local path.
    LocalFile(Seq<char>),
    /// Download from this URL.
    Remote(Seq<char>),
}

impl SnapshotSource {
    /// The source as the specifications see it.
    pub open spec fn spec(&self) -> SourceView {
        match self {
            SnapshotSource::Skip => SourceView::Skip,
            SnapshotSource::LocalFile(p) => SourceView::LocalFile(p@),
            SnapshotSource::Remote(u) => SourceView::Remote(u@),
        }
    }
}

/// The source for a configured snapshot URL.
pub open spec fn source_spec(url: Seq<char>) -> SourceView {
    let u = trim(url);
    if u.len() == 0 {
        SourceView::Skip
    } else if has_prefix(u, file_scheme()) {
        SourceView::LocalFile(strip_prefix_repeated(u, file_scheme()))
    } else {
        SourceView::Remote(u)
    }
}

/// Why a snapshot was rejected.
#[derive(Debug, PartialEq, Eq)]
pub enum SnapshotError {
    /// The download answered with this non-success HTTP status.
    DownloadStatus(u16),
    /// The snapshot's digest differs from the configured one (as configured).
    DigestMismatch { expected: String, actual: String },
}

/// Decides where the snapshot comes from: nothing when the trimmed URL is
/// empty, a local copy for `file://` URLs (every leading `file://` removed),
/// a download otherwise.
pub fn plan_snapshot(config: &AppConfig) -> (source: SnapshotSource)
    ensures
        source.spec() == source_spec(config.snapshot_url@),
{
    let url = trim_str(config.snapshot_url.as_str());
    if url.unicode_len() == 0 {
        SnapshotSource::Skip
    } else if starts_with_str(url, "file://") {
        SnapshotSource::LocalFile(String::from_str(strip_prefix_repeated_str(url, "file://")))
    } else {
        SnapshotSource::Remote(String::from_str(url))
    }
}

/// Accepts a download whose HTTP status is a success (2xx).
pub fn check_download_status(status: u16) -> (res: Result<(), SnapshotError>)
    ensures
        res is Ok <==> 200 <= status <= 299,
        res matches Err(e) ==> e == SnapshotError::DownloadStatus(status),
{
    if 200 <= status && status <= 299 {
        Ok(())
    } else {
        Err(SnapshotError::DownloadStatus(status))
    }
}

/// The digest a snapshot must have, trimmed, when one is configured and not blank.
pub open spec fn expected_digest_spec(config: crate::config::ConfigView) -> Option<Seq<char>> {
    match config.snapshot_sha256 {
        Some(e) => if trim(e).len() > 0 {
            Some(trim(e))
        } else {
            None
        },
        None => None,
    }
}

/// The digest the snapshot must have, or `None` when it is not checked.
pub fn expected_digest(config: &AppConfig) -> (expected: Option<String>)
    ensures
        match expected {
            Some(e) => expected_digest_spec(config@) == Some(e@),
            None => expected_digest_spec(config@) is None,
        },
{
    match &config.snapshot_sha256 {
        Some(e) => {
            let t = trim_str(e.as_str());
            if t.unicode_len() > 0 {
                Some(String::from_str(t))
            } else {
                None
            }
        },
        None => None,
    }
}

/// Compares the snapshot's digest `actual` with the configured `expected`
/// one, ignoring white space around the configured value.
pub fn check_snapshot_digest(expected: &String, actual: &String) -> (res: Result<(), SnapshotError>)
    ensures
        res is Ok <==> trim(expected@) == actual@,
        res matches Err(e) ==> e matches SnapshotError::DigestMismatch { expected: x, actual: a }
            && x@ == expected@ && a@ == actual@,
{
    if str_eq(trim_str(expected.as_str()), actual.as_str()) {
        Ok(())
    } else {
        Err(SnapshotError::DigestMismatch { expected: expected.clone(), actual: actual.clone() })
    }
}

/// Holds a `sha2::Sha256` hasher. Its state is not visible to the
/// specifications: the functions below describe it through the data it has
/// absorbed.
#[verifier::external_body]
struct Sha256Hasher {
    inner: Sha256,
}

/// The SHA-256 digest of `data`, as the `sha2` crate computes it.
pub uninterp spec fn sha256(data: Seq<u8>) -> Seq<u8>;

/// A SHA-256 computation over data handed in piece by piece; its view is the
/// data absorbed so far.
pub struct SnapshotDigest {
    hasher: Sha256Hasher,
    absorbed: Ghost<Seq<u8>>,
}

impl View for SnapshotDigest {
    type V = Seq<u8>;

    closed spec fn view(&self) -> Seq<u8> {
        self.absorbed@
    }
}

/// `Sha256::new`: a hasher that has absorbed nothing.
#[verifier::external_body]
fn sha256_start() -> (d: SnapshotDigest)
    ensures
        d@ == Seq::<u8>::empty(),
{
    SnapshotDigest { hasher: Sha256Hasher { inner: Sha256::new() }, absorbed: Ghost(Seq::empty()) }
}

/// `Digest::update`: the hasher absorbs `chunk` after what it holds.
#[verifier::external_body]
fn sha256_absorb(d: &mut SnapshotDigest, chunk: &[u8])
    ensures
        final(d)@ == old(d)@ + chunk@,
{
    d.hasher.inner.update(chunk)
}

/// `Digest::finalize`: the 32-byte digest of everything absorbed.
#[verifier::external_body]
fn sha256_finish(d: SnapshotDigest) -> (digest: [u8; 32])
    ensures
        digest@ == sha256(d@),
{
    d.hasher.inner.finalize().into()
}

impl SnapshotDigest {
    /// A digest over no data yet.
    pub fn new() -> (d: SnapshotDigest)
        ensures
            d@ == Seq::<u8>::empty(),
    {
        sha256_start()
    }

    /// Feeds `chunk` after the data fed so far.
    pub fn update(&mut self, chunk: &[u8])
        ensures
            final(self)@ == old(self)@ + chunk@,
    {
        sha256_absorb(self, chunk)
    }

    /// The digest of all data fed, in lower-case hex.
    pub fn finish_hex(self) -> (hex: String)
        ensures
            hex@ == hex_lower(sha256(self@)),
            hex@.len() == 64,
    {
        let digest = sha256_finish(self);
        let mut hex = String::new();
        push_hex_lower(&mut hex, &digest);
        proof {
            lemma_hex_lower_len(digest@);
            assert(hex@ =~= hex_lower(digest@));
        }
        hex
    }
}

/// The SHA-256 digest of `data` in lower-case hex.
pub fn sha256_hex(data: &[u8]) -> (hex: String)
    ensures
        hex@ == hex_lower(sha256(data@)),
        hex@.len() == 64,
{
    let mut d = SnapshotDigest::new();
    d.update(data);
    assert(d@ =~= data@);
    d.finish_hex()
}

/// `p` repeated `k` times.
pub open spec fn repeated(p: Seq<char>, k: nat) -> Seq<char>
    decreases k,
{
    if k == 0 {
        Seq::empty()
    } else {
        p + repeated(p, (k - 1) as nat)
    }
}

proof fn lemma_strip_prefix_repeated(s: Seq<char>, p: Seq<char>)
    requires
        p.len() > 0,
    ensures
        !has_prefix(strip_prefix_repeated(s, p), p),
        exists|k: nat| s == repeated(p, k) + strip_prefix_repeated(s, p) && (has_prefix(s, p) ==> k >= 1),
    decreases s.len(),
{
    if has_prefix(s, p) {
        let rest = s.subrange(p.len() as int, s.len() as int);
        lemma_strip_prefix_repeated(rest, p);
        let k = choose|k: nat| rest == repeated(p, k) + strip_prefix_repeated(rest, p) && (has_prefix(rest, p) ==> k >= 1);
        assert(repeated(p, k + 1) == p + repeated(p, k));
        assert(s =~= p + rest);
        assert(s =~= repeated(p, k + 1) + strip_prefix_repeated(s, p));
    } else {
        assert(s =~= repeated(p, 0) + s);
    }
}

/// Where the snapshot comes from, for every configured URL: nothing exactly
/// when the trimmed URL is empty; a URL (trimmed) without the `file://`
/// scheme is downloaded as it stands; a `file://` URL is copied from the path
/// that follows its leading `file://` prefixes, which itself does not begin
/// with `file://`.
pub proof fn law_snapshot_source(url: Seq<char>)
    ensures
        (source_spec(url) == SourceView::Skip) <==> trim(url).len() == 0,
        trim(url).len() > 0 && !has_prefix(trim(url), file_scheme()) ==> source_spec(url)
            == SourceView::Remote(trim(url)),
        trim(url).len() > 0 && has_prefix(trim(url), file_scheme()) ==> (source_spec(url) matches SourceView::LocalFile(
            path,
        ) && !has_prefix(path, file_scheme()) && exists|k: nat|
            k >= 1 && trim(url) == #[trigger] repeated(file_scheme(), k) + path),
{
    reveal_strlit("file://");
    let u = trim(url);
    if u.len() > 0 && has_prefix(u, file_scheme()) {
        lemma_strip_prefix_repeated(u, file_scheme());
        let path = strip_prefix_repeated(u, file_scheme());
        let k = choose|k: nat| u == repeated(file_scheme(), k) + path && (has_prefix(u, file_scheme()) ==> k >= 1);
        assert(source_spec(url) == SourceView::LocalFile(path));
    }
}

/// The digest a snapshot is checked against is the whole configured value,
/// trimmed, whenever one is configured and not blank; with none, or a blank
/// one, nothing is checked.
pub proof fn law_expected_digest_is_whole_value(config: crate::config::ConfigView)
    ensures
        config.snapshot_sha256 matches Some(e) ==> (trim(e).len() > 0 ==> expected_digest_spec(
            config,
        ) == Some(trim(e))),
        config.snapshot_sha256 matches Some(e) ==> (trim(e).len() == 0 ==> expected_digest_spec(
            config,
        ) is None),
        config.snapshot_sha256 is None ==> expected_digest_spec(config) is None,
{
}

} // verus!
