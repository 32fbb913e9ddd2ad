//! The single-binary optimizer: its summary, its simulated RPC fetch used to
//! demonstrate the cache, and its snapshot naming and digest check, which
//! name the stored file after the URL and compare digests exactly.

use crate::rpc_cache::{cache_wf, cached_response, spec_lookup, spec_store, CacheView, LookupView, CACHE_TTL_MS};
use crate::text::{concat_str, str_eq};
use vstd::prelude::*;
use vstd::string::*;

verus! {

/// Version of the single-binary optimizer.
pub const VERSION: &'static str = "1.1.0";

/// The text that [`help_summary`] returns.
pub open spec fn help_summary_text() -> Seq<char> {
    "Optimizes Solana validator performance using snapshot prefetching, RPC caching, and Prometheus metrics."@
}

/// Returns a summary description of what the single-binary optimizer provides.
pub fn help_summary() -> (summary: &'static str)
    ensures
        summary@ == help_summary_text(),
{
    "Optimizes Solana validator performance using snapshot prefetching, RPC caching, and Prometheus metrics."
}

/// The response the simulated upstream gives for `key`.
pub open spec fn simulated_text(key: Seq<char>) -> Seq<char> {
    "FreshData("@ + key + ")"@
}

/// The simulated upstream response for `key` (the caller adds the delay).
pub fn simulated_response(key: &str) -> (text: String)
    ensures
        text@ == simulated_text(key@),
{
    let mut text = concat_str("FreshData(", key);
    text.append(")");
    text
}

/// The part of `url` after its last `/` (all of it when there is none), as
/// `url.split('/').last()` gives it.
pub open spec fn last_segment(url: Seq<char>) -> Seq<char>
    decreases url.len(),
{
    if url.len() == 0 {
        url
    } else if url.last() == '/' {
        Seq::empty()
    } else {
        last_segment(url.drop_last()).push(url.last())
    }
}

/// The file name a downloaded snapshot is stored under: the last
/// `/`-separated segment of its URL.
pub fn snapshot_file_name(url: &str) -> (name: String)
    ensures
        name@ == last_segment(url@),
{
    let n = url.unicode_len();
    let mut start: usize = n;
    assert(url@.subrange(0, n as int) =~= url@);
    assert(url@ =~= url@ + url@.subrange(n as int, n as int));
    while start > 0 && url.get_char(start - 1) != '/'
        invariant
            n == url@.len(),
            start <= n,
            last_segment(url@) == last_segment(url@.subrange(0, start as int)) + url@.subrange(
                start as int,
                n as int,
            ),
        decreases start,
    {
        proof {
            let pre = url@.subrange(0, start as int);
            assert(pre.drop_last() =~= url@.subrange(0, start - 1));
            assert(url@.subrange(start - 1, n as int) =~= seq![pre.last()] + url@.subrange(
                start as int,
                n as int,
            ));
            assert(last_segment(pre) == last_segment(pre.drop_last()).push(pre.last()));
            assert(last_segment(url@) =~= last_segment(url@.subrange(0, start - 1))
                + url@.subrange(start - 1, n as int));
        }
        start = start - 1;
    }
    proof {
        let pre = url@.subrange(0, start as int);
        if start > 0 {
            assert(pre.last() == '/');
        }
        assert(last_segment(pre) =~= Seq::<char>::empty());
        assert(last_segment(url@) =~= url@.subrange(start as int, n as int));
    }
    String::from_str(url.substring_char(start, n))
}

/// Whether the snapshot's digest matches the configured one exactly.
pub fn digest_matches(expected: &String, actual: &String) -> (ok: bool)
    ensures
        ok == (expected@ == actual@),
{
    str_eq(expected.as_str(), actual.as_str())
}

/// With the simulated upstream, the first request for a key answers
/// `FreshData(key)`, and a repeat within the expiry time answers the cached
/// copy of it, without a further upstream call.
pub proof fn law_simulated_response_is_cached(v: CacheView, key: Seq<char>, stored_at: u64, now: u64)
    requires
        cache_wf(v),
        v.stats.requests < u64::MAX,
        stored_at + CACHE_TTL_MS <= u64::MAX,
        now < stored_at + CACHE_TTL_MS,
    ensures
        spec_lookup(spec_store(v, key, simulated_text(key), stored_at), key, now).1 == LookupView::Hit(
            cached_response(simulated_text(key)),
        ),
        spec_lookup(spec_store(v, key, simulated_text(key), stored_at), key, now).0.stats.upstream
            == v.stats.upstream,
{
    crate::rpc_cache::law_stored_response_is_served(v, key, simulated_text(key), stored_at, now);
}

/// The file name is the whole last segment of the URL: it holds no `/`, and
/// the URL is the name preceded by nothing or by text ending in `/`.
pub proof fn law_file_name_is_last_segment(url: Seq<char>)
    ensures
        forall|k: int| 0 <= k < last_segment(url).len() ==> #[trigger] last_segment(url)[k] != '/',
        exists|head: Seq<char>|
            url == head + last_segment(url) && (head.len() == 0 || head.last() == '/'),
    decreases url.len(),
{
    if url.len() == 0 {
        assert(url =~= Seq::<char>::empty() + last_segment(url));
    } else if url.last() == '/' {
        assert(url =~= url + last_segment(url));
    } else {
        law_file_name_is_last_segment(url.drop_last());
        let head = choose|head: Seq<char>|
            url.drop_last() == head + last_segment(url.drop_last()) && (head.len() == 0 || head.last() == '/');
        assert(last_segment(url) == last_segment(url.drop_last()).push(url.last()));
        assert(url =~= url.drop_last().push(url.last()));
        assert(url =~= head + last_segment(url));
        assert forall|k: int| 0 <= k < last_segment(url).len() implies #[trigger] last_segment(url)[k] != '/' by {
            if k < last_segment(url).len() - 1 {
                assert(last_segment(url)[k] == last_segment(url.drop_last())[k]);
            }
        }
    }
}

} // verus!
