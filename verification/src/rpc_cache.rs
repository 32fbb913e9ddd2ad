//! The RPC response cache: a bounded least-recently-used cache (the `lru`
//! crate's `LruCache`) whose entries expire a fixed time after they were
//! stored, together with the request, hit, miss and upstream counters that
//! the metrics endpoint exports.
//!
//! A request is handled in two steps, so that no lock needs to be held while
//! the upstream RPC call is in flight: [`RpcCache::lookup`] answers from the
//! cache or reports a miss; after a miss [`RpcCache::plan_fetch`] decides the
//! upstream call (counting it when one is made), the caller makes it, and
//! hands the response to [`RpcCache::store`].

use crate::upstream::{plan_spec, plan_upstream, PlanView, UpstreamPlan};
use lru::LruCache;
use std::num::NonZeroUsize;
use vstd::prelude::*;
use vstd::string::*;

verus! {

/// How long a stored response is served from the cache, in milliseconds.
pub const CACHE_TTL_MS: u64 = 10_000;

#[verifier::external_type_specification]
#[verifier::external_body]
#[verifier::reject_recursive_types(K)]
#[verifier::reject_recursive_types(V)]
#[verifier::reject_recursive_types(S)]
pub struct ExLruCache<K, V, S>(LruCache<K, V, S>);

#[verifier::external_type_specification]
#[verifier::external_body]
pub struct ExDefaultHasher(lru::DefaultHasher);

/// One cache entry as the specifications see it: the request key, the
/// response text, and the time (in milliseconds) at which it expires.
pub type CacheEntry = (Seq<char>, (Seq<char>, u64));

/// The entries of an `LruCache`, most recently used first.
pub uninterp spec fn lru_entries(cache: LruCache<String, (String, u64)>) -> Seq<CacheEntry>;

/// The capacity an `LruCache` was created with.
pub uninterp spec fn lru_capacity(cache: LruCache<String, (String, u64)>) -> nat;

/// The position of `key` among `entries`, or -1 when it is absent.
pub open spec fn key_index(entries: Seq<CacheEntry>, key: Seq<char>) -> int {
    if exists|i: int| 0 <= i < entries.len() && (#[trigger] entries[i]).0 == key {
        choose|i: int| 0 <= i < entries.len() && (#[trigger] entries[i]).0 == key
    } else {
        -1
    }
}

/// No key occurs twice among `entries`.
pub open spec fn keys_distinct(entries: Seq<CacheEntry>) -> bool {
    forall|i: int, j: int|
        0 <= i < entries.len() && 0 <= j < entries.len() && i != j ==> (#[trigger] entries[i]).0
            != (#[trigger] entries[j]).0
}

/// `LruCache::new`: an empty cache that holds at most `capacity` entries.
#[verifier::external_body]
fn lru_new(capacity: usize) -> (cache: LruCache<String, (String, u64)>)
    requires
        capacity > 0,
    ensures
        lru_entries(cache) == Seq::<CacheEntry>::empty(),
        lru_capacity(cache) == capacity,
{
    LruCache::new(NonZeroUsize::new(capacity).unwrap())
}

/// `LruCache::get`: when `key` is present, hands out its value and moves the
/// entry to the most recently used position; otherwise changes nothing.
#[verifier::external_body]
fn lru_get(cache: &mut LruCache<String, (String, u64)>, key: &String) -> (found: Option<
    (String, u64),
>)
    ensures
        lru_capacity(*final(cache)) == lru_capacity(*old(cache)),
        ({
            let before = lru_entries(*old(cache));
            let i = key_index(before, key@);
            if i < 0 {
                &&& found is None
                &&& lru_entries(*final(cache)) == before
            } else {
                &&& found matches Some(v) && (v.0@, v.1) == before[i].1
                &&& lru_entries(*final(cache)) == seq![before[i]] + before.remove(i)
            }
        }),
{
    cache.get(key).cloned()
}

/// `LruCache::put`: stores `value` under `key` as the most recently used
/// entry. A present key has its value replaced (the old value is returned);
/// otherwise, in a full cache, the least recently used entry is evicted.
#[verifier::external_body]
fn lru_put(cache: &mut LruCache<String, (String, u64)>, key: String, value: (String, u64)) -> (old_value: Option<(String, u64)>)
    ensures
        lru_capacity(*final(cache)) == lru_capacity(*old(cache)),
        ({
            let before = lru_entries(*old(cache));
            let i = key_index(before, key@);
            let item = (key@, (value.0@, value.1));
            if i >= 0 {
                &&& old_value matches Some(v) && (v.0@, v.1) == before[i].1
                &&& lru_entries(*final(cache)) == seq![item] + before.remove(i)
            } else if before.len() == lru_capacity(*old(cache)) {
                &&& old_value is None
                &&& lru_entries(*final(cache)) == seq![item] + before.drop_last()
            } else {
                &&& old_value is None
                &&& lru_entries(*final(cache)) == seq![item] + before
            }
        }),
{
    cache.put(key, value)
}

/// Counters of the requests the cache has handled.
#[derive(Clone, Copy, Debug, PartialEq, Eq)]
pub struct CacheStats {
    /// Requests handled, served from the cache or not.
    pub requests: u64,
    /// Requests answered from the cache.
    pub hits: u64,
    /// Requests whose key was absent or expired.
    pub misses: u64,
    /// Calls made to the upstream RPC node.
    pub upstream: u64,
}

/// What the specifications see of an [`RpcCache`].
pub struct CacheView {
    /// The entries, most recently used first.
    pub entries: Seq<CacheEntry>,
    /// The most entries the cache holds.
    pub capacity: nat,
    /// The request counters.
    pub stats: CacheStats,
}

/// The counters are consistent: every request was a hit or a miss, and
/// upstream calls were made only for misses, at most one per miss.
pub open spec fn stats_consistent(s: CacheStats) -> bool {
    &&& s.requests == s.hits + s.misses
    &&& s.upstream <= s.misses
}

/// The invariant of the cache.
pub open spec fn cache_wf(v: CacheView) -> bool {
    &&& v.capacity > 0
    &&& v.entries.len() <= v.capacity
    &&& keys_distinct(v.entries)
    &&& stats_consistent(v.stats)
}

/// The text returned for a request answered from the cache.
pub open spec fn cached_response(value: Seq<char>) -> Seq<char> {
    "(cached) "@ + value
}

/// `s` with the request and miss counters advanced.
pub open spec fn count_miss(s: CacheStats) -> CacheStats {
    CacheStats {
        requests: (s.requests + 1) as u64,
        hits: s.hits,
        misses: (s.misses + 1) as u64,
        upstream: s.upstream,
    }
}

/// Whether a plan makes a call to the node.
pub open spec fn calls_node(plan: PlanView) -> bool {
    plan matches PlanView::Balance(..) || plan matches PlanView::EpochInfo
}

/// The state after, and the plan of, deciding the upstream call for `key`:
/// the upstream counter rises exactly when the plan calls the node.
pub open spec fn spec_plan_fetch(v: CacheView, key: Seq<char>) -> (CacheView, PlanView) {
    let plan = plan_spec(key);
    let stats = if calls_node(plan) {
        CacheStats {
            requests: v.stats.requests,
            hits: v.stats.hits,
            misses: v.stats.misses,
            upstream: (v.stats.upstream + 1) as u64,
        }
    } else {
        v.stats
    };
    (CacheView { entries: v.entries, capacity: v.capacity, stats }, plan)
}

/// `s` with the request and hit counters advanced.
pub open spec fn count_hit(s: CacheStats) -> CacheStats {
    CacheStats {
        requests: (s.requests + 1) as u64,
        hits: (s.hits + 1) as u64,
        misses: s.misses,
        upstream: s.upstream,
    }
}

/// The outcome of a lookup as the specifications see it.
pub enum LookupView {
    /// Answered from the cache with this text.
    Hit(Seq<char>),
    /// The key is present but its entry has expired.
    Expired,
    /// The key is absent.
    Absent,
}

impl LookupView {
    /// The text the cache answers with, if it answers.
    pub open spec fn answer(self) -> Option<Seq<char>> {
        match self {
            LookupView::Hit(text) => Some(text),
            _ => None,
        }
    }
}

/// The state after, and the outcome of, a lookup of `key` at time `now`.
pub open spec fn spec_lookup(v: CacheView, key: Seq<char>, now: u64) -> (CacheView, LookupView) {
    let i = key_index(v.entries, key);
    if i < 0 {
        (CacheView { entries: v.entries, capacity: v.capacity, stats: count_miss(v.stats) }, LookupView::Absent)
    } else {
        let e = v.entries[i];
        let promoted = seq![e] + v.entries.remove(i);
        if now < e.1.1 {
            (
                CacheView { entries: promoted, capacity: v.capacity, stats: count_hit(v.stats) },
                LookupView::Hit(cached_response(e.1.0)),
            )
        } else {
            (CacheView { entries: promoted, capacity: v.capacity, stats: count_miss(v.stats) }, LookupView::Expired)
        }
    }
}

/// The entries after `key` is stored with `value`, expiring at `expires`.
pub open spec fn spec_put(entries: Seq<CacheEntry>, capacity: nat, key: Seq<char>, value: Seq<char>, expires: u64) -> Seq<CacheEntry> {
    let i = key_index(entries, key);
    let item = (key, (value, expires));
    if i >= 0 {
        seq![item] + entries.remove(i)
    } else if entries.len() == capacity {
        seq![item] + entries.drop_last()
    } else {
        seq![item] + entries
    }
}

/// The state after a value fetched at time `now` is stored under `key`.
pub open spec fn spec_store(v: CacheView, key: Seq<char>, value: Seq<char>, now: u64) -> CacheView {
    CacheView {
        entries: spec_put(v.entries, v.capacity, key, value, (now + CACHE_TTL_MS) as u64),
        capacity: v.capacity,
        stats: v.stats,
    }
}

/// The answer of [`RpcCache::lookup`].
#[derive(Debug, PartialEq, Eq)]
pub enum CacheLookup {
    /// The cache answered; the text is the response.
    Hit(String),
    /// The key's entry has expired: the value must be fetched upstream and stored.
    Expired,
    /// The key is absent: the value must be fetched upstream and stored.
    Miss,
}

impl CacheLookup {
    /// The outcome as the specifications see it.
    pub open spec fn spec(&self) -> LookupView {
        match self {
            CacheLookup::Hit(text) => LookupView::Hit(text@),
            CacheLookup::Expired => LookupView::Expired,
            CacheLookup::Miss => LookupView::Absent,
        }
    }
}

/// Why a cache could not be created.
#[derive(Debug, PartialEq, Eq)]
pub enum CacheError {
    /// The configured capacity is zero.
    ZeroCapacity,
}

/// A bounded LRU cache of RPC responses with per-entry expiry.
pub struct RpcCache {
    entries: LruCache<String, (String, u64)>,
    stats: CacheStats,
}

impl View for RpcCache {
    type V = CacheView;

    closed spec fn view(&self) -> CacheView {
        CacheView {
            entries: lru_entries(self.entries),
            capacity: lru_capacity(self.entries),
            stats: self.stats,
        }
    }
}

proof fn lemma_promote_keeps_distinct(entries: Seq<CacheEntry>, i: int)
    requires
        keys_distinct(entries),
        0 <= i < entries.len(),
    ensures
        keys_distinct(seq![entries[i]] + entries.remove(i)),
        (seq![entries[i]] + entries.remove(i)).len() == entries.len(),
{
    entries.remove_ensures(i);
    let p = seq![entries[i]] + entries.remove(i);
    assert forall|a: int, b: int| 0 <= a < p.len() && 0 <= b < p.len() && a != b implies (
    #[trigger] p[a]).0 != (#[trigger] p[b]).0 by {
        let ia = if a == 0 { i } else if a - 1 < i { a - 1 } else { a };
        let ib = if b == 0 { i } else if b - 1 < i { b - 1 } else { b };
        assert(p[a] == entries[ia]);
        assert(p[b] == entries[ib]);
    }
}

proof fn lemma_put_keeps_wf(entries: Seq<CacheEntry>, capacity: nat, key: Seq<char>, value: Seq<char>, expires: u64)
    requires
        capacity > 0,
        entries.len() <= capacity,
        keys_distinct(entries),
    ensures
        spec_put(entries, capacity, key, value, expires).len() <= capacity,
        keys_distinct(spec_put(entries, capacity, key, value, expires)),
        spec_put(entries, capacity, key, value, expires)[0] == (key, (value, expires)),
{
    let i = key_index(entries, key);
    let item = (key, (value, expires));
    let r = spec_put(entries, capacity, key, value, expires);
    if i >= 0 {
        entries.remove_ensures(i);
        assert forall|a: int, b: int| 0 <= a < r.len() && 0 <= b < r.len() && a != b implies (
        #[trigger] r[a]).0 != (#[trigger] r[b]).0 by {
            if a == 0 {
                let jb = if b - 1 < i { b - 1 } else { b };
                assert(r[b] == entries[jb]);
                assert(entries[i].0 == key);
            } else if b == 0 {
                let ja = if a - 1 < i { a - 1 } else { a };
                assert(r[a] == entries[ja]);
                assert(entries[i].0 == key);
            } else {
                let ja = if a - 1 < i { a - 1 } else { a };
                let jb = if b - 1 < i { b - 1 } else { b };
                assert(r[a] == entries[ja]);
                assert(r[b] == entries[jb]);
            }
        }
    } else {
        let rest = if entries.len() == capacity { entries.drop_last() } else { entries };
        assert(r == seq![item] + rest);
        assert forall|a: int, b: int| 0 <= a < r.len() && 0 <= b < r.len() && a != b implies (
        #[trigger] r[a]).0 != (#[trigger] r[b]).0 by {
            if a == 0 {
                assert(r[b] == entries[b - 1]);
            } else if b == 0 {
                assert(r[a] == entries[a - 1]);
            } else {
                assert(r[a] == entries[a - 1]);
                assert(r[b] == entries[b - 1]);
            }
        }
    }
}

impl RpcCache {
    /// The cache invariant holds.
    pub open spec fn wf(&self) -> bool {
        cache_wf(self@)
    }

    /// A cache for at most `capacity` responses; a capacity of zero is refused.
    pub fn new(capacity: usize) -> (res: Result<RpcCache, CacheError>)
        ensures
            capacity == 0 <==> res is Err,
            res matches Err(e) ==> e == CacheError::ZeroCapacity,
            res matches Ok(c) ==> {
                &&& c.wf()
                &&& c@.entries == Seq::<CacheEntry>::empty()
                &&& c@.capacity == capacity
                &&& c@.stats == CacheStats { requests: 0, hits: 0, misses: 0, upstream: 0 }
            },
    {
        if capacity == 0 {
            return Err(CacheError::ZeroCapacity);
        }
        let c = RpcCache {
            entries: lru_new(capacity),
            stats: CacheStats { requests: 0, hits: 0, misses: 0, upstream: 0 },
        };
        Ok(c)
    }

    /// The request counters.
    pub fn stats(&self) -> (s: CacheStats)
        ensures
            s == self@.stats,
    {
        self.stats
    }

    /// Whether another request can be counted.
    pub fn can_count_request(&self) -> (r: bool)
        ensures
            r == (self@.stats.requests < u64::MAX),
    {
        self.stats.requests < u64::MAX
    }

    /// Looks `key` up at time `now_ms`. A present entry becomes the most
    /// recently used one; if it has not expired (`now_ms` is before its expiry)
    /// the answer is its value marked as cached, otherwise it is reported
    /// expired. An absent key is reported missing. Expired and missing keys
    /// must be fetched upstream and stored. Every lookup counts one request,
    /// and one hit or one miss; it makes no upstream call.
    pub fn lookup(&mut self, key: &String, now_ms: u64) -> (out: CacheLookup)
        requires
            old(self).wf(),
            old(self)@.stats.requests < u64::MAX,
        ensures
            final(self).wf(),
            (final(self)@, out.spec()) == spec_lookup(old(self)@, key@, now_ms),
    {
        proof {
            let i = key_index(self@.entries, key@);
            if i >= 0 {
                lemma_promote_keeps_distinct(self@.entries, i);
            }
        }
        match lru_get(&mut self.entries, key) {
            Some(found) => {
                let (value, expires) = found;
                if now_ms < expires {
                    self.stats = CacheStats {
                        requests: self.stats.requests + 1,
                        hits: self.stats.hits + 1,
                        misses: self.stats.misses,
                        upstream: self.stats.upstream,
                    };
                    let mut text = String::from_str("(cached) ");
                    text.append(value.as_str());
                    CacheLookup::Hit(text)
                } else {
                    self.stats = CacheStats {
                        requests: self.stats.requests + 1,
                        hits: self.stats.hits,
                        misses: self.stats.misses + 1,
                        upstream: self.stats.upstream,
                    };
                    CacheLookup::Expired
                }
            },
            None => {
                self.stats = CacheStats {
                    requests: self.stats.requests + 1,
                    hits: self.stats.hits,
                    misses: self.stats.misses + 1,
                    upstream: self.stats.upstream,
                };
                CacheLookup::Miss
            },
        }
    }

    /// Whether fewer upstream calls have been counted than misses, so that
    /// another call may be counted (see [`RpcCache::plan_fetch`]).
    pub fn has_pending_miss(&self) -> (r: bool)
        ensures
            r == (self@.stats.upstream < self@.stats.misses),
    {
        self.stats.upstream < self.stats.misses
    }

    /// Restarts every counter from zero, keeping the entries (what a counter
    /// that has reached its largest value does next).
    pub fn reset_stats(&mut self)
        requires
            old(self).wf(),
        ensures
            final(self).wf(),
            final(self)@.entries == old(self)@.entries,
            final(self)@.capacity == old(self)@.capacity,
            final(self)@.stats == (CacheStats { requests: 0, hits: 0, misses: 0, upstream: 0 }),
    {
        self.stats = CacheStats { requests: 0, hits: 0, misses: 0, upstream: 0 };
    }

    /// Decides the upstream call for a missed `key` (see
    /// [`crate::upstream::plan_upstream`]) and counts one upstream call exactly
    /// when the plan calls the node (a balance or epoch-info query); keys
    /// answered without a call are not counted.
    pub fn plan_fetch(&mut self, key: &str) -> (plan: UpstreamPlan)
        requires
            old(self).wf(),
            old(self)@.stats.upstream < old(self)@.stats.misses,
        ensures
            final(self).wf(),
            (final(self)@, plan.spec()) == spec_plan_fetch(old(self)@, key@),
    {
        let plan = plan_upstream(key);
        match plan {
            UpstreamPlan::Respond(_) => {},
            _ => {
                self.stats = CacheStats {
                    requests: self.stats.requests,
                    hits: self.stats.hits,
                    misses: self.stats.misses,
                    upstream: self.stats.upstream + 1,
                };
            },
        }
        plan
    }

    /// Stores `value`, fetched at time `now_ms`, under `key` as the most
    /// recently used entry, expiring [`CACHE_TTL_MS`] later; a full cache
    /// evicts its least recently used entry. Returns `value` as the response.
    pub fn store(&mut self, key: String, value: String, now_ms: u64) -> (response: String)
        requires
            old(self).wf(),
            now_ms + CACHE_TTL_MS <= u64::MAX,
        ensures
            final(self).wf(),
            final(self)@ == spec_store(old(self)@, key@, value@, now_ms),
            response@ == value@,
    {
        proof {
            lemma_put_keeps_wf(self@.entries, self@.capacity, key@, value@, (now_ms + CACHE_TTL_MS) as u64);
        }
        let response = value.clone();
        let _ = lru_put(&mut self.entries, key, (value, now_ms + CACHE_TTL_MS));
        response
    }
}

/// The request keys that the cache warms up on each cycle.
pub open spec fn default_keys_spec() -> Seq<Seq<char>> {
    seq!["getBalance:9Vpj7yMy7V7ojAB8BoS5efZLTi3kWJv3bXWQ7vLxB4vG"@, "getEpochInfo"@]
}

/// The request keys that the cache warms up on each cycle: a balance query
/// for a fixed account and an epoch-info query.
pub fn default_keys() -> (keys: Vec<String>)
    ensures
        keys@.len() == 2,
        keys@[0]@ == default_keys_spec()[0],
        keys@[1]@ == default_keys_spec()[1],
{
    let mut keys: Vec<String> = Vec::new();
    keys.push(String::from_str("getBalance:9Vpj7yMy7V7ojAB8BoS5efZLTi3kWJv3bXWQ7vLxB4vG"));
    keys.push(String::from_str("getEpochInfo"));
    keys
}

proof fn lemma_front_key_index(entries: Seq<CacheEntry>, key: Seq<char>)
    requires
        keys_distinct(entries),
        entries.len() > 0,
        entries[0].0 == key,
    ensures
        key_index(entries, key) == 0,
{
    assert(0 <= 0 < entries.len() && entries[0].0 == key);
}

/// Read after write: a response stored at time `stored_at` (whatever its
/// text, an error message included) is answered from the cache, marked as
/// cached, by a lookup of the same key before it expires; that lookup counts
/// a hit and no upstream call.
pub proof fn law_stored_response_is_served(v: CacheView, key: Seq<char>, value: Seq<char>, stored_at: u64, now: u64)
    requires
        cache_wf(v),
        v.stats.requests < u64::MAX,
        stored_at + CACHE_TTL_MS <= u64::MAX,
        now < stored_at + CACHE_TTL_MS,
    ensures
        spec_lookup(spec_store(v, key, value, stored_at), key, now).1 == LookupView::Hit(cached_response(value)),
        spec_lookup(spec_store(v, key, value, stored_at), key, now).0.stats.upstream == v.stats.upstream,
        spec_lookup(spec_store(v, key, value, stored_at), key, now).0.stats.hits == v.stats.hits + 1,
{
    let exp = (stored_at + CACHE_TTL_MS) as u64;
    lemma_put_keeps_wf(v.entries, v.capacity, key, value, exp);
    lemma_front_key_index(spec_store(v, key, value, stored_at).entries, key);
}

/// Expiry: once its expiry time is reached, a stored response is no longer
/// served; the lookup reports it expired and counts a miss.
pub proof fn law_expired_response_is_refetched(v: CacheView, key: Seq<char>, value: Seq<char>, stored_at: u64, now: u64)
    requires
        cache_wf(v),
        v.stats.requests < u64::MAX,
        stored_at + CACHE_TTL_MS <= u64::MAX,
        stored_at + CACHE_TTL_MS <= now,
    ensures
        spec_lookup(spec_store(v, key, value, stored_at), key, now).1 == LookupView::Expired,
        spec_lookup(spec_store(v, key, value, stored_at), key, now).0.stats.misses == v.stats.misses + 1,
{
    let exp = (stored_at + CACHE_TTL_MS) as u64;
    lemma_put_keeps_wf(v.entries, v.capacity, key, value, exp);
    lemma_front_key_index(spec_store(v, key, value, stored_at).entries, key);
}

/// A key that was never stored, or was evicted, is a miss.
pub proof fn law_absent_key_is_miss(v: CacheView, key: Seq<char>, now: u64)
    requires
        cache_wf(v),
        forall|i: int| 0 <= i < v.entries.len() ==> (#[trigger] v.entries[i]).0 != key,
    ensures
        spec_lookup(v, key, now).1 == LookupView::Absent,
        spec_lookup(v, key, now).0.entries == v.entries,
{
}

/// Accounting: every lookup counts one request and exactly one of a hit or a
/// miss; a lookup never goes upstream; the counters stay consistent.
pub proof fn law_lookup_accounting(v: CacheView, key: Seq<char>, now: u64)
    requires
        cache_wf(v),
        v.stats.requests < u64::MAX,
    ensures
        ({
            let (w, answer) = spec_lookup(v, key, now);
            &&& w.stats.requests == v.stats.requests + 1
            &&& answer.answer() is Some ==> w.stats.hits == v.stats.hits + 1 && w.stats.misses == v.stats.misses
                && w.stats.upstream == v.stats.upstream
            &&& answer.answer() is None ==> w.stats.hits == v.stats.hits && w.stats.misses == v.stats.misses + 1
                && w.stats.upstream == v.stats.upstream
            &&& stats_consistent(w.stats)
        }),
{
}

/// Recency: a lookup that finds its key, fresh or expired, makes that entry
/// the most recently used one and keeps the number of entries.
pub proof fn law_lookup_promotes(v: CacheView, key: Seq<char>, now: u64)
    requires
        cache_wf(v),
        exists|i: int| 0 <= i < v.entries.len() && (#[trigger] v.entries[i]).0 == key,
    ensures
        spec_lookup(v, key, now).0.entries[0].0 == key,
        spec_lookup(v, key, now).0.entries.len() == v.entries.len(),
{
    let i = key_index(v.entries, key);
    lemma_promote_keeps_distinct(v.entries, i);
}

/// Bound and eviction: the cache never holds more than its capacity; storing
/// a new key into a full cache evicts exactly the least recently used entry
/// and keeps every other one, in order.
pub proof fn law_full_cache_evicts_least_recent(v: CacheView, key: Seq<char>, value: Seq<char>, stored_at: u64)
    requires
        cache_wf(v),
        stored_at + CACHE_TTL_MS <= u64::MAX,
    ensures
        cache_wf(spec_store(v, key, value, stored_at)),
        (forall|i: int| 0 <= i < v.entries.len() ==> (#[trigger] v.entries[i]).0 != key)
            && v.entries.len() == v.capacity ==> spec_store(v, key, value, stored_at).entries
            == seq![(key, (value, (stored_at + CACHE_TTL_MS) as u64))] + v.entries.drop_last(),
{
    let exp = (stored_at + CACHE_TTL_MS) as u64;
    lemma_put_keeps_wf(v.entries, v.capacity, key, value, exp);
}

/// Upstream accounting: deciding the call for a missed key counts one
/// upstream call exactly when a call to the node is made (a balance query for
/// a valid address, or an epoch-info query); unsupported keys and invalid
/// addresses, answered without a call, are not counted. The counters stay
/// consistent and nothing else changes.
pub proof fn law_upstream_counts_only_calls(v: CacheView, key: Seq<char>)
    requires
        cache_wf(v),
        v.stats.upstream < v.stats.misses,
    ensures
        ({
            let (w, plan) = spec_plan_fetch(v, key);
            &&& w.stats.upstream == v.stats.upstream + (if calls_node(plan) { 1int } else { 0 })
            &&& w.stats.requests == v.stats.requests
            &&& w.stats.hits == v.stats.hits
            &&& w.stats.misses == v.stats.misses
            &&& w.entries == v.entries
            &&& plan == plan_spec(key)
            &&& cache_wf(w)
        }),
{
}

/// A stored response lives ten seconds: a lookup of its key less than
/// 10,000 ms after it was stored is answered from the cache, and one 10,000
/// ms or more after it is not.
pub proof fn law_entries_live_ten_seconds(v: CacheView, key: Seq<char>, value: Seq<char>, stored_at: u64, now: u64)
    requires
        cache_wf(v),
        v.stats.requests < u64::MAX,
        stored_at + 10_000 <= u64::MAX,
    ensures
        now < stored_at + 10_000 ==> spec_lookup(spec_store(v, key, value, stored_at), key, now).1
            == LookupView::Hit(cached_response(value)),
        now >= stored_at + 10_000 ==> spec_lookup(spec_store(v, key, value, stored_at), key, now).1
            == LookupView::Expired,
{
    if now < stored_at + 10_000 {
        law_stored_response_is_served(v, key, value, stored_at, now);
    } else {
        law_expired_response_is_refetched(v, key, value, stored_at, now);
    }
}

} // verus!
