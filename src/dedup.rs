use vstd::prelude::*;

use moka::sync::Cache;

use crate::types::OrderId;

verus! {

/// Orders kept for deduplication at most.
pub const ORDER_DEDUP_CACHE_SIZE: u64 = 5000;

/// Seconds an order stays in the deduplication cache.
pub const ORDER_DEDUP_TTL_SECS: u64 = 3600;

#[verifier::external_type_specification]
#[verifier::external_body]
#[verifier::reject_recursive_types(K)]
#[verifier::reject_recursive_types(V)]
#[verifier::reject_recursive_types(S)]
pub struct ExCache<K, V, S>(Cache<K, V, S>);

/// The identities ever inserted into the cache. The cache holds at most these:
/// entries may expire or be evicted, but none appears that was not inserted.
pub uninterp spec fn cache_keys(c: Cache<OrderId, ()>) -> Set<OrderId>;

/// The entry bound that the cache was built with (moka's `max_capacity`).
pub uninterp spec fn cache_max_capacity(c: Cache<OrderId, ()>) -> Option<u64>;

/// The time to live, in seconds, that the cache was built with (moka's
/// `time_to_live`).
pub uninterp spec fn cache_ttl_secs(c: Cache<OrderId, ()>) -> Option<u64>;

/// Relies on moka's `CacheBuilder` (`max_capacity`, `time_to_live`, `build`): a
/// new, empty cache of at most `ORDER_DEDUP_CACHE_SIZE` entries, each expiring
/// `ORDER_DEDUP_TTL_SECS` after insertion (well below the thousand-year limit
/// that `build` asserts).
#[verifier::external_body]
fn build_cache() -> (r: Cache<OrderId, ()>)
    ensures
        cache_keys(r) == Set::<OrderId>::empty(),
        cache_max_capacity(r) == Some(ORDER_DEDUP_CACHE_SIZE),
        cache_ttl_secs(r) == Some(ORDER_DEDUP_TTL_SECS),
{
    Cache::builder()
        .max_capacity(ORDER_DEDUP_CACHE_SIZE)
        .time_to_live(std::time::Duration::from_secs(ORDER_DEDUP_TTL_SECS))
        .build()
}

/// Relies on moka's `Cache::contains_key`: it reports a key only if it was
/// inserted before. Expiry and eviction may make it forget one, so a `false`
/// says nothing.
#[verifier::external_body]
fn cache_contains(cache: &Cache<OrderId, ()>, id: &OrderId) -> (r: bool)
    ensures
        r ==> cache_keys(*cache).contains(*id),
{
    cache.contains_key(id)
}

/// Relies on moka's `Cache::insert`, which records `id`; the cache's bound and
/// time to live are unchanged.
#[verifier::external_body]
fn cache_insert(cache: &mut Cache<OrderId, ()>, id: OrderId)
    ensures
        cache_keys(*final(cache)) == cache_keys(*old(cache)).insert(id),
        cache_max_capacity(*final(cache)) == cache_max_capacity(*old(cache)),
        cache_ttl_secs(*final(cache)) == cache_ttl_secs(*old(cache)),
{
    cache.insert(id, ())
}

/// The cache of order identities recently taken up for pricing. It is not
/// `Clone`, so only its owner can write to it.
pub struct OrderCache {
    inner: Cache<OrderId, ()>,
}

impl OrderCache {
    /// The identities ever remembered.
    pub closed spec fn spec_remembered(&self) -> Set<OrderId> {
        cache_keys(self.inner)
    }

    /// The entry bound of the cache.
    pub closed spec fn spec_max_capacity(&self) -> Option<u64> {
        cache_max_capacity(self.inner)
    }

    /// The time to live of an entry, in seconds.
    pub closed spec fn spec_ttl_secs(&self) -> Option<u64> {
        cache_ttl_secs(self.inner)
    }

    /// An empty cache of up to `ORDER_DEDUP_CACHE_SIZE` identities, each kept
    /// for `ORDER_DEDUP_TTL_SECS` seconds.
    pub fn new() -> (r: Self)
        ensures
            r.spec_remembered() == Set::<OrderId>::empty(),
            r.spec_max_capacity() == Some(ORDER_DEDUP_CACHE_SIZE),
            r.spec_ttl_secs() == Some(ORDER_DEDUP_TTL_SECS),
    {
        OrderCache { inner: build_cache() }
    }

    /// Whether `id` was taken up recently; only a remembered identity is
    /// reported.
    pub fn seen(&self, id: &OrderId) -> (r: bool)
        ensures
            r ==> self.spec_remembered().contains(*id),
    {
        cache_contains(&self.inner, id)
    }

    /// Records that `id` is taken up now.
    pub fn remember(&mut self, id: OrderId)
        ensures
            final(self).spec_remembered() == old(self).spec_remembered().insert(id),
            final(self).spec_max_capacity() == old(self).spec_max_capacity(),
            final(self).spec_ttl_secs() == old(self).spec_ttl_secs(),
    {
        cache_insert(&mut self.inner, id)
    }
}

} // verus!
