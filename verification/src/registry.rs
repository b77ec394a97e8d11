//! Trusted interface to the bounded, time-expiring cache that backs the
//! instance registry.
//!
//! The registry maps a worker handle's identifier to the slot index of the
//! live instance behind it. The cache's contents are named by the
//! uninterpreted functions below; every wrapper states over those names what
//! the cache's source shows. Entries may expire by time-to-live inside any
//! call that prunes (`insert`, `get`, `iter`), so those wrappers promise only
//! that the surviving contents are a submap of what was there before.

use vstd::prelude::*;

verus! {

/// Declares `lru_time_cache::LruCache`, the bounded cache with per-entry
/// time-to-live that holds the registry's entries.
#[verifier::external_type_specification]
#[verifier::external_body]
#[verifier::reject_recursive_types(Key)]
#[verifier::reject_recursive_types(Value)]
pub struct ExLruCache<Key, Value>(lru_time_cache::LruCache<Key, Value>);

/// The cache type that backs the registry: handle identifier to slot index.
pub type LruRegistry = lru_time_cache::LruCache<u64, u64>;

/// The key-value pairs currently stored in the cache, expired-but-unpruned
/// entries included.
pub uninterp spec fn cache_contents(c: LruRegistry) -> Map<u64, u64>;

/// The capacity bound the cache was constructed with.
pub uninterp spec fn cache_capacity(c: LruRegistry) -> nat;

/// Relies on `lru_time_cache::LruCache::with_expiry_duration_and_capacity`:
/// the new cache starts with an empty map and the given capacity.
#[verifier::external_body]
pub(crate) fn cache_new(ttl_secs: u64, capacity: usize) -> (r: LruRegistry)
    ensures
        cache_contents(r).dom().finite(),
        forall|k: u64| !cache_contents(r).dom().contains(k),
        cache_capacity(r) == capacity as nat,
{
    lru_time_cache::LruCache::with_expiry_duration_and_capacity(
        core::time::Duration::from_secs(ttl_secs),
        capacity,
    )
}

/// Relies on `lru_time_cache::LruCache::insert`: expired entries are pruned,
/// then (after evicting least-recently-used entries if the key is new and the
/// map is at capacity) the pair is stored. The inserted pair is present
/// afterwards, nothing else was added, and a map that was within capacity
/// stays within capacity. A cache of capacity zero would abort inside the
/// eviction, so one is excluded.
#[verifier::external_body]
pub(crate) fn cache_insert(c: &mut LruRegistry, k: u64, v: u64)
    requires
        cache_capacity(*old(c)) >= 1,
    ensures
        cache_contents(*final(c)).contains_pair(k, v),
        cache_contents(*final(c)).submap_of(cache_contents(*old(c)).insert(k, v)),
        cache_contents(*final(c)).dom().finite(),
        cache_capacity(*final(c)) == cache_capacity(*old(c)),
        (cache_contents(*old(c)).dom().finite() && cache_contents(*old(c)).len() <= cache_capacity(
            *old(c),
        ) && cache_capacity(*old(c)) >= 1) ==> cache_contents(*final(c)).len() <= cache_capacity(*final(c)),
{
    let _ = c.insert(k, v);
}

/// Relies on `lru_time_cache::LruCache::remove`: the entry under the key is
/// removed from the backing map and returned; no expiry pruning happens on
/// this path, so the contract is exact.
#[verifier::external_body]
pub(crate) fn cache_remove(c: &mut LruRegistry, k: u64) -> (r: Option<u64>)
    ensures
        cache_contents(*final(c)) == cache_contents(*old(c)).remove(k),
        match r {
            Some(v) => cache_contents(*old(c)).contains_pair(k, v),
            None => !cache_contents(*old(c)).dom().contains(k),
        },
        cache_capacity(*final(c)) == cache_capacity(*old(c)),
{
    c.remove(&k)
}

/// Relies on `lru_time_cache::LruCache::get`: expired entries are pruned
/// first, then the key is looked up in what remains. A hit was stored before
/// the call and is still stored after it; a miss means the key is absent
/// afterwards.
#[verifier::external_body]
pub(crate) fn cache_get(c: &mut LruRegistry, k: u64) -> (r: Option<u64>)
    ensures
        cache_contents(*final(c)).submap_of(cache_contents(*old(c))),
        match r {
            Some(v) => cache_contents(*old(c)).contains_pair(k, v) && cache_contents(
                *final(c),
            ).contains_pair(k, v),
            None => !cache_contents(*final(c)).dom().contains(k),
        },
        cache_capacity(*final(c)) == cache_capacity(*old(c)),
{
    c.get(&k).cloned()
}

/// Relies on `lru_time_cache::LruCache::iter`: expired entries are pruned
/// first, and the iterator yields each surviving key exactly once (pruning
/// any that expire while it runs), so the collected keys are exactly the
/// domain of the contents left behind.
#[verifier::external_body]
pub(crate) fn cache_keys(c: &mut LruRegistry) -> (r: Vec<u64>)
    ensures
        cache_contents(*final(c)).submap_of(cache_contents(*old(c))),
        r@.no_duplicates(),
        forall|i: int| 0 <= i < r@.len() ==> cache_contents(*final(c)).dom().contains(#[trigger] r@[i]),
        forall|k: u64| cache_contents(*final(c)).dom().contains(k) ==> r@.contains(k),
        cache_capacity(*final(c)) == cache_capacity(*old(c)),
{
    c.iter().map(|kv| *kv.0).collect()
}

} // verus!
