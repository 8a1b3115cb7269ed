//! The collections behind a single-flight cache and the clock it reads.
//!
//! Everything in this module is trusted: each function makes one call into `dashmap`,
//! `quick_cache` or `std::time`, and its contract says what that call is relied on for.
//! The collections are handed over by exclusive reference wherever they change, so what a
//! collection holds is a function of the collection.
use dashmap::DashMap;
use quick_cache::sync::{Cache, DefaultLifecycle};
use quick_cache::{DefaultHashBuilder, UnitWeighter};
use std::time::Instant;
use vstd::prelude::*;

verus! {

/// `dashmap::DashMap`, opaque.
#[verifier::external_type_specification]
#[verifier::external_body]
#[verifier::reject_recursive_types(K)]
#[verifier::reject_recursive_types(V)]
#[verifier::reject_recursive_types(S)]
pub struct ExDashMap<K, V, S>(DashMap<K, V, S>);

/// `quick_cache::sync::Cache`, opaque.
#[verifier::external_type_specification]
#[verifier::external_body]
#[verifier::reject_recursive_types(Key)]
#[verifier::reject_recursive_types(Val)]
#[verifier::reject_recursive_types(We)]
#[verifier::reject_recursive_types(B)]
#[verifier::reject_recursive_types(L)]
pub struct ExCache<Key, Val, We, B, L>(Cache<Key, Val, We, B, L>);

/// `quick_cache::UnitWeighter`, which weighs every item as one.
#[verifier::external_type_specification]
#[verifier::external_body]
pub struct ExUnitWeighter(UnitWeighter);

/// `quick_cache::DefaultHashBuilder`, opaque.
#[verifier::external_type_specification]
#[verifier::external_body]
pub struct ExDefaultHashBuilder(DefaultHashBuilder);

/// `quick_cache::sync::DefaultLifecycle`, which pins no item.
#[verifier::external_type_specification]
#[verifier::external_body]
#[verifier::reject_recursive_types(Key)]
#[verifier::reject_recursive_types(Val)]
pub struct ExDefaultLifecycle<Key, Val>(DefaultLifecycle<Key, Val>);

/// `std::time::Instant`, opaque.
#[verifier::external_type_specification]
#[verifier::external_body]
pub struct ExInstant(Instant);

/// What a map of creation times holds.
pub uninterp spec fn latest_contents(m: DashMap<u64, u128>) -> Map<u64, u128>;

/// The items that are resident in a cache.
pub uninterp spec fn cache_contents(c: Cache<(u64, u128), u64>) -> Map<(u64, u128), u64>;

/// The number of items that a cache was made to hold.
pub uninterp spec fn cache_items_capacity(c: Cache<(u64, u128), u64>) -> nat;

/// The smallest number of items per shard that `quick_cache` aims for when it picks the number
/// of shards.
pub const MIN_SHARD_CAPACITY: usize = 32;

/// The number of items that fit into any one shard of a cache that was made to hold
/// `items_capacity` items. The number of shards depends on the machine, but it is lowered until
/// either one shard is left, which then holds them all, or each shard holds enough.
pub open spec fn shard_room(items_capacity: nat) -> nat {
    if items_capacity < MIN_SHARD_CAPACITY {
        items_capacity
    } else {
        MIN_SHARD_CAPACITY as nat
    }
}

/// `DashMap::new`: the new map is empty.
#[verifier::external_body]
pub(crate) fn latest_new() -> (m: DashMap<u64, u128>)
    ensures
        latest_contents(m).dom().is_empty(),
{
    DashMap::new()
}

/// `DashMap::get`: the value under `k`, where there is one.
#[verifier::external_body]
pub(crate) fn latest_get(m: &DashMap<u64, u128>, k: u64) -> (r: Option<u128>)
    ensures
        r == latest_contents(*m).get(k),
{
    m.get(&k).map(|entry| *entry.value())
}

/// `DashMap::insert`: `k` holds `created` afterwards, whatever it held before, and no other key
/// changes.
#[verifier::external_body]
pub(crate) fn latest_insert(m: &mut DashMap<u64, u128>, k: u64, created: u128)
    ensures
        latest_contents(*final(m)) == latest_contents(*old(m)).insert(k, created),
{
    m.insert(k, created);
}

/// `Cache::new`: the new cache is empty, and made to hold `items_capacity` items. `quick_cache`
/// promises the number only approximately; what is relied on is that the shards have room as
/// [`shard_room`] says.
#[verifier::external_body]
pub(crate) fn cache_new(items_capacity: usize) -> (c: Cache<(u64, u128), u64>)
    ensures
        cache_contents(c).dom().is_empty(),
        cache_items_capacity(c) == items_capacity,
{
    Cache::new(items_capacity)
}

/// `Cache::get`: the value under `k`, where the item is resident. Which items are resident does
/// not change.
#[verifier::external_body]
pub(crate) fn cache_get(c: &Cache<(u64, u128), u64>, k: (u64, u128)) -> (r: Option<u64>)
    ensures
        r == cache_contents(*c).get(k),
{
    c.get(&k)
}

/// `Cache::insert`: afterwards no key holds anything but what it held before, or `v` in the case
/// of `k`. Items may be evicted to make room, and under pressure the new item may itself be one
/// of them. Nothing is evicted while all the items together would fit into a single shard.
#[verifier::external_body]
pub(crate) fn cache_insert(c: &mut Cache<(u64, u128), u64>, k: (u64, u128), v: u64)
    ensures
        cache_contents(*final(c)).submap_of(cache_contents(*old(c)).insert(k, v)),
        cache_contents(*old(c)).len() < shard_room(cache_items_capacity(*old(c))) ==> cache_contents(
            *final(c),
        ) == cache_contents(*old(c)).insert(k, v),
        cache_items_capacity(*final(c)) == cache_items_capacity(*old(c)),
{
    c.insert(k, v)
}

/// `Cache::remove`: `k` is no longer resident, and no other item is touched.
#[verifier::external_body]
pub(crate) fn cache_remove(c: &mut Cache<(u64, u128), u64>, k: &(u64, u128))
    ensures
        cache_contents(*final(c)) == cache_contents(*old(c)).remove(*k),
        cache_items_capacity(*final(c)) == cache_items_capacity(*old(c)),
{
    c.remove(k);
}

/// `Instant::now`. Nothing is said of the moment that it returns.
#[verifier::external_body]
pub(crate) fn instant_now() -> (r: Instant) {
    Instant::now()
}

/// `Instant::elapsed`, in nanoseconds. Nothing is said of how much time has passed.
#[verifier::external_body]
pub(crate) fn nanos_since(origin: &Instant) -> (r: u128) {
    origin.elapsed().as_nanos()
}

} // verus!
