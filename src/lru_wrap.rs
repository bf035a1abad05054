//! The outside LRU map behind the lookup cache. Its contents are named as a
//! recency sequence (least recently used first) and a capacity; each method
//! the cache calls has one wrapper that states its effect over those names.
use crate::recency::{lookup, put_entry, touched, valid, without, Entry};
use lru::LruCache;
use vstd::prelude::*;

verus! {

#[verifier::external_type_specification]
#[verifier::external_body]
#[verifier::reject_recursive_types(K)]
#[verifier::reject_recursive_types(V)]
#[verifier::reject_recursive_types(S)]
pub struct ExLruCache<K, V, S>(LruCache<K, V, S>);

#[verifier::external_type_specification]
#[verifier::external_body]
pub struct ExDefaultHasher(lru::DefaultHasher);

/// The entries of an LRU map, from the least to the most recently used.
pub uninterp spec fn lru_entries(c: LruCache<String, String>) -> Seq<Entry>;

/// The capacity an LRU map was created with.
pub uninterp spec fn lru_capacity(c: LruCache<String, String>) -> nat;

/// Relies on `lru::LruCache::new`: an empty map holding at most `cap` entries.
#[verifier::external_body]
pub(crate) fn lru_new(cap: usize) -> (c: LruCache<String, String>)
    requires
        cap > 0,
    ensures
        lru_entries(c) == Seq::<Entry>::empty(),
        lru_capacity(c) == cap,
{
    LruCache::new(std::num::NonZeroUsize::new(cap).unwrap())
}

/// Relies on `lru::LruCache::put`: an existing key gets the new value and
/// moves to the most recent place; a new key is added as the most recent,
/// and when the map is full the least recently used entry is dropped first.
#[verifier::external_body]
pub(crate) fn lru_put(c: &mut LruCache<String, String>, k: String, v: String)
    requires
        valid(lru_entries(*old(c)), lru_capacity(*old(c))),
    ensures
        lru_entries(*final(c)) == put_entry(lru_entries(*old(c)), lru_capacity(*old(c)), k@, v@),
        lru_capacity(*final(c)) == lru_capacity(*old(c)),
{
    c.put(k, v);
}

/// Relies on `lru::LruCache::get`: returns the value under `k`, and a hit
/// moves `k` to the most recent place; a miss changes nothing.
#[verifier::external_body]
pub(crate) fn lru_get(c: &mut LruCache<String, String>, k: &str) -> (r: Option<String>)
    requires
        valid(lru_entries(*old(c)), lru_capacity(*old(c))),
    ensures
        lru_entries(*final(c)) == touched(lru_entries(*old(c)), k@),
        lru_capacity(*final(c)) == lru_capacity(*old(c)),
        match r {
            Some(v) => lookup(lru_entries(*old(c)), k@) == Some(v@),
            None => lookup(lru_entries(*old(c)), k@) is None,
        },
{
    c.get(k).cloned()
}

/// Relies on `lru::LruCache::pop`: removes the entry under `k`, if any.
#[verifier::external_body]
pub(crate) fn lru_pop(c: &mut LruCache<String, String>, k: &str)
    requires
        valid(lru_entries(*old(c)), lru_capacity(*old(c))),
    ensures
        lru_entries(*final(c)) == without(lru_entries(*old(c)), k@),
        lru_capacity(*final(c)) == lru_capacity(*old(c)),
{
    c.pop(k);
}

} // verus!
