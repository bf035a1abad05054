//! The lookup cache: a bounded name to location index with least recently
//! used eviction. It only accelerates lookups; the record store stays
//! authoritative. Tasks that share one cache hold it behind a lock; each
//! operation here is a short in-memory update, so that lock is never held
//! across I/O.
use crate::lru_wrap::{lru_capacity, lru_entries, lru_get, lru_new, lru_pop, lru_put};
use crate::recency::{
    lemma_put, lemma_touched, lemma_without, lookup, put_entry, touched, valid, without, Entry,
};
use lru::LruCache;
use vstd::prelude::*;

verus! {

pub struct Cache {
    sound_cache: LruCache<String, String>,
}

impl View for Cache {
    type V = Seq<Entry>;

    /// The entries, from the least to the most recently used.
    closed spec fn view(&self) -> Seq<Entry> {
        lru_entries(self.sound_cache)
    }
}

impl Cache {
    /// The most entries the cache holds.
    pub closed spec fn capacity(&self) -> nat {
        lru_capacity(self.sound_cache)
    }

    pub open spec fn wf(&self) -> bool {
        valid(self@, self.capacity())
    }

    /// An empty cache that holds at most `size` entries.
    pub fn new(size: usize) -> (c: Cache)
        requires
            size > 0,
        ensures
            c.wf(),
            c@ == Seq::<Entry>::empty(),
            c.capacity() == size,
    {
        Cache { sound_cache: lru_new(size) }
    }

    /// Stores `name -> path` as the most recently used entry, evicting the
    /// least recently used one when `name` is new and the cache is full.
    pub fn cache_sound(&mut self, name: String, path: String)
        requires
            old(self).wf(),
        ensures
            final(self).wf(),
            final(self).capacity() == old(self).capacity(),
            final(self)@ == put_entry(old(self)@, old(self).capacity(), name@, path@),
    {
        proof {
            lemma_put(self@, self.capacity(), name@, path@);
        }
        lru_put(&mut self.sound_cache, name, path);
    }

    /// The location stored under `name`; a hit makes `name` the most
    /// recently used entry.
    pub fn get_cached_sound(&mut self, name: &str) -> (r: Option<String>)
        requires
            old(self).wf(),
        ensures
            final(self).wf(),
            final(self).capacity() == old(self).capacity(),
            final(self)@ == touched(old(self)@, name@),
            match r {
                Some(v) => lookup(old(self)@, name@) == Some(v@),
                None => lookup(old(self)@, name@) is None,
            },
    {
        proof {
            lemma_touched(self@, self.capacity(), name@);
        }
        lru_get(&mut self.sound_cache, name)
    }

    /// Drops the entry under `name`, if there is one.
    pub fn remove_cached_sound(&mut self, name: &str)
        requires
            old(self).wf(),
        ensures
            final(self).wf(),
            final(self).capacity() == old(self).capacity(),
            final(self)@ == without(old(self)@, name@),
    {
        proof {
            lemma_without(self@, self.capacity(), name@);
        }
        lru_pop(&mut self.sound_cache, name);
    }
}

} // verus!
