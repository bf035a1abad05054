//! Reconciliation: the records whose location lies under none of the active
//! import roots are orphans. Each is deleted from the store by the driver;
//! once its deletion succeeded its cache entry is dropped too.
use crate::cache::Cache;
use crate::recency::{holds_key, lemma_without, valid, without, Entry};
use crate::sound::{Sound, SoundView};
use vstd::prelude::*;

verus! {

/// `root` is a path prefix of `location`: a character prefix that ends at a
/// component boundary, so `/music` covers `/music/a.mp3` but not
/// `/music2/a.mp3`.
pub open spec fn under_root(location: Seq<char>, root: Seq<char>) -> bool {
    &&& root.len() <= location.len()
    &&& location.subrange(0, root.len() as int) == root
    &&& {
        ||| location.len() == root.len()
        ||| (root.len() > 0 && root.last() == '/')
        ||| location[root.len() as int] == '/'
    }
}

/// Some active root covers `location`.
pub open spec fn retained(location: Seq<char>, roots: Seq<Seq<char>>) -> bool {
    exists|i: int| 0 <= i < roots.len() && under_root(location, roots[i])
}

/// A record to remove: its store id and its name (the cache key).
pub struct Orphan {
    pub id: i64,
    pub name: String,
}

impl View for Orphan {
    type V = (i64, Seq<char>);

    open spec fn view(&self) -> (i64, Seq<char>) {
        (self.id, self.name@)
    }
}

/// What one record contributes to the orphans: a stored record that no root
/// covers. A record without an id was never stored and is left alone.
pub open spec fn record_orphans(r: SoundView, roots: Seq<Seq<char>>) -> Seq<(i64, Seq<char>)> {
    match r.id {
        Some(id) => if retained(r.path, roots) {
            Seq::empty()
        } else {
            seq![(id, r.name)]
        },
        None => Seq::empty(),
    }
}

/// The orphans among `records`, in order.
pub open spec fn orphans_of(records: Seq<SoundView>, roots: Seq<Seq<char>>) -> Seq<(i64, Seq<char>)>
    decreases records.len(),
{
    if records.len() == 0 {
        Seq::empty()
    } else {
        orphans_of(records.drop_last(), roots) + record_orphans(records.last(), roots)
    }
}

pub open spec fn sound_views(s: Seq<Sound>) -> Seq<SoundView> {
    s.map_values(|r: Sound| r@)
}

/// The error text of a failed deletion.
pub open spec fn delete_error(e: Seq<char>) -> Seq<char> {
    "Error deleting sound: "@ + e
}

/// Whether `root` is a path prefix of `location`.
pub fn is_under_root(location: &str, root: &str) -> (r: bool)
    ensures
        r == under_root(location@, root@),
{
    let n = location.unicode_len();
    let m = root.unicode_len();
    if m > n {
        return false;
    }
    let mut i: usize = 0;
    while i < m
        invariant
            m <= n,
            n == location@.len(),
            m == root@.len(),
            i <= m,
            forall|j: int| 0 <= j < i ==> location@[j] == root@[j],
        decreases m - i,
    {
        if location.get_char(i) != root.get_char(i) {
            return false;
        }
        i = i + 1;
    }
    assert(location@.subrange(0, m as int) =~= root@);
    if n == m {
        true
    } else if m > 0 && root.get_char(m - 1) == '/' {
        true
    } else {
        location.get_char(m) == '/'
    }
}

/// Whether some root in `roots` covers `location`.
pub fn is_retained(location: &str, roots: &Vec<String>) -> (r: bool)
    ensures
        r == retained(location@, roots.deep_view()),
{
    let mut i: usize = 0;
    while i < roots.len()
        invariant
            i <= roots@.len(),
            forall|j: int| 0 <= j < i ==> !under_root(location@, roots.deep_view()[j]),
        decreases roots@.len() - i,
    {
        if is_under_root(location, roots[i].as_str()) {
            assert(under_root(location@, roots.deep_view()[i as int]));
            return true;
        }
        i = i + 1;
    }
    false
}

/// The records that no root in `roots` covers, as the ids to delete and the
/// names to drop from the cache.
pub fn find_orphans(records: &Vec<Sound>, roots: &Vec<String>) -> (r: Vec<Orphan>)
    ensures
        r@.map_values(|o: Orphan| o@) == orphans_of(sound_views(records@), roots.deep_view()),
{
    let ghost views = sound_views(records@);
    let ghost rs = roots.deep_view();
    let mut out: Vec<Orphan> = Vec::new();
    let mut i: usize = 0;
    while i < records.len()
        invariant
            i <= records@.len(),
            views == sound_views(records@),
            rs == roots.deep_view(),
            out@.map_values(|o: Orphan| o@) == orphans_of(views.take(i as int), rs),
        decreases records@.len() - i,
    {
        let rec = &records[i];
        assert(views.take(i + 1).drop_last() =~= views.take(i as int));
        assert(views.take(i + 1).last() == rec@);
        let ghost before = out@.map_values(|o: Orphan| o@);
        match rec.id {
            Some(id) => {
                if !is_retained(rec.path.as_str(), roots) {
                    out.push(Orphan { id, name: rec.name.clone() });
                }
            },
            None => {},
        }
        assert(out@.map_values(|o: Orphan| o@) =~= before + record_orphans(rec@, rs));
        i = i + 1;
    }
    assert(views.take(records@.len() as int) =~= views);
    out
}

/// Takes the result of deleting `orphan` from the store. After a successful
/// deletion its cache entry is dropped; a failed one is reported and leaves
/// the cache alone, and the sweep goes on with the other orphans.
pub fn record_deleted(cache: &mut Cache, orphan: &Orphan, deleted: Result<(), String>) -> (r: Option<
    String,
>)
    requires
        old(cache).wf(),
    ensures
        final(cache).wf(),
        final(cache).capacity() == old(cache).capacity(),
        match deleted {
            Ok(_) => r is None && final(cache)@ == without(old(cache)@, orphan.name@),
            Err(e) => r is Some && r->Some_0@ == delete_error(e@) && final(cache)@ == old(cache)@,
        },
{
    match deleted {
        Ok(_) => {
            cache.remove_cached_sound(orphan.name.as_str());
            None
        },
        Err(e) => {
            let mut msg = String::from_str("Error deleting sound: ");
            msg.append(e.as_str());
            Some(msg)
        },
    }
}

/// The cache after the deletions of `names` all succeeded, one after another.
pub open spec fn swept(c: Seq<Entry>, names: Seq<Seq<char>>) -> Seq<Entry>
    decreases names.len(),
{
    if names.len() == 0 {
        c
    } else {
        without(swept(c, names.drop_last()), names.last())
    }
}

/// Once every orphan's deletion has succeeded, the cache holds no entry for
/// any of them: no cache entry is left pointing at a removed record. Every
/// other key stays cached.
pub proof fn lemma_sweep_clears_cache(c: Seq<Entry>, cap: nat, names: Seq<Seq<char>>)
    requires
        valid(c, cap),
    ensures
        valid(swept(c, names), cap),
        forall|i: int| 0 <= i < names.len() ==> !holds_key(swept(c, names), #[trigger] names[i]),
        forall|x: Seq<char>| !names.contains(x) ==> (holds_key(swept(c, names), x) <==> holds_key(c, x)),
    decreases names.len(),
{
    if names.len() > 0 {
        let p = names.drop_last();
        lemma_sweep_clears_cache(c, cap, p);
        lemma_without(swept(c, p), cap, names.last());
        assert forall|i: int| 0 <= i < names.len() implies !holds_key(swept(c, names), #[trigger] names[i]) by {
            if i < p.len() {
                assert(p[i] == names[i]);
            }
        }
        assert forall|x: Seq<char>| !names.contains(x) implies (holds_key(swept(c, names), x) <==> holds_key(c, x)) by {
            assert(x != names[names.len() - 1]);
            if p.contains(x) {
                let j = choose|j: int| 0 <= j < p.len() && p[j] == x;
                assert(names[j] == x);
            }
        }
    }
}

} // verus!
