//! Laws of importing, stated over a model of the record store: a sequence
//! of records that answers "is the name known" by looking, and appends the
//! record it is asked to insert. An import unit is the composition of the
//! step functions the driver runs: it starts (the cache probe), and later
//! finishes (store query, file check, insert). Units of the same name may
//! start before one another finishes.
use crate::importer::{
    after_pending, begin_pending, begin_step, file_step, insert_cache, lookup_step, OutcomeView,
    StepView,
};
use crate::scan::{tree_candidates, DirEntry};
use crate::sound::fresh_record;
use crate::recency::{holds_key, lemma_put, lemma_touch_last, lemma_touched, lookup, touched, valid, Entry};
use crate::sound::SoundView;
use vstd::prelude::*;

verus! {

/// The cache and the store together, as values.
pub struct Library {
    pub cache: Seq<Entry>,
    pub cap: nat,
    /// The names in flight.
    pub pending: Set<Seq<char>>,
    pub records: Seq<SoundView>,
}

/// How many records carry `name`.
pub open spec fn count_named(records: Seq<SoundView>, name: Seq<char>) -> nat
    decreases records.len(),
{
    if records.len() == 0 {
        0
    } else {
        count_named(records.drop_last(), name) + if records.last().name == name {
            1nat
        } else {
            0nat
        }
    }
}

/// The start of an import unit for `name`: the cache probe. Returns the
/// state after it and the step it leads to.
pub open spec fn unit_start(s: Library, name: Seq<char>) -> (Library, StepView) {
    (
        Library {
            cache: touched(s.cache, name),
            cap: s.cap,
            pending: begin_pending(s.cache, s.pending, name),
            records: s.records,
        },
        begin_step(s.cache, s.pending, name),
    )
}

/// The rest of a unit that started with `step`, run without interruption,
/// where the file exists iff `present` and the insert succeeds.
pub open spec fn unit_finish(
    s: Library,
    name: Seq<char>,
    location: Seq<char>,
    present: bool,
    step: StepView,
) -> Library {
    match step {
        StepView::LookupStore => {
            let looked = lookup_step(Ok(count_named(s.records, name) > 0));
            let p1 = after_pending(s.pending, name, looked);
            match looked {
                StepView::CheckFile => {
                    let checked = file_step(name, location, present);
                    let p2 = after_pending(p1, name, checked);
                    match checked {
                        StepView::Insert(rec) => Library {
                            cache: insert_cache(s.cache, s.cap, rec.name, rec.path, Ok::<i64, ()>(0)),
                            cap: s.cap,
                            pending: p2.remove(rec.name),
                            records: s.records.push(rec),
                        },
                        _ => Library { cache: s.cache, cap: s.cap, pending: p2, records: s.records },
                    }
                },
                _ => Library { cache: s.cache, cap: s.cap, pending: p1, records: s.records },
            }
        },
        _ => s,
    }
}

/// One import of `name` at `location`, run alone.
pub open spec fn import_once(s: Library, name: Seq<char>, location: Seq<char>, present: bool) -> Library {
    unit_finish(unit_start(s, name).0, name, location, present, unit_start(s, name).1)
}

/// Imports of the candidates `(name, location)` one after another, each
/// file having been found by the scan.
pub open spec fn import_all(s: Library, cands: Seq<(Seq<char>, Seq<char>)>) -> Library
    decreases cands.len(),
{
    if cands.len() == 0 {
        s
    } else {
        let t = import_all(s, cands.drop_last());
        import_once(t, cands.last().0, cands.last().1, true)
    }
}

/// The records an import creates for `cands`.
pub open spec fn fresh_records(cands: Seq<(Seq<char>, Seq<char>)>) -> Seq<SoundView> {
    cands.map_values(|c: (Seq<char>, Seq<char>)| fresh_record(c.0, c.1))
}

pub proof fn lemma_count_push(records: Seq<SoundView>, r: SoundView, name: Seq<char>)
    ensures
        count_named(records.push(r), name) == count_named(records, name) + if r.name == name {
            1nat
        } else {
            0nat
        },
{
    assert(records.push(r).drop_last() =~= records);
}

/// What one import run alone does, by case.
pub proof fn lemma_import_once(s: Library, name: Seq<char>, location: Seq<char>, present: bool)
    requires
        valid(s.cache, s.cap),
        !s.pending.contains(name),
    ensures
        ({
            let t = import_once(s, name, location, present);
            &&& valid(t.cache, s.cap)
            &&& t.cap == s.cap
            &&& t.pending == s.pending
            &&& holds_key(t.cache, name) ==> t.cache.last().0 == name
            &&& if !holds_key(s.cache, name) && count_named(s.records, name) == 0 && present {
                &&& t.records == s.records.push(fresh_record(name, location))
                &&& t.cache.last() == (name, location)
                &&& forall|x: Seq<char>| x != name && holds_key(t.cache, x) ==> holds_key(s.cache, x)
            } else {
                &&& t.records == s.records
                &&& t.cache == touched(s.cache, name)
                &&& forall|x: Seq<char>| holds_key(t.cache, x) <==> holds_key(s.cache, x)
            }
        }),
{
    lemma_touched(s.cache, s.cap, name);
    assert(s.pending.insert(name).remove(name) =~= s.pending);
    if !holds_key(s.cache, name) && count_named(s.records, name) == 0 && present {
        assert(touched(s.cache, name) == s.cache);
        lemma_put(s.cache, s.cap, name, location);
    }
}

/// Importing the same asset twice has the effect of importing it once: the
/// second run finds the name cached (or meets the same condition that
/// stopped the first run) and changes neither store nor cache.
pub proof fn lemma_import_idempotent(s: Library, name: Seq<char>, location: Seq<char>, present: bool)
    requires
        valid(s.cache, s.cap),
        !s.pending.contains(name),
    ensures
        import_once(import_once(s, name, location, present), name, location, present)
            == import_once(s, name, location, present),
{
    let t = import_once(s, name, location, present);
    lemma_import_once(s, name, location, present);
    lemma_import_once(t, name, location, present);
    if holds_key(t.cache, name) {
        lemma_touch_last(t.cache, name);
    } else {
        assert(!holds_key(s.cache, name));
    }
}

/// Starting with neither a record nor a cache entry for `name`, importing an
/// existing file twice leaves exactly one record of that name in the store
/// and one cache entry for it, mapping to `location`.
pub proof fn lemma_import_twice_single_record(s: Library, name: Seq<char>, location: Seq<char>)
    requires
        valid(s.cache, s.cap),
        !s.pending.contains(name),
        !holds_key(s.cache, name),
        count_named(s.records, name) == 0,
    ensures
        ({
            let t = import_once(import_once(s, name, location, true), name, location, true);
            &&& count_named(t.records, name) == 1
            &&& lookup(t.cache, name) == Some(location)
            &&& valid(t.cache, t.cap)
        }),
{
    let t = import_once(s, name, location, true);
    lemma_import_once(s, name, location, true);
    lemma_import_idempotent(s, name, location, true);
    lemma_count_push(s.records, fresh_record(name, location), name);
    crate::recency::lemma_position_unique(t.cache, t.cache.len() - 1);
}

/// Importing a name whose file does not exist, with no record or cache
/// entry for it beforehand, leaves store and cache as they were: still no
/// record and no cache entry for that name.
pub proof fn lemma_missing_file(s: Library, name: Seq<char>, location: Seq<char>)
    requires
        valid(s.cache, s.cap),
        !s.pending.contains(name),
        !holds_key(s.cache, name),
        count_named(s.records, name) == 0,
    ensures
        import_once(s, name, location, false) == s,
        count_named(import_once(s, name, location, false).records, name) == 0,
        !holds_key(import_once(s, name, location, false).cache, name),
{
    assert(s.pending.insert(name).remove(name) =~= s.pending);
}

/// A unit that starts while another unit of the same name is in flight, and
/// the name is not cached, ends at once: it queries nothing and changes
/// nothing.
pub proof fn lemma_in_flight_blocks(s: Library, name: Seq<char>)
    requires
        s.pending.contains(name),
        !holds_key(s.cache, name),
    ensures
        unit_start(s, name).1 == StepView::Done(OutcomeView::InFlight),
        unit_start(s, name).0 == s,
{
}

/// Two units for the same name, with no record or cache entry for it, that
/// both start before either goes on: whatever locations they carry, the
/// store ends with at most one record of that name, exactly one if the
/// first unit's file exists, and nothing stays in flight.
pub proof fn lemma_concurrent_same_name(
    s: Library,
    name: Seq<char>,
    loc1: Seq<char>,
    present1: bool,
    loc2: Seq<char>,
    present2: bool,
)
    requires
        valid(s.cache, s.cap),
        !s.pending.contains(name),
        !holds_key(s.cache, name),
        count_named(s.records, name) == 0,
    ensures
        ({
            let a = unit_start(s, name);
            let b = unit_start(a.0, name);
            let f = unit_finish(unit_finish(b.0, name, loc1, present1, a.1), name, loc2, present2, b.1);
            &&& b.1 == StepView::Done(OutcomeView::InFlight)
            &&& count_named(f.records, name) <= 1
            &&& present1 ==> count_named(f.records, name) == 1
            &&& f.pending == s.pending
        }),
{
    let a = unit_start(s, name);
    assert(a.0.cache == s.cache);
    assert(a.0.pending == s.pending.insert(name));
    let b = unit_start(a.0, name);
    assert(b.0 == a.0);
    assert(s.pending.insert(name).remove(name) =~= s.pending);
    lemma_count_push(s.records, fresh_record(name, loc1), name);
}

/// Importing candidates one after another, none of whose names is cached,
/// stored or in flight beforehand, leaves exactly one record for each name
/// among them, whether or not names repeat; each record added is the fresh
/// record of some candidate, and other names are untouched.
pub proof fn lemma_import_all(s: Library, cands: Seq<(Seq<char>, Seq<char>)>)
    requires
        valid(s.cache, s.cap),
        forall|i: int|
            0 <= i < cands.len() ==> !holds_key(s.cache, #[trigger] cands[i].0) && count_named(
                s.records,
                cands[i].0,
            ) == 0 && !s.pending.contains(cands[i].0),
    ensures
        ({
            let t = import_all(s, cands);
            &&& valid(t.cache, t.cap)
            &&& t.cap == s.cap
            &&& t.pending == s.pending
            &&& s.records.len() <= t.records.len()
            &&& t.records.take(s.records.len() as int) == s.records
            &&& forall|k: int|
                s.records.len() <= k < t.records.len() ==> exists|j: int|
                    0 <= j < cands.len() && #[trigger] t.records[k] == fresh_record(
                        #[trigger] cands[j].0,
                        cands[j].1,
                    )
            &&& forall|i: int| 0 <= i < cands.len() ==> count_named(t.records, #[trigger] cands[i].0) == 1
            &&& forall|x: Seq<char>|
                (forall|i: int| 0 <= i < cands.len() ==> #[trigger] cands[i].0 != x) ==> count_named(
                    t.records,
                    x,
                ) == count_named(s.records, x) && (holds_key(t.cache, x) ==> holds_key(s.cache, x))
        }),
    decreases cands.len(),
{
    if cands.len() > 0 {
        let p = cands.drop_last();
        let last = cands.last();
        assert(last == cands[cands.len() - 1]);
        assert forall|i: int| 0 <= i < p.len() implies !holds_key(s.cache, #[trigger] p[i].0)
            && count_named(s.records, p[i].0) == 0 && !s.pending.contains(p[i].0) by {
            assert(p[i] == cands[i]);
        }
        lemma_import_all(s, p);
        let t = import_all(s, p);
        lemma_import_once(t, last.0, last.1, true);
        let u = import_all(s, cands);
        assert(u == import_once(t, last.0, last.1, true));
        let seen = exists|i: int| 0 <= i < p.len() && p[i].0 == last.0;
        if seen {
            let i0 = choose|i: int| 0 <= i < p.len() && p[i].0 == last.0;
            assert(p[i0] == cands[i0]);
            assert(count_named(t.records, p[i0].0) == 1);
            assert(u.records == t.records);
        } else {
            assert forall|i: int| 0 <= i < p.len() implies #[trigger] p[i].0 != last.0 by {}
            assert(u.records == t.records.push(fresh_record(last.0, last.1)));
            assert forall|x: Seq<char>| true implies count_named(u.records, x) == count_named(t.records, x)
                + if x == last.0 {
                1nat
            } else {
                0nat
            } by {
                lemma_count_push(t.records, fresh_record(last.0, last.1), x);
            }
        }
        assert(u.records.take(s.records.len() as int) =~= s.records) by {
            assert(t.records.take(s.records.len() as int) == s.records);
            assert forall|k: int| 0 <= k < s.records.len() implies u.records[k] == t.records[k] by {}
        }
        assert forall|k: int| s.records.len() <= k < u.records.len() implies exists|j: int|
            0 <= j < cands.len() && #[trigger] u.records[k] == fresh_record(
                #[trigger] cands[j].0,
                cands[j].1,
            ) by {
            if k < t.records.len() {
                assert(u.records[k] == t.records[k]);
                let j = choose|j: int|
                    0 <= j < p.len() && #[trigger] t.records[k] == fresh_record(#[trigger] p[j].0, p[j].1);
                assert(p[j] == cands[j]);
            } else {
                assert(u.records[k] == fresh_record(cands[cands.len() - 1].0, cands[cands.len() - 1].1));
            }
        }
        assert forall|i: int| 0 <= i < cands.len() implies count_named(u.records, #[trigger] cands[i].0)
            == 1 by {
            if i < p.len() {
                assert(p[i] == cands[i]);
            }
        }
        assert forall|x: Seq<char>|
            (forall|i: int| 0 <= i < cands.len() ==> #[trigger] cands[i].0 != x) implies count_named(
            u.records,
            x,
        ) == count_named(s.records, x) && (holds_key(u.cache, x) ==> holds_key(s.cache, x)) by {
            assert forall|i: int| 0 <= i < p.len() implies #[trigger] p[i].0 != x by {
                assert(p[i] == cands[i]);
            }
            assert(cands[cands.len() - 1].0 != x);
        }
    }
}

/// With pairwise distinct names, none cached, stored or in flight, the
/// records added are exactly the fresh records of the candidates, in order.
pub proof fn lemma_import_all_distinct(s: Library, cands: Seq<(Seq<char>, Seq<char>)>)
    requires
        valid(s.cache, s.cap),
        forall|i: int, j: int|
            0 <= i < cands.len() && 0 <= j < cands.len() && i != j ==> cands[i].0 != cands[j].0,
        forall|i: int|
            0 <= i < cands.len() ==> !holds_key(s.cache, #[trigger] cands[i].0) && count_named(
                s.records,
                cands[i].0,
            ) == 0 && !s.pending.contains(cands[i].0),
    ensures
        import_all(s, cands).records == s.records + fresh_records(cands),
    decreases cands.len(),
{
    if cands.len() > 0 {
        let p = cands.drop_last();
        let last = cands.last();
        assert(last == cands[cands.len() - 1]);
        assert forall|i: int| 0 <= i < p.len() implies !holds_key(s.cache, #[trigger] p[i].0)
            && count_named(s.records, p[i].0) == 0 && !s.pending.contains(p[i].0) by {
            assert(p[i] == cands[i]);
        }
        lemma_import_all_distinct(s, p);
        lemma_import_all(s, p);
        let t = import_all(s, p);
        assert forall|i: int| 0 <= i < p.len() implies #[trigger] p[i].0 != last.0 by {
            assert(p[i] == cands[i]);
        }
        lemma_import_once(t, last.0, last.1, true);
        assert(fresh_records(cands) =~= fresh_records(p).push(fresh_record(last.0, last.1)));
        assert(import_all(s, cands).records =~= s.records + fresh_records(cands));
    }
}

/// Importing a whole tree: over the directory listings a scan read (the
/// candidates `Scanner::into_candidates` hands out are exactly
/// `tree_candidates` of them), with
/// pairwise distinct names among its audio files and none of them known
/// beforehand, the store gains exactly one fresh record per audio file, with
/// that file's name and location, and nothing for any other entry.
pub proof fn lemma_import_tree(s: Library, listings: Seq<Seq<DirEntry>>)
    requires
        valid(s.cache, s.cap),
        ({
            let cands = tree_candidates(listings);
            &&& forall|i: int, j: int|
                0 <= i < cands.len() && 0 <= j < cands.len() && i != j ==> cands[i].0 != cands[j].0
            &&& forall|i: int|
                0 <= i < cands.len() ==> !holds_key(s.cache, #[trigger] cands[i].0) && count_named(
                    s.records,
                    cands[i].0,
                ) == 0 && !s.pending.contains(cands[i].0)
        }),
    ensures
        import_all(s, tree_candidates(listings)).records == s.records + fresh_records(
            tree_candidates(listings),
        ),
        import_all(s, tree_candidates(listings)).records.len() == s.records.len() + tree_candidates(
            listings,
        ).len(),
{
    lemma_import_all_distinct(s, tree_candidates(listings));
}

} // verus!
