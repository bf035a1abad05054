//! Importing one asset. The import alternates between in-memory decisions
//! and outside work (a store query, a filesystem check, a store insert), so
//! it is written as step functions: each takes the answer to the previous
//! request and says what to do next. The driver performs the requests.
//!
//! The order of steps: probe the cache; on a miss ask the store whether the
//! name is known; if not, check that the file exists; if it does, insert a
//! fresh record and, once the insert succeeded, cache the name.
//!
//! Between the cache probe and the end of its import a name is in flight.
//! A second import of a name in flight ends at once, so the store query and
//! the insert for one name never run twice side by side: the duplicate
//! check is atomic with the insert.
use crate::cache::Cache;
use crate::recency::{holds_key, put_entry, touched, Entry};
use crate::sound::{fresh_record, Sound, SoundView};
use crate::text::position_of;
use vstd::prelude::*;

verus! {

/// How an import ended.
pub enum ImportOutcome {
    /// The name was in the cache; nothing else was consulted.
    AlreadyCached,
    /// Another import of the same name is under way; it decides alone.
    InFlight,
    /// The store already holds a record of that name.
    AlreadyStored,
    /// No file at the location; nothing was changed.
    FileMissing,
    /// A record was stored under this id and the name cached.
    Imported(i64),
    /// The insert failed with this diagnostic; the import of this one asset
    /// failed, without affecting others.
    InsertFailed(String),
    /// The store could not be queried; the import is an error.
    LookupFailed(String),
}

/// What the driver does next.
pub enum ImportStep {
    /// Ask the store whether a record of the name exists.
    LookupStore,
    /// Check whether a file exists at the location.
    CheckFile,
    /// Insert this record into the store.
    Insert(Sound),
    /// Stop.
    Done(ImportOutcome),
}

pub enum OutcomeView {
    AlreadyCached,
    InFlight,
    AlreadyStored,
    FileMissing,
    Imported(i64),
    InsertFailed(Seq<char>),
    LookupFailed(Seq<char>),
}

pub enum StepView {
    LookupStore,
    CheckFile,
    Insert(SoundView),
    Done(OutcomeView),
}

impl View for ImportOutcome {
    type V = OutcomeView;

    open spec fn view(&self) -> OutcomeView {
        match self {
            ImportOutcome::AlreadyCached => OutcomeView::AlreadyCached,
            ImportOutcome::InFlight => OutcomeView::InFlight,
            ImportOutcome::AlreadyStored => OutcomeView::AlreadyStored,
            ImportOutcome::FileMissing => OutcomeView::FileMissing,
            ImportOutcome::Imported(id) => OutcomeView::Imported(*id),
            ImportOutcome::InsertFailed(e) => OutcomeView::InsertFailed(e@),
            ImportOutcome::LookupFailed(e) => OutcomeView::LookupFailed(e@),
        }
    }
}

impl View for ImportStep {
    type V = StepView;

    open spec fn view(&self) -> StepView {
        match self {
            ImportStep::LookupStore => StepView::LookupStore,
            ImportStep::CheckFile => StepView::CheckFile,
            ImportStep::Insert(s) => StepView::Insert(s@),
            ImportStep::Done(o) => StepView::Done(o@),
        }
    }
}

/// An answer from outside with its diagnostic as plain characters.
pub open spec fn answer_view<T>(r: Result<T, String>) -> Result<T, Seq<char>> {
    match r {
        Ok(v) => Ok(v),
        Err(e) => Err(e@),
    }
}

/// The first step: a cached name, or a name in flight, ends the import at
/// once.
pub open spec fn begin_step(c: Seq<Entry>, pending: Set<Seq<char>>, name: Seq<char>) -> StepView {
    if holds_key(c, name) {
        StepView::Done(OutcomeView::AlreadyCached)
    } else if pending.contains(name) {
        StepView::Done(OutcomeView::InFlight)
    } else {
        StepView::LookupStore
    }
}

/// The names in flight after the first step: a name is taken iff the import
/// goes on to the store.
pub open spec fn begin_pending(c: Seq<Entry>, pending: Set<Seq<char>>, name: Seq<char>) -> Set<
    Seq<char>,
> {
    if begin_step(c, pending, name) is LookupStore {
        pending.insert(name)
    } else {
        pending
    }
}

/// The names in flight after a later step: an ending step releases `name`.
pub open spec fn after_pending(pending: Set<Seq<char>>, name: Seq<char>, step: StepView) -> Set<
    Seq<char>,
> {
    if step is Done {
        pending.remove(name)
    } else {
        pending
    }
}

/// The step after the store said whether `name` is known.
pub open spec fn lookup_step(found: Result<bool, Seq<char>>) -> StepView {
    match found {
        Err(e) => StepView::Done(OutcomeView::LookupFailed(e)),
        Ok(true) => StepView::Done(OutcomeView::AlreadyStored),
        Ok(false) => StepView::CheckFile,
    }
}

/// The step after the filesystem said whether the file exists.
pub open spec fn file_step(name: Seq<char>, location: Seq<char>, present: bool) -> StepView {
    if present {
        StepView::Insert(fresh_record(name, location))
    } else {
        StepView::Done(OutcomeView::FileMissing)
    }
}

/// The step after the insert.
pub open spec fn insert_step(inserted: Result<i64, Seq<char>>) -> StepView {
    match inserted {
        Ok(id) => StepView::Done(OutcomeView::Imported(id)),
        Err(e) => StepView::Done(OutcomeView::InsertFailed(e)),
    }
}

/// The cache after the insert: the name is cached only when the insert
/// succeeded.
pub open spec fn insert_cache<T>(
    c: Seq<Entry>,
    cap: nat,
    name: Seq<char>,
    location: Seq<char>,
    inserted: Result<i64, T>,
) -> Seq<Entry> {
    if inserted is Ok {
        put_entry(c, cap, name, location)
    } else {
        c
    }
}

/// The error text of a failed store query.
pub open spec fn lookup_error(e: Seq<char>) -> Seq<char> {
    "DB check failed: "@ + e
}

/// The error text of a failed insert.
pub open spec fn insert_error(e: Seq<char>) -> Seq<char> {
    "Insert failed: "@ + e
}

/// The names whose import is under way, each once.
pub struct InFlight {
    names: Vec<String>,
}

impl InFlight {
    pub closed spec fn view(&self) -> Set<Seq<char>> {
        Set::new(|n: Seq<char>| self.names.deep_view().contains(n))
    }

    pub closed spec fn wf(&self) -> bool {
        self.names.deep_view().no_duplicates()
    }

    pub fn new() -> (r: InFlight)
        ensures
            r.wf(),
            r.view() == Set::<Seq<char>>::empty(),
    {
        let names: Vec<String> = Vec::new();
        let r = InFlight { names };
        assert(r.names.deep_view() =~= Seq::<Seq<char>>::empty());
        assert(r.view() =~= Set::<Seq<char>>::empty());
        r
    }

    pub fn contains(&self, name: &str) -> (r: bool)
        ensures
            r == self.view().contains(name@),
    {
        position_of(&self.names, name).is_some()
    }

    /// Takes `name` into flight.
    pub fn reserve(&mut self, name: &str)
        requires
            old(self).wf(),
            !old(self).view().contains(name@),
        ensures
            final(self).wf(),
            final(self).view() == old(self).view().insert(name@),
    {
        let ghost s = self.names.deep_view();
        let n = name.to_owned();
        self.names.push(n);
        assert(self.names.deep_view() =~= s.push(name@));
        assert(!s.contains(name@));
        assert forall|n: Seq<char>| #[trigger] s.push(name@).contains(n) <==> s.contains(n) || n == name@ by {
            if s.push(name@).contains(n) {
                let j = choose|j: int| 0 <= j < s.len() + 1 && s.push(name@)[j] == n;
                if j < s.len() {
                    assert(s[j] == n);
                }
            }
            if s.contains(n) {
                let j = choose|j: int| 0 <= j < s.len() && s[j] == n;
                assert(s.push(name@)[j] == n);
            }
            if n == name@ {
                assert(s.push(name@)[s.len() as int] == n);
            }
        }
        assert(self.view() =~= old(self).view().insert(name@));
    }

    /// Takes `name` out of flight.
    pub fn release(&mut self, name: &str)
        requires
            old(self).wf(),
        ensures
            final(self).wf(),
            final(self).view() == old(self).view().remove(name@),
    {
        let ghost s = self.names.deep_view();
        match position_of(&self.names, name) {
            Some(i) => {
                self.names.remove(i);
                let ghost t = s.remove(i as int);
                assert(self.names.deep_view() =~= t);
                assert forall|n: Seq<char>| #[trigger] t.contains(n) <==> s.contains(n) && n != name@ by {
                    if t.contains(n) {
                        let j = choose|j: int| 0 <= j < t.len() && t[j] == n;
                        let sj = if j < i { j } else { j + 1 };
                        assert(s[sj] == n);
                        assert(sj != i);
                    }
                    if s.contains(n) && n != name@ {
                        let j = choose|j: int| 0 <= j < s.len() && s[j] == n;
                        assert(j != i);
                        let tj = if j < i { j } else { j - 1 };
                        assert(t[tj] == n);
                    }
                }
                assert forall|a: int, b: int| 0 <= a < t.len() && 0 <= b < t.len() && a != b implies t[a]
                    != t[b] by {
                    let sa = if a < i { a } else { a + 1 };
                    let sb = if b < i { b } else { b + 1 };
                    assert(t[a] == s[sa] && t[b] == s[sb]);
                }
                assert(self.view() =~= old(self).view().remove(name@));
            },
            None => {
                assert(self.view() =~= old(self).view().remove(name@));
            },
        }
    }
}

pub struct Importer {
    pub cache: Cache,
    pub in_flight: InFlight,
}

impl Importer {
    /// The names whose import is under way.
    pub open spec fn pending(&self) -> Set<Seq<char>> {
        self.in_flight.view()
    }

    pub open spec fn wf(&self) -> bool {
        &&& self.cache.wf()
        &&& self.in_flight.wf()
    }

    pub fn new(cache: Cache) -> (r: Importer)
        requires
            cache.wf(),
        ensures
            r.wf(),
            r.cache == cache,
            r.pending() == Set::<Seq<char>>::empty(),
    {
        Importer { cache, in_flight: InFlight::new() }
    }

    /// Probes the cache for `name`. A hit refreshes the entry and ends the
    /// import without any store query; so does a name already in flight.
    /// Otherwise the name goes into flight and the store is asked next.
    pub fn start_import(&mut self, name: &str) -> (r: ImportStep)
        requires
            old(self).wf(),
        ensures
            final(self).wf(),
            final(self).cache.capacity() == old(self).cache.capacity(),
            final(self).cache@ == touched(old(self).cache@, name@),
            r@ == begin_step(old(self).cache@, old(self).pending(), name@),
            final(self).pending() == begin_pending(old(self).cache@, old(self).pending(), name@),
    {
        match self.cache.get_cached_sound(name) {
            Some(_) => ImportStep::Done(ImportOutcome::AlreadyCached),
            None => {
                if self.in_flight.contains(name) {
                    ImportStep::Done(ImportOutcome::InFlight)
                } else {
                    self.in_flight.reserve(name);
                    ImportStep::LookupStore
                }
            },
        }
    }

    /// Takes the store's answer to whether a record named `name` exists.
    pub fn on_lookup(&mut self, name: &str, found: Result<bool, String>) -> (r: ImportStep)
        requires
            old(self).wf(),
        ensures
            final(self).wf(),
            final(self).cache == old(self).cache,
            r@ == lookup_step(answer_view(found)),
            final(self).pending() == after_pending(old(self).pending(), name@, r@),
    {
        let r = match found {
            Err(e) => ImportStep::Done(ImportOutcome::LookupFailed(e)),
            Ok(true) => ImportStep::Done(ImportOutcome::AlreadyStored),
            Ok(false) => ImportStep::CheckFile,
        };
        if let ImportStep::Done(_) = r {
            self.in_flight.release(name);
        }
        r
    }

    /// Takes whether a file exists at `location`; a present file gets a
    /// fresh record to insert.
    pub fn on_file_check(&mut self, name: &str, location: &str, present: bool) -> (r: ImportStep)
        requires
            old(self).wf(),
        ensures
            final(self).wf(),
            final(self).cache == old(self).cache,
            r@ == file_step(name@, location@, present),
            final(self).pending() == after_pending(old(self).pending(), name@, r@),
    {
        if present {
            ImportStep::Insert(Sound::fresh(name, location))
        } else {
            self.in_flight.release(name);
            ImportStep::Done(ImportOutcome::FileMissing)
        }
    }

    /// Takes the result of inserting `record`; on success its name is
    /// cached with its location. Either way the import ends.
    pub fn on_insert(&mut self, record: Sound, inserted: Result<i64, String>) -> (r: ImportStep)
        requires
            old(self).wf(),
        ensures
            final(self).wf(),
            final(self).cache.capacity() == old(self).cache.capacity(),
            final(self).cache@ == insert_cache(
                old(self).cache@,
                old(self).cache.capacity(),
                record.name@,
                record.path@,
                inserted,
            ),
            r@ == insert_step(answer_view(inserted)),
            final(self).pending() == old(self).pending().remove(record.name@),
    {
        self.in_flight.release(record.name.as_str());
        match inserted {
            Ok(id) => {
                self.cache.cache_sound(record.name, record.path);
                ImportStep::Done(ImportOutcome::Imported(id))
            },
            Err(e) => ImportStep::Done(ImportOutcome::InsertFailed(e)),
        }
    }
}

impl ImportOutcome {
    /// The import's result as the caller sees it: a failed store query or a
    /// failed insert is an error carrying its diagnostic; every other
    /// outcome, a missing file included, is a success.
    pub fn to_result(&self) -> (r: Result<(), String>)
        ensures
            match self@ {
                OutcomeView::LookupFailed(e) => r is Err && r->Err_0@ == lookup_error(e),
                OutcomeView::InsertFailed(e) => r is Err && r->Err_0@ == insert_error(e),
                _ => r is Ok,
            },
    {
        match self {
            ImportOutcome::LookupFailed(e) => {
                let mut msg = String::from_str("DB check failed: ");
                msg.append(e.as_str());
                Err(msg)
            },
            ImportOutcome::InsertFailed(e) => {
                let mut msg = String::from_str("Insert failed: ");
                msg.append(e.as_str());
                Err(msg)
            },
            _ => Ok(()),
        }
    }
}

} // verus!
