use soundlab::cache::Cache;
use soundlab::importer::{ImportOutcome, ImportStep, Importer};
use soundlab::scan::{DirEntry, Scanner};

/// An in-memory store that counts the existence queries it answers.
struct FakeStore {
    records: Vec<(i64, String, String)>,
    lookups: usize,
    fail_lookup: bool,
    fail_insert: bool,
}

impl FakeStore {
    fn new() -> FakeStore {
        FakeStore { records: Vec::new(), lookups: 0, fail_lookup: false, fail_insert: false }
    }

    fn count(&self, name: &str) -> usize {
        self.records.iter().filter(|r| r.1 == name).count()
    }
}

fn import_one(
    importer: &mut Importer,
    store: &mut FakeStore,
    files: &[&str],
    name: &str,
    location: &str,
) -> ImportOutcome {
    let mut step = importer.start_import(name);
    loop {
        step = match step {
            ImportStep::LookupStore => {
                store.lookups += 1;
                let answer = if store.fail_lookup {
                    Err("store offline".to_string())
                } else {
                    Ok(store.count(name) > 0)
                };
                importer.on_lookup(name, answer)
            }
            ImportStep::CheckFile => {
                importer.on_file_check(name, location, files.contains(&location))
            }
            ImportStep::Insert(sound) => {
                assert_eq!(sound.id, None);
                assert!(!sound.is_favorite);
                assert!(sound.tags.is_empty());
                let result = if store.fail_insert {
                    Err("disk full".to_string())
                } else {
                    let id = store.records.len() as i64 + 1;
                    store.records.push((id, sound.name.clone(), sound.path.clone()));
                    Ok(id)
                };
                importer.on_insert(sound, result)
            }
            ImportStep::Done(outcome) => return outcome,
        };
    }
}

#[test]
fn importing_twice_yields_one_record_and_one_entry() {
    let mut importer = Importer::new(Cache::new(10));
    let mut store = FakeStore::new();
    let files = ["/m/kick.mp3"];
    let first = import_one(&mut importer, &mut store, &files, "kick", "/m/kick.mp3");
    assert!(matches!(first, ImportOutcome::Imported(1)));
    let second = import_one(&mut importer, &mut store, &files, "kick", "/m/kick.mp3");
    assert!(matches!(second, ImportOutcome::AlreadyCached));
    assert_eq!(store.count("kick"), 1);
    assert_eq!(store.records.len(), 1);
    assert_eq!(importer.cache.get_cached_sound("kick"), Some("/m/kick.mp3".to_string()));
}

#[test]
fn cached_name_issues_no_store_query() {
    let mut importer = Importer::new(Cache::new(4));
    importer.cache.cache_sound("kick".to_string(), "/old/kick.mp3".to_string());
    let mut store = FakeStore::new();
    let outcome = import_one(&mut importer, &mut store, &[], "kick", "/anything/else.wav");
    assert!(matches!(outcome, ImportOutcome::AlreadyCached));
    assert_eq!(store.lookups, 0);
    assert!(store.records.is_empty());
}

#[test]
fn start_import_on_cached_name_is_done() {
    let mut importer = Importer::new(Cache::new(4));
    importer.cache.cache_sound("x".to_string(), "/x.mp3".to_string());
    assert!(matches!(importer.start_import("x"), ImportStep::Done(ImportOutcome::AlreadyCached)));
    assert!(matches!(importer.start_import("y"), ImportStep::LookupStore));
}

#[test]
fn missing_file_is_tolerated() {
    let mut importer = Importer::new(Cache::new(4));
    let mut store = FakeStore::new();
    let outcome = import_one(&mut importer, &mut store, &[], "x", "/does/not/exist");
    assert!(matches!(outcome, ImportOutcome::FileMissing));
    assert!(outcome.to_result().is_ok());
    assert_eq!(store.count("x"), 0);
    assert_eq!(importer.cache.get_cached_sound("x"), None);
}

#[test]
fn name_known_to_store_is_not_inserted_again() {
    let mut importer = Importer::new(Cache::new(4));
    let mut store = FakeStore::new();
    store.records.push((7, "kick".to_string(), "/a/kick.mp3".to_string()));
    let outcome = import_one(&mut importer, &mut store, &["/b/kick.wav"], "kick", "/b/kick.wav");
    assert!(matches!(outcome, ImportOutcome::AlreadyStored));
    assert_eq!(store.records.len(), 1);
    assert_eq!(importer.cache.get_cached_sound("kick"), None);
}

#[test]
fn failed_lookup_is_an_error() {
    let mut importer = Importer::new(Cache::new(4));
    let mut store = FakeStore::new();
    store.fail_lookup = true;
    let outcome = import_one(&mut importer, &mut store, &["/a.mp3"], "a", "/a.mp3");
    assert_eq!(outcome.to_result(), Err("DB check failed: store offline".to_string()));
    assert!(store.records.is_empty());
}

#[test]
fn failed_insert_is_reported_but_not_an_error() {
    let mut importer = Importer::new(Cache::new(4));
    let mut store = FakeStore::new();
    store.fail_insert = true;
    let outcome = import_one(&mut importer, &mut store, &["/a.mp3"], "a", "/a.mp3");
    match &outcome {
        ImportOutcome::InsertFailed(e) => assert_eq!(e, "disk full"),
        _ => panic!("expected a failed insert"),
    }
    assert_eq!(outcome.to_result(), Err("Insert failed: disk full".to_string()));
    assert_eq!(importer.cache.get_cached_sound("a"), None);
    // The failed import released its name: a retry goes to the store again.
    store.fail_insert = false;
    let retry = import_one(&mut importer, &mut store, &["/a.mp3"], "a", "/a.mp3");
    assert!(matches!(retry, ImportOutcome::Imported(1)));
}

#[test]
fn concurrent_imports_of_one_name_insert_once() {
    let mut importer = Importer::new(Cache::new(4));
    let mut store = FakeStore::new();
    // Two units for "kick" both start before either reaches the store.
    let first = importer.start_import("kick");
    let second = importer.start_import("kick");
    assert!(matches!(first, ImportStep::LookupStore));
    assert!(matches!(second, ImportStep::Done(ImportOutcome::InFlight)));
    assert_eq!(ImportOutcome::InFlight.to_result(), Ok(()));
    // The first unit goes on alone.
    let step = importer.on_lookup("kick", Ok(store.count("kick") > 0));
    assert!(matches!(step, ImportStep::CheckFile));
    let step = importer.on_file_check("kick", "/a/kick.mp3", true);
    let sound = match step {
        ImportStep::Insert(sound) => sound,
        _ => panic!("expected an insert"),
    };
    store.records.push((1, sound.name.clone(), sound.path.clone()));
    let done = importer.on_insert(sound, Ok(1));
    assert!(matches!(done, ImportStep::Done(ImportOutcome::Imported(1))));
    assert_eq!(store.count("kick"), 1);
    // Once finished, the name is no longer in flight; it is cached.
    assert!(!importer.in_flight.contains("kick"));
    assert!(matches!(importer.start_import("kick"), ImportStep::Done(ImportOutcome::AlreadyCached)));
}

#[test]
fn ending_steps_release_the_name() {
    let mut importer = Importer::new(Cache::new(4));
    assert!(matches!(importer.start_import("x"), ImportStep::LookupStore));
    assert!(importer.in_flight.contains("x"));
    assert!(matches!(importer.on_lookup("x", Ok(false)), ImportStep::CheckFile));
    assert!(importer.in_flight.contains("x"));
    assert!(matches!(
        importer.on_file_check("x", "/gone.mp3", false),
        ImportStep::Done(ImportOutcome::FileMissing)
    ));
    assert!(!importer.in_flight.contains("x"));
    assert!(matches!(importer.start_import("x"), ImportStep::LookupStore));
    assert!(matches!(
        importer.on_lookup("x", Ok(true)),
        ImportStep::Done(ImportOutcome::AlreadyStored)
    ));
    assert!(!importer.in_flight.contains("x"));
    assert!(matches!(importer.start_import("x"), ImportStep::LookupStore));
    assert!(matches!(
        importer.on_lookup("x", Err("down".to_string())),
        ImportStep::Done(ImportOutcome::LookupFailed(_))
    ));
    assert!(!importer.in_flight.contains("x"));
}

#[test]
fn same_stem_in_two_directories_is_stored_once() {
    let mut importer = Importer::new(Cache::new(4));
    let mut store = FakeStore::new();
    let files = ["/a/kick.mp3", "/b/kick.wav"];
    import_one(&mut importer, &mut store, &files, "kick", "/a/kick.mp3");
    let second = import_one(&mut importer, &mut store, &files, "kick", "/b/kick.wav");
    assert!(matches!(second, ImportOutcome::AlreadyCached));
    assert_eq!(store.count("kick"), 1);
}

#[test]
fn fan_out_imports_every_matching_file() {
    let mut scanner = Scanner::new("/lib".to_string());
    let tree = vec![
        ("/lib", vec![("a.mp3", false), ("notes.txt", false), ("sub", true), ("b.wav", false)]),
        ("/lib/sub", vec![("c.MP3", false), ("cover.jpg", false), ("d.flac", false)]),
    ];
    while let Some(d) = scanner.next_dir() {
        let listing = &tree.iter().find(|(p, _)| *p == d).unwrap().1;
        let entries: Vec<DirEntry> = listing
            .iter()
            .map(|(n, is_dir)| DirEntry {
                path: format!("{}/{}", d, n),
                file_name: n.to_string(),
                is_dir: *is_dir,
            })
            .collect();
        scanner.visit(&entries);
    }
    let cands = scanner.into_candidates();
    assert_eq!(cands.len(), 3);
    let files: Vec<String> = cands.iter().map(|c| c.location.clone()).collect();
    let file_refs: Vec<&str> = files.iter().map(|s| s.as_str()).collect();
    // A capacity below the number of files: eviction must not cause duplicates.
    let mut importer = Importer::new(Cache::new(2));
    let mut store = FakeStore::new();
    for c in &cands {
        import_one(&mut importer, &mut store, &file_refs, &c.name, &c.location);
    }
    assert_eq!(store.records.len(), 3);
    for n in ["a", "b", "c"] {
        assert_eq!(store.count(n), 1);
    }
    for c in &cands {
        import_one(&mut importer, &mut store, &file_refs, &c.name, &c.location);
    }
    assert_eq!(store.records.len(), 3);
}
