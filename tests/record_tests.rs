use soundlab::cache::Cache;
use soundlab::logger::{format_log_line, LogLevel};
use soundlab::reconcile::{find_orphans, is_retained, is_under_root, record_deleted};
use soundlab::registry::{add_import_path, get_import_paths, remove_import_path, Config};
use soundlab::sound::Sound;

fn record(id: Option<i64>, name: &str, path: &str) -> Sound {
    Sound {
        id,
        name: name.to_string(),
        path: path.to_string(),
        is_favorite: false,
        tags: Vec::new(),
    }
}

#[test]
fn reconcile_removes_records_outside_roots() {
    let records = vec![record(Some(1), "a", "/music/a.mp3"), record(Some(2), "b", "/video/b.wav")];
    let roots = vec!["/music".to_string()];
    let mut cache = Cache::new(8);
    cache.cache_sound("a".to_string(), "/music/a.mp3".to_string());
    cache.cache_sound("b".to_string(), "/video/b.wav".to_string());
    let orphans = find_orphans(&records, &roots);
    assert_eq!(orphans.len(), 1);
    assert_eq!(orphans[0].id, 2);
    assert_eq!(orphans[0].name, "b");
    for o in &orphans {
        assert_eq!(record_deleted(&mut cache, o, Ok(())), None);
    }
    assert_eq!(cache.get_cached_sound("b"), None);
    assert_eq!(cache.get_cached_sound("a"), Some("/music/a.mp3".to_string()));
}

#[test]
fn failed_deletion_is_reported_and_keeps_cache_entry() {
    let records = vec![record(Some(3), "x", "/old/x.mp3"), record(Some(4), "y", "/old/y.mp3")];
    let mut cache = Cache::new(8);
    cache.cache_sound("x".to_string(), "/old/x.mp3".to_string());
    cache.cache_sound("y".to_string(), "/old/y.mp3".to_string());
    let orphans = find_orphans(&records, &Vec::new());
    assert_eq!(orphans.len(), 2);
    let first = record_deleted(&mut cache, &orphans[0], Err("locked".to_string()));
    assert_eq!(first, Some("Error deleting sound: locked".to_string()));
    assert_eq!(record_deleted(&mut cache, &orphans[1], Ok(())), None);
    assert_eq!(cache.get_cached_sound("x"), Some("/old/x.mp3".to_string()));
    assert_eq!(cache.get_cached_sound("y"), None);
}

#[test]
fn records_without_id_are_left_alone() {
    let records = vec![record(None, "n", "/elsewhere/n.mp3")];
    assert!(find_orphans(&records, &vec!["/music".to_string()]).is_empty());
}

#[test]
fn root_prefix_respects_component_boundaries() {
    assert!(is_under_root("/music/a.mp3", "/music"));
    assert!(is_under_root("/music/a.mp3", "/music/"));
    assert!(is_under_root("/music", "/music"));
    assert!(!is_under_root("/music2/other.mp3", "/music"));
    assert!(!is_under_root("/mu", "/music"));
    let roots = vec!["/video".to_string(), "/music".to_string()];
    assert!(is_retained("/music/x/y.wav", &roots));
    assert!(!is_retained("/podcasts/z.mp3", &roots));
}

#[test]
fn toggle_twice_restores_flag() {
    let mut s = record(Some(5), "kick", "/m/kick.mp3");
    let first = s.toggle_favorite();
    assert_eq!(first, "Added to favorites");
    assert!(s.is_favorite);
    let second = s.toggle_favorite();
    assert_eq!(second, "Removed from favorites");
    assert!(!s.is_favorite);
    assert_eq!(s.id, Some(5));
    assert_eq!(s.name, "kick");
}

#[test]
fn fresh_record_defaults() {
    let s = Sound::fresh("kick", "/m/kick.mp3");
    assert_eq!(s.id, None);
    assert_eq!(s.name, "kick");
    assert_eq!(s.path, "/m/kick.mp3");
    assert!(!s.is_favorite);
    assert!(s.tags.is_empty());
}

#[test]
fn registry_adds_once_and_removes_first() {
    let mut c = Config::new();
    assert!(add_import_path(&mut c, "/music".to_string()));
    assert!(add_import_path(&mut c, "/video".to_string()));
    assert!(!add_import_path(&mut c, "/music".to_string()));
    assert_eq!(get_import_paths(&c), vec!["/music".to_string(), "/video".to_string()]);
    assert_eq!(remove_import_path(&mut c, "/music"), vec!["/video".to_string()]);
    assert_eq!(remove_import_path(&mut c, "/absent"), vec!["/video".to_string()]);
    assert_eq!(get_import_paths(&c), vec!["/video".to_string()]);
}

#[test]
fn registry_from_paths_keeps_order() {
    let c = Config::from_paths(vec!["/b".to_string(), "/a".to_string()]);
    assert_eq!(get_import_paths(&c), vec!["/b".to_string(), "/a".to_string()]);
}

#[test]
fn log_line_layout() {
    let line = format_log_line("2024-01-02 03:04:05", &LogLevel::Warn, "Importer::import_sound", "hi");
    assert_eq!(line, "[2024-01-02 03:04:05] [WARN] [Importer::import_sound]: \"hi\"");
    assert_eq!(LogLevel::Info.level_to_str(), "INFO");
    assert_eq!(LogLevel::Error.level_to_str(), "ERROR");
    assert_eq!(LogLevel::Debug.level_to_str(), "DEBUG");
}
