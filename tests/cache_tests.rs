use soundlab::cache::Cache;

#[test]
fn eviction_drops_least_recently_used() {
    let mut c = Cache::new(2);
    c.cache_sound("a".to_string(), "/m/a.mp3".to_string());
    c.cache_sound("b".to_string(), "/m/b.mp3".to_string());
    assert_eq!(c.get_cached_sound("a"), Some("/m/a.mp3".to_string()));
    c.cache_sound("c".to_string(), "/m/c.mp3".to_string());
    assert_eq!(c.get_cached_sound("b"), None);
    assert_eq!(c.get_cached_sound("a"), Some("/m/a.mp3".to_string()));
    assert_eq!(c.get_cached_sound("c"), Some("/m/c.mp3".to_string()));
}

#[test]
fn eviction_without_reads_drops_oldest_write() {
    let mut c = Cache::new(2);
    c.cache_sound("a".to_string(), "1".to_string());
    c.cache_sound("b".to_string(), "2".to_string());
    c.cache_sound("c".to_string(), "3".to_string());
    assert_eq!(c.get_cached_sound("a"), None);
    assert_eq!(c.get_cached_sound("b"), Some("2".to_string()));
    assert_eq!(c.get_cached_sound("c"), Some("3".to_string()));
}

#[test]
fn overwrite_updates_value_and_refreshes() {
    let mut c = Cache::new(2);
    c.cache_sound("a".to_string(), "1".to_string());
    c.cache_sound("b".to_string(), "2".to_string());
    c.cache_sound("a".to_string(), "9".to_string());
    c.cache_sound("c".to_string(), "3".to_string());
    assert_eq!(c.get_cached_sound("a"), Some("9".to_string()));
    assert_eq!(c.get_cached_sound("b"), None);
}

#[test]
fn miss_returns_nothing() {
    let mut c = Cache::new(1);
    assert_eq!(c.get_cached_sound("nope"), None);
}

#[test]
fn remove_drops_entry_and_ignores_absent() {
    let mut c = Cache::new(3);
    c.cache_sound("a".to_string(), "1".to_string());
    c.remove_cached_sound("a");
    c.remove_cached_sound("zzz");
    assert_eq!(c.get_cached_sound("a"), None);
}

#[test]
fn capacity_one_keeps_latest() {
    let mut c = Cache::new(1);
    c.cache_sound("a".to_string(), "1".to_string());
    c.cache_sound("b".to_string(), "2".to_string());
    assert_eq!(c.get_cached_sound("a"), None);
    assert_eq!(c.get_cached_sound("b"), Some("2".to_string()));
}
