use soundlab::scan::{audio_stem_of, DirEntry, Scanner};

fn file(dir: &str, name: &str) -> DirEntry {
    DirEntry { path: format!("{}/{}", dir, name), file_name: name.to_string(), is_dir: false }
}

fn dir(parent: &str, name: &str) -> DirEntry {
    DirEntry { path: format!("{}/{}", parent, name), file_name: name.to_string(), is_dir: true }
}

#[test]
fn stem_of_audio_files() {
    assert_eq!(audio_stem_of("kick.mp3"), Some("kick".to_string()));
    assert_eq!(audio_stem_of("Snare.WAV"), Some("Snare".to_string()));
    assert_eq!(audio_stem_of("hat.Mp3"), Some("hat".to_string()));
    assert_eq!(audio_stem_of("take.2.wav"), Some("take.2".to_string()));
}

#[test]
fn non_audio_files_are_skipped() {
    assert_eq!(audio_stem_of("notes.txt"), None);
    assert_eq!(audio_stem_of("loop.flac"), None);
    assert_eq!(audio_stem_of("mp3"), None);
    assert_eq!(audio_stem_of(".mp3"), None);
    assert_eq!(audio_stem_of("song.mp33"), None);
    assert_eq!(audio_stem_of("song."), None);
    assert_eq!(audio_stem_of(""), None);
}

#[test]
fn scanner_walks_work_list() {
    let mut s = Scanner::new("/r".to_string());
    assert_eq!(s.next_dir(), Some("/r".to_string()));
    s.visit(&vec![file("/r", "a.mp3"), dir("/r", "sub"), file("/r", "readme.md")]);
    assert_eq!(s.next_dir(), Some("/r/sub".to_string()));
    s.visit(&vec![file("/r/sub", "b.WAV"), file("/r/sub", "c.ogg")]);
    assert_eq!(s.next_dir(), None);
    let found: Vec<(String, String)> =
        s.into_candidates().into_iter().map(|c| (c.name, c.location)).collect();
    assert_eq!(
        found,
        vec![
            ("a".to_string(), "/r/a.mp3".to_string()),
            ("b".to_string(), "/r/sub/b.WAV".to_string())
        ]
    );
}

#[test]
fn scanner_pops_last_pushed_directory_first() {
    let mut s = Scanner::new("/r".to_string());
    s.next_dir();
    s.visit(&vec![dir("/r", "x"), dir("/r", "y")]);
    assert_eq!(s.next_dir(), Some("/r/y".to_string()));
    assert_eq!(s.next_dir(), Some("/r/x".to_string()));
    assert_eq!(s.next_dir(), None);
}

#[test]
fn directory_named_like_audio_is_not_a_candidate() {
    let mut s = Scanner::new("/r".to_string());
    s.next_dir();
    s.visit(&vec![dir("/r", "album.mp3")]);
    assert_eq!(s.next_dir(), Some("/r/album.mp3".to_string()));
    s.visit(&vec![]);
    assert!(s.into_candidates().is_empty());
}
