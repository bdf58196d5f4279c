use deploy::changes::DigestMap;
use deploy::changes::ScannedFile;
use deploy::changes::base_name;
use deploy::changes::changed_paths;
use deploy::changes::current_digests;
use deploy::changes::is_watched_path;
use deploy::changes::staged_dest;
use deploy::changes::temp_dir_path;

fn file(path: &str, content: &[u8]) -> ScannedFile {
    ScannedFile { path: path.to_string(), content: content.to_vec() }
}

#[test]
fn digests_match_the_md5_of_the_content() {
    let files = vec![file("dir/a.txt", b"abc")];
    let m = current_digests(&files);
    let d = m.get(&"dir/a.txt".to_string()).expect("digest expected");
    // The well-known md5 of "abc".
    assert_eq!(d, "900150983cd24fb0d6963f7d28e17f72");
    // And it agrees with the hash crate computed directly.
    assert_eq!(*d, format!("{:x}", md5::compute(b"abc")));
}

#[test]
fn rescan_with_no_modification_reports_no_change() {
    let files = vec![
        file("a", b"one"),
        file("b", b"two"),
        file("sub/c", b"three"),
    ];
    let first = current_digests(&files);
    // Second run over the same unmodified tree.
    let second = current_digests(&files);
    let changed = changed_paths(&second, &first);
    assert_eq!(changed.len(), 0);
}

#[test]
fn modified_and_added_files_are_reported() {
    let before = vec![file("a", b"one"), file("b", b"two")];
    let after = vec![file("a", b"one"), file("b", b"TWO"), file("d", b"new")];
    let prev = current_digests(&before);
    let cur = current_digests(&after);
    let changed = changed_paths(&cur, &prev);
    assert_eq!(changed, vec!["b".to_string(), "d".to_string()]);
}

#[test]
fn deletions_are_not_reported() {
    // previous {a: h1, b: h2}, current {a: h1, c: h3}: b was deleted, c was
    // added; the changed set is exactly {c}.
    let mut prev = DigestMap::new();
    prev.insert_new("a".to_string(), "h1".to_string());
    prev.insert_new("b".to_string(), "h2".to_string());
    let mut cur = DigestMap::new();
    cur.insert_new("a".to_string(), "h1".to_string());
    cur.insert_new("c".to_string(), "h3".to_string());
    let changed = changed_paths(&cur, &prev);
    assert_eq!(changed, vec!["c".to_string()]);
}

#[test]
fn temp_segments_and_the_cache_file_are_not_watched() {
    assert!(is_watched_path(&"root/src/main.c".to_string()));
    assert!(!is_watched_path(&"root/temp/staged.c".to_string()));
    assert!(!is_watched_path(&"root/md5_cache.json".to_string()));
    let files = vec![
        file("root/src/main.c", b"x"),
        file("root/temp/staged.c", b"y"),
        file("root/md5_cache.json", b"{}"),
    ];
    let m = current_digests(&files);
    assert_eq!(m.len(), 1);
    assert!(m.get(&"root/temp/staged.c".to_string()).is_none());
    assert!(m.get(&"root/md5_cache.json".to_string()).is_none());
}

#[test]
fn staging_flattens_to_the_base_name() {
    assert_eq!(base_name(&"a/b/c.txt".to_string()), "c.txt");
    assert_eq!(base_name(&"plain".to_string()), "plain");
    let temp = temp_dir_path(&"/watch".to_string());
    assert_eq!(temp, "/watch/temp");
    assert_eq!(
        staged_dest(&temp, &"/watch/deep/tree/file.bin".to_string()),
        "/watch/temp/file.bin"
    );
}

#[test]
fn persisted_pairs_round_trip_through_the_map() {
    let mut m = DigestMap::new();
    m.insert_new("x".to_string(), "1".to_string());
    m.insert_new("y".to_string(), "2".to_string());
    let pairs = m.pairs().clone();
    // Rebuilding from the persisted pairs yields the same mapping.
    let mut rebuilt = DigestMap::new();
    for (k, v) in pairs {
        rebuilt.insert_new(k, v);
    }
    assert_eq!(rebuilt.get(&"x".to_string()), Some(&"1".to_string()));
    assert_eq!(rebuilt.get(&"y".to_string()), Some(&"2".to_string()));
    assert_eq!(rebuilt.len(), 2);
}
