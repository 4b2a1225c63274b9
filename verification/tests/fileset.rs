use rebuild::fileset::{FileSet, WalkEntry};
use rebuild::order::path_precedes;

fn strings(items: &[&str]) -> Vec<String> {
    items.iter().map(|s| s.to_string()).collect()
}

#[test]
fn path_order_is_lexicographic() {
    assert!(path_precedes("", ""));
    assert!(path_precedes("", "a"));
    assert!(!path_precedes("a", ""));
    assert!(path_precedes("a", "a"));
    assert!(path_precedes("a", "b"));
    assert!(!path_precedes("b", "a"));
    assert!(path_precedes("src/a", "src/a.rs"));
    assert!(!path_precedes("src/a.rs", "src/a"));
    assert!(path_precedes("src/Z.rs", "src/a.rs"));
    assert!(path_precedes("src/a/z.rs", "src/b.rs"));
    assert!(path_precedes("src/a.rs", "src/\u{e9}.rs"));
    assert!(path_precedes("src/\u{e9}.rs", "src/\u{4e2d}.rs"));
}

#[test]
fn path_order_agrees_with_string_order() {
    let samples = ["", "a", "ab", "b", "src/main.rs", "src/lib.rs", "src/\u{e9}", "\u{1f600}", "z"];
    for a in samples {
        for b in samples {
            assert_eq!(path_precedes(a, b), a <= b, "{:?} {:?}", a, b);
        }
    }
}

#[test]
fn file_set_is_sorted() {
    let files = FileSet::from_paths(strings(&["src/b.txt", "src/a.txt", "src/sub/c.txt", "src/B.txt"]));
    assert_eq!(
        files.paths(),
        &strings(&["src/B.txt", "src/a.txt", "src/b.txt", "src/sub/c.txt"])
    );
    assert_eq!(files.len(), 4);
}

#[test]
fn file_set_ignores_visit_order() {
    let a = FileSet::from_paths(strings(&["c", "a", "b", "d"]));
    let b = FileSet::from_paths(strings(&["d", "c", "b", "a"]));
    let c = FileSet::from_paths(strings(&["a", "b", "c", "d"]));
    assert_eq!(a, b);
    assert_eq!(b, c);
    assert_eq!(a.paths(), &strings(&["a", "b", "c", "d"]));
}

#[test]
fn file_set_of_nothing_is_empty() {
    let files = FileSet::from_paths(Vec::new());
    assert_eq!(files.len(), 0);
    assert!(files.paths().is_empty());
    assert_eq!(files.path(0), None);
}

#[test]
fn file_set_keeps_every_path() {
    let files = FileSet::from_paths(strings(&["b", "a", "b", "a", "c"]));
    assert_eq!(files.paths(), &strings(&["a", "a", "b", "b", "c"]));
}

#[test]
fn file_set_path_by_index() {
    let files = FileSet::from_paths(strings(&["y", "x"]));
    assert_eq!(files.path(0), Some("x"));
    assert_eq!(files.path(1), Some("y"));
    assert_eq!(files.path(2), None);
}

#[test]
fn file_set_matches_std_sort() {
    let mut found: Vec<String> = (0..200u32)
        .map(|i| format!("src/{}/f{}.rs", (i * 7919) % 13, (i * 104729) % 101))
        .collect();
    let files = FileSet::from_paths(found.clone());
    found.sort();
    assert_eq!(files.paths(), &found);
}

#[test]
fn only_regular_files_are_tracked() {
    let entries = vec![
        WalkEntry::Other,
        WalkEntry::File { path: String::from("src/b.rs") },
        WalkEntry::Failed,
        WalkEntry::File { path: String::from("src/a.rs") },
        WalkEntry::Other,
    ];
    let files = FileSet::from_entries(entries);
    assert_eq!(files.paths(), &strings(&["src/a.rs", "src/b.rs"]));
}

#[test]
fn failed_entries_do_not_abort_the_walk() {
    let files = FileSet::from_entries(vec![WalkEntry::Failed, WalkEntry::Failed]);
    assert_eq!(files.len(), 0);
    let files = FileSet::from_entries(vec![
        WalkEntry::Failed,
        WalkEntry::File { path: String::from("x") },
    ]);
    assert_eq!(files.paths(), &strings(&["x"]));
}

#[test]
fn entries_and_paths_give_the_same_set() {
    let paths = strings(&["q", "b", "k"]);
    let entries = paths.iter().map(|p| WalkEntry::File { path: p.clone() }).collect();
    assert_eq!(FileSet::from_entries(entries), FileSet::from_paths(paths));
}
