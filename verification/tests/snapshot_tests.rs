use tola::snapshot::{
    blob_id, build_snapshot, bytes_le, is_ignored, sort_entries, tree_id, EntryKind, Node,
    TreeEntry,
};

fn hex(bytes: &[u8]) -> String {
    let mut out = String::new();
    for b in bytes {
        out.push_str(&format!("{:02x}", b));
    }
    out
}

fn file(name: &str, contents: &[u8]) -> Node {
    Node::File { name: name.to_string(), contents: contents.to_vec() }
}

fn dir(name: &str, children: Vec<Node>) -> Node {
    Node::Dir { name: name.to_string(), children }
}

fn entry(name: &str, kind: EntryKind) -> TreeEntry {
    TreeEntry { name: name.to_string(), kind, id: vec![0; 20] }
}

fn names(entries: &[TreeEntry]) -> Vec<String> {
    entries.iter().map(|e| e.name.clone()).collect()
}

#[test]
fn empty_directory_is_the_empty_tree() {
    let snapshot = build_snapshot(&vec![], b"").unwrap();
    assert_eq!(hex(&snapshot.tree_id), "4b825dc642cb6eb9a060e54bf8d69288fbee4904");
    assert_eq!(snapshot.trees.len(), 1);
    assert!(snapshot.blobs.is_empty());
}

#[test]
fn snapshot_matches_git_object_ids() {
    let root = vec![
        dir("a", vec![file("x", b"")]),
        file("a.txt", b"hello\n"),
        file("a-b", b""),
    ];
    let snapshot = build_snapshot(&root, b"").unwrap();
    assert_eq!(hex(&snapshot.tree_id), "cc55cbf9e7f91f7d5ca6e2397c99a8801ee40ad7");
    assert_eq!(snapshot.trees.len(), 2);
    assert_eq!(hex(&snapshot.trees[0].id), "5805b676e247eb9a8046ad0c4d249cd2fb2513df");
    assert_eq!(names(&snapshot.trees[1].entries), vec!["a-b", "a.txt", "a"]);
    let blobs: Vec<(String, String)> =
        snapshot.blobs.iter().map(|b| (b.path.clone(), hex(&b.id))).collect();
    assert_eq!(
        blobs,
        vec![
            ("a/x".to_string(), "e69de29bb2d1d6434b8b29ae775ad8c2e48c5391".to_string()),
            ("a.txt".to_string(), "ce013625030ba8dba906f756967f9e9ca394464a".to_string()),
            ("a-b".to_string(), "e69de29bb2d1d6434b8b29ae775ad8c2e48c5391".to_string()),
        ]
    );
}

#[test]
fn snapshot_is_the_same_on_every_run_and_in_every_listing_order() {
    let first = vec![dir("a", vec![file("x", b""), file("y", b"1")]), file("a.txt", b"hello\n")];
    let again = vec![dir("a", vec![file("x", b""), file("y", b"1")]), file("a.txt", b"hello\n")];
    let shuffled = vec![file("a.txt", b"hello\n"), dir("a", vec![file("y", b"1"), file("x", b"")])];
    let one = build_snapshot(&first, b"").unwrap();
    let two = build_snapshot(&again, b"").unwrap();
    let three = build_snapshot(&shuffled, b"").unwrap();
    assert_eq!(one, two);
    assert_eq!(one.tree_id, three.tree_id);
}

#[test]
fn git_directory_is_always_left_out() {
    let with_git = vec![dir(".git", vec![file("HEAD", b"ref")]), file("a.txt", b"hello\n")];
    let without = vec![file("a.txt", b"hello\n")];
    let one = build_snapshot(&with_git, b"").unwrap();
    let two = build_snapshot(&without, b"").unwrap();
    assert_eq!(one, two);
    let git_file = vec![file(".git", b"gitdir: x")];
    assert_eq!(build_snapshot(&git_file, b"").unwrap().blobs.len(), 1);
}

#[test]
fn ignored_paths_are_left_out() {
    let root = vec![
        file("keep.txt", b"1"),
        file("drop.log", b"2"),
        dir("cache", vec![file("x", b"3")]),
        dir("posts", vec![file("a.log", b"4"), file("b.txt", b"5")]),
    ];
    let snapshot = build_snapshot(&root, b"# comment\n*.log\ncache\n").unwrap();
    let paths: Vec<String> = snapshot.blobs.iter().map(|b| b.path.clone()).collect();
    assert_eq!(paths, vec!["keep.txt", "posts/a.log", "posts/b.txt"]);
    let nested = build_snapshot(&root, b"posts/*.log\n").unwrap();
    let paths: Vec<String> = nested.blobs.iter().map(|b| b.path.clone()).collect();
    assert_eq!(paths, vec!["keep.txt", "drop.log", "cache/x", "posts/b.txt"]);
}

#[test]
fn is_ignored_matches_whole_paths() {
    let patterns = vec![b"*.log".to_vec(), b"cache".to_vec()];
    assert!(is_ignored("drop.log", &patterns));
    assert!(is_ignored("cache", &patterns));
    assert!(!is_ignored("posts/a.log", &patterns));
    assert!(!is_ignored("keep.txt", &patterns));
    assert!(!is_ignored("keep.txt", &vec![]));
}

#[test]
fn directories_sort_as_if_they_ended_in_a_slash() {
    let sorted = sort_entries(vec![
        entry("a", EntryKind::Tree),
        entry("a.txt", EntryKind::Blob),
        entry("a-b", EntryKind::Blob),
        entry("a0", EntryKind::Blob),
        entry("a", EntryKind::Blob),
    ]);
    assert_eq!(names(&sorted), vec!["a", "a-b", "a.txt", "a", "a0"]);
    assert_eq!(sorted[0].kind, EntryKind::Blob);
    assert_eq!(sorted[3].kind, EntryKind::Tree);
}

#[test]
fn bytes_compare_lexicographically() {
    assert!(bytes_le(&vec![], &vec![]));
    assert!(bytes_le(&vec![], &vec![1]));
    assert!(!bytes_le(&vec![1], &vec![]));
    assert!(bytes_le(&vec![1, 2], &vec![1, 2]));
    assert!(bytes_le(&vec![1, 2], &vec![1, 3]));
    assert!(!bytes_le(&vec![2], &vec![1, 3]));
    assert!(bytes_le(&vec![1], &vec![1, 0]));
}

#[test]
fn a_name_that_cannot_be_written_gives_no_snapshot() {
    let root = vec![dir("posts", vec![file("a\0b", b"")])];
    assert_eq!(build_snapshot(&root, b""), None);
}

#[test]
fn objects_get_the_ids_git_gives_them() {
    assert_eq!(hex(&blob_id(b"hello\n").unwrap()), "ce013625030ba8dba906f756967f9e9ca394464a");
    assert_eq!(hex(&blob_id(b"").unwrap()), "e69de29bb2d1d6434b8b29ae775ad8c2e48c5391");
    assert_eq!(hex(&tree_id(&vec![]).unwrap()), "4b825dc642cb6eb9a060e54bf8d69288fbee4904");
    let x = TreeEntry {
        name: "x".to_string(),
        kind: EntryKind::Blob,
        id: blob_id(b"").unwrap(),
    };
    assert_eq!(hex(&tree_id(&vec![x]).unwrap()), "5805b676e247eb9a8046ad0c4d249cd2fb2513df");
    let short = TreeEntry { name: "x".to_string(), kind: EntryKind::Blob, id: vec![1, 2, 3] };
    assert_eq!(tree_id(&vec![short]), None);
}
