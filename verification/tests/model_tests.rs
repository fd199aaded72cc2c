use syd::{
    bytes_eq, checkout_tree, clone_bytes, join_path, tree_eq, tree_of, FileData, FileSystem,
    FsEntry, Tree, TreeEntry,
};

fn file(path: &str, content: &[u8], mtime: u64) -> FsEntry {
    FsEntry { path: path.to_string(), data: FileData { content: content.to_vec(), mtime } }
}

#[test]
fn lookup_finds_stored_file() {
    let mut fs = FileSystem { entries: Vec::new() };
    fs.store(&"a".to_string(), FileData { content: b"one".to_vec(), mtime: 1 });
    fs.store(&"b".to_string(), FileData { content: b"two".to_vec(), mtime: 2 });
    let a = fs.lookup(&"a".to_string()).unwrap();
    assert_eq!(a.content, b"one".to_vec());
    assert_eq!(a.mtime, 1);
    assert!(fs.lookup(&"c".to_string()).is_none());
}

#[test]
fn store_overwrites_existing_file() {
    let mut fs = FileSystem { entries: vec![file("a", b"one", 1)] };
    fs.store(&"a".to_string(), FileData { content: b"three".to_vec(), mtime: 3 });
    assert_eq!(fs.entries.len(), 1);
    let a = fs.lookup(&"a".to_string()).unwrap();
    assert_eq!(a.content, b"three".to_vec());
    assert_eq!(a.mtime, 3);
}

#[test]
fn tree_of_forgets_mtimes() {
    let fs1 = FileSystem { entries: vec![file("a", b"same", 1)] };
    let fs2 = FileSystem { entries: vec![file("a", b"same", 99)] };
    let t1 = tree_of(&fs1);
    let t2 = tree_of(&fs2);
    assert!(tree_eq(&t1, &t2));
}

#[test]
fn tree_eq_spots_content_difference() {
    let t1 = Tree { entries: vec![TreeEntry { name: "a".to_string(), content: b"x".to_vec() }] };
    let t2 = Tree { entries: vec![TreeEntry { name: "a".to_string(), content: b"y".to_vec() }] };
    assert!(!tree_eq(&t1, &t2));
}

#[test]
fn tree_eq_ignores_entry_order() {
    let t1 = Tree {
        entries: vec![
            TreeEntry { name: "a".to_string(), content: b"1".to_vec() },
            TreeEntry { name: "b".to_string(), content: b"2".to_vec() },
        ],
    };
    let t2 = Tree {
        entries: vec![
            TreeEntry { name: "b".to_string(), content: b"2".to_vec() },
            TreeEntry { name: "a".to_string(), content: b"1".to_vec() },
        ],
    };
    assert!(tree_eq(&t1, &t2));
}

#[test]
fn checkout_materializes_snapshot_with_timestamp() {
    let t = Tree { entries: vec![TreeEntry { name: "a".to_string(), content: b"x".to_vec() }] };
    let fs = checkout_tree(&t, 77);
    let a = fs.lookup(&"a".to_string()).unwrap();
    assert_eq!(a.content, b"x".to_vec());
    assert_eq!(a.mtime, 77);
}

#[test]
fn bytes_helpers_copy_and_compare() {
    let v = b"hello".to_vec();
    let c = clone_bytes(&v);
    assert_eq!(c, v);
    assert!(bytes_eq(&c, &v));
    assert!(!bytes_eq(&b"hello".to_vec(), &b"hellO".to_vec()));
    assert!(!bytes_eq(&b"he".to_vec(), &b"hello".to_vec()));
}

#[test]
fn join_path_inserts_single_separator() {
    let joined = join_path(&"/backups/mirror".to_string(), &".vimrc".to_string());
    assert_eq!(joined, "/backups/mirror/.vimrc");
}
