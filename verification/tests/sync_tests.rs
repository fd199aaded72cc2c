use syd::{
    backup, backup_dotfiles, list_dotfiles, restore, restore_dotfiles, EntryStatus, FileData,
    FileSystem, FsEntry, MirrorRepo, RemoteRepo, TrackedEntry, Tree, TreeEntry,
};

fn file(path: &str, content: &[u8], mtime: u64) -> FsEntry {
    FsEntry { path: path.to_string(), data: FileData { content: content.to_vec(), mtime } }
}

fn snapshot(files: &[(&str, &[u8])]) -> Tree {
    let mut entries = Vec::new();
    for (name, content) in files {
        entries.push(TreeEntry { name: name.to_string(), content: content.to_vec() });
    }
    Tree { entries }
}

fn entry(live_path: &str, file_name: &str) -> TrackedEntry {
    TrackedEntry { live_path: live_path.to_string(), file_name: file_name.to_string() }
}

fn mirror_with(files: Vec<FsEntry>, history: Vec<Tree>, identity: bool) -> MirrorRepo {
    MirrorRepo {
        folder_exists: true,
        has_repo: true,
        files: FileSystem { entries: files },
        history,
        remote_url: None,
        has_identity: identity,
    }
}

#[test]
fn backup_pass_copies_missing_mirror_file() {
    let entries = vec![entry("/home/u/.vimrc", ".vimrc")];
    let live = FileSystem { entries: vec![file("/home/u/.vimrc", b"X", 10)] };
    let mut mirror = mirror_with(vec![], vec![], true);
    let changed = backup_dotfiles(&entries, &live, &mut mirror, 20);
    assert!(changed);
    let copy = mirror.files.lookup(&".vimrc".to_string()).unwrap();
    assert_eq!(copy.content, b"X".to_vec());
    assert_eq!(copy.mtime, 20);
}

#[test]
fn backup_pass_skips_up_to_date_pair() {
    let entries = vec![entry("/home/u/.vimrc", ".vimrc")];
    let live = FileSystem { entries: vec![file("/home/u/.vimrc", b"X", 10)] };
    let mut mirror = mirror_with(vec![file(".vimrc", b"X", 10)], vec![], true);
    let changed = backup_dotfiles(&entries, &live, &mut mirror, 20);
    assert!(!changed);
    assert_eq!(mirror.files.lookup(&".vimrc".to_string()).unwrap().mtime, 10);
}

#[test]
fn backup_pass_skips_missing_live_file() {
    let entries = vec![entry("/home/u/.vimrc", ".vimrc")];
    let live = FileSystem { entries: vec![] };
    let mut mirror = mirror_with(vec![], vec![], true);
    let changed = backup_dotfiles(&entries, &live, &mut mirror, 20);
    assert!(!changed);
    assert!(mirror.files.lookup(&".vimrc".to_string()).is_none());
}

#[test]
fn scenario_first_backup_creates_commit_and_pushes() {
    // Mirror absent, one tracked file with content "X": the backup creates
    // the folder and repository, copies the file, commits and publishes;
    // status afterwards reports the entry synced.
    let entries = vec![entry("/home/u/.vimrc", ".vimrc")];
    let live = FileSystem { entries: vec![file("/home/u/.vimrc", b"X", 10)] };
    let mut mirror = MirrorRepo::absent(true);
    let mut remote = RemoteRepo { history: vec![] };
    let url = "git@example.com:u/dots.git".to_string();

    let had_changes = backup(&entries, &live, &mut mirror, &mut remote, &url, 20).unwrap();
    assert!(had_changes);
    assert!(mirror.folder_exists && mirror.has_repo);
    assert_eq!(mirror.history.len(), 1);
    assert_eq!(mirror.history[0].lookup(&".vimrc".to_string()).unwrap(), &b"X".to_vec());
    assert_eq!(mirror.remote_url, Some(url.clone()));
    assert_eq!(remote.history.len(), 1);
    assert_eq!(remote.history[0].lookup(&".vimrc".to_string()).unwrap(), &b"X".to_vec());

    let report = list_dotfiles(&entries, &live, &mirror, &"main".to_string());
    assert_eq!(report.entries, vec![EntryStatus::Synced]);
    assert!(report.folder_exists && report.has_repo);
    assert_eq!(report.remote_url, Some(url));
    assert_eq!(report.branch, Some("main".to_string()));
    assert_eq!(report.modified, 0);
    assert_eq!(report.untracked, 0);
}

#[test]
fn scenario_changed_file_gets_second_commit() {
    // Mirror and repository already hold a commit of ".vimrc" = "X"; the
    // live file now holds "Y" with a newer timestamp: the backup copies and
    // creates a second commit on top of the first, then publishes.
    let entries = vec![entry("/home/u/.vimrc", ".vimrc")];
    let live = FileSystem { entries: vec![file("/home/u/.vimrc", b"Y", 30)] };
    let prior = snapshot(&[(".vimrc", b"X")]);
    let mut mirror = mirror_with(vec![file(".vimrc", b"X", 10)], vec![prior], true);
    mirror.remote_url = Some("url".to_string());
    let mut remote = RemoteRepo { history: vec![snapshot(&[(".vimrc", b"X")])] };

    let had_changes = backup(&entries, &live, &mut mirror, &mut remote, &"url".to_string(), 40)
        .unwrap();
    assert!(had_changes);
    assert_eq!(mirror.history.len(), 2);
    assert_eq!(mirror.history[0].lookup(&".vimrc".to_string()).unwrap(), &b"X".to_vec());
    assert_eq!(mirror.history[1].lookup(&".vimrc".to_string()).unwrap(), &b"Y".to_vec());
    assert_eq!(remote.history.len(), 2);
}

#[test]
fn backup_twice_reports_nothing_to_do() {
    // Idempotence: with no intervening live-file change, the second run
    // copies nothing, creates no commit and touches neither side.
    let entries = vec![entry("/home/u/.vimrc", ".vimrc"), entry("/etc/hosts", "hosts")];
    let live = FileSystem {
        entries: vec![file("/home/u/.vimrc", b"X", 10), file("/etc/hosts", b"H", 11)],
    };
    let mut mirror = MirrorRepo::absent(true);
    let mut remote = RemoteRepo { history: vec![] };
    let url = "url".to_string();

    let first = backup(&entries, &live, &mut mirror, &mut remote, &url, 20).unwrap();
    assert!(first);
    let commits = mirror.history.len();

    let second = backup(&entries, &live, &mut mirror, &mut remote, &url, 30).unwrap();
    assert!(!second);
    assert_eq!(mirror.history.len(), commits);
    assert_eq!(remote.history.len(), commits);
}

#[test]
fn backup_with_no_changes_skips_every_repo_operation() {
    // Even without a committer identity the short-circuit run succeeds,
    // because nothing to copy means no repository operation is attempted.
    let entries = vec![entry("/home/u/.vimrc", ".vimrc")];
    let live = FileSystem { entries: vec![file("/home/u/.vimrc", b"X", 10)] };
    let mut mirror = mirror_with(vec![file(".vimrc", b"X", 10)], vec![], false);
    let mut remote = RemoteRepo { history: vec![] };
    let r = backup(&entries, &live, &mut mirror, &mut remote, &"url".to_string(), 20).unwrap();
    assert!(!r);
    assert!(mirror.history.is_empty());
}

#[test]
fn restore_pass_recreates_deleted_live_file() {
    // The live file was deleted after being backed up once: restore copies
    // the mirror copy back, recreating it.
    let entries = vec![entry("/home/u/.vimrc", ".vimrc")];
    let mirror = mirror_with(vec![file(".vimrc", b"X", 10)], vec![snapshot(&[(".vimrc", b"X")])], true);
    let mut live = FileSystem { entries: vec![] };
    let restored = restore_dotfiles(&entries, &mirror, &mut live, 50);
    assert!(restored);
    let back = live.lookup(&"/home/u/.vimrc".to_string()).unwrap();
    assert_eq!(back.content, b"X".to_vec());
    assert_eq!(back.mtime, 50);
}

#[test]
fn restore_pass_skips_never_backed_up_entry() {
    let entries = vec![entry("/home/u/.vimrc", ".vimrc")];
    let mirror = mirror_with(vec![], vec![], true);
    let mut live = FileSystem { entries: vec![] };
    let restored = restore_dotfiles(&entries, &mirror, &mut live, 50);
    assert!(!restored);
    assert!(live.lookup(&"/home/u/.vimrc".to_string()).is_none());
}

#[test]
fn restore_workflow_clones_missing_mirror() {
    let entries = vec![entry("/home/u/.vimrc", ".vimrc")];
    let mut live = FileSystem { entries: vec![] };
    let mut mirror = MirrorRepo::absent(true);
    let remote = RemoteRepo { history: vec![snapshot(&[(".vimrc", b"X")])] };
    let restored = restore(&entries, &mut live, &mut mirror, &remote, &"url".to_string(), 60)
        .unwrap();
    assert!(restored);
    assert!(mirror.has_repo);
    assert_eq!(mirror.history.len(), 1);
    assert_eq!(live.lookup(&"/home/u/.vimrc".to_string()).unwrap().content, b"X".to_vec());
}

#[test]
fn round_trip_reproduces_bytes_and_size() {
    // Back a live file up, then restore it into an empty live tree: the
    // content comes back byte-identical.
    let entries = vec![entry("/home/u/.vimrc", ".vimrc")];
    let live = FileSystem { entries: vec![file("/home/u/.vimrc", b"round trip bytes", 10)] };
    let mut mirror = MirrorRepo::absent(true);
    let mut remote = RemoteRepo { history: vec![] };
    backup(&entries, &live, &mut mirror, &mut remote, &"url".to_string(), 20).unwrap();

    let mut fresh_live = FileSystem { entries: vec![] };
    let restored = restore_dotfiles(&entries, &mirror, &mut fresh_live, 30);
    assert!(restored);
    let back = fresh_live.lookup(&"/home/u/.vimrc".to_string()).unwrap();
    assert_eq!(back.content, b"round trip bytes".to_vec());
    assert_eq!(back.content.len(), b"round trip bytes".len());
}

#[test]
fn status_reports_every_entry_state() {
    let entries = vec![
        entry("/a/missing", "missing"),
        entry("/a/new", "new"),
        entry("/a/edited", "edited"),
        entry("/a/synced", "synced"),
    ];
    let live = FileSystem {
        entries: vec![
            file("/a/new", b"n", 10),
            file("/a/edited", b"e2", 30),
            file("/a/synced", b"s", 10),
        ],
    };
    let mirror = mirror_with(
        vec![file("edited", b"e1", 20), file("synced", b"s", 10), file("stray", b"?", 5)],
        vec![snapshot(&[("edited", b"e1"), ("synced", b"s")])],
        true,
    );
    let report = list_dotfiles(&entries, &live, &mirror, &"main".to_string());
    assert_eq!(
        report.entries,
        vec![
            EntryStatus::SourceMissing,
            EntryStatus::NotBackedUp,
            EntryStatus::Modified,
            EntryStatus::Synced,
        ]
    );
    assert_eq!(report.modified, 0);
    assert_eq!(report.untracked, 1);
    assert_eq!(report.branch, Some("main".to_string()));
}

#[test]
fn status_counts_modified_working_tree_files() {
    let mirror = mirror_with(
        vec![file("a", b"changed", 9), file("b", b"same", 9)],
        vec![snapshot(&[("a", b"orig"), ("b", b"same")])],
        true,
    );
    let live = FileSystem { entries: vec![] };
    let report = list_dotfiles(&vec![], &live, &mirror, &"main".to_string());
    assert_eq!(report.modified, 1);
    assert_eq!(report.untracked, 0);
    assert!(report.entries.is_empty());
}

#[test]
fn status_without_repo_reports_absence() {
    let mirror = MirrorRepo::absent(false);
    let live = FileSystem { entries: vec![] };
    let report = list_dotfiles(&vec![], &live, &mirror, &"main".to_string());
    assert!(!report.folder_exists);
    assert!(!report.has_repo);
    assert_eq!(report.remote_url, None);
    assert_eq!(report.branch, None);
}
