//! The sync orchestrator: the backup, restore and status workflows over the
//! tracked-file list, composing the change detector with the repository
//! controller.

use vstd::prelude::*;
use crate::config::TrackedEntry;
use crate::detect::ChangeVerdict;
use crate::detect::Direction;
use crate::detect::FileMeta;
use crate::detect::needs_sync;
use crate::detect::spec_verdict;
use crate::errors::GitError;
use crate::errors::SydError;
use crate::fsmodel::FileData;
use crate::fsmodel::FileDataView;
use crate::fsmodel::FileSystem;
use crate::fsmodel::FsEntry;
use crate::fsmodel::clone_bytes;
use crate::repo::HistoryView;
use crate::repo::MirrorRepo;
use crate::repo::MirrorRepoView;
use crate::repo::RemoteRepo;
use crate::repo::clone_if_absent;
use crate::repo::create_backup_folder;
use crate::repo::push_to_git;
use crate::repo::spec_clone_if_absent;
use crate::repo::spec_push;
use crate::fsmodel::Tree;

verus! {

/// What one backup pass over the tracked entries does to the mirror's
/// working tree: each entry in order, a live file that is absent is skipped
/// (with a warning at the boundary), one whose mirror copy is absent or
/// stale is copied in — bytes taken from the live file, the copy stamped
/// `now` — and one whose copy is up to date is left alone. The flag says
/// whether any copy happened.
pub open spec fn spec_backup_pass(
    entries: Seq<TrackedEntry>,
    live: Map<Seq<char>, FileDataView>,
    mirror: Map<Seq<char>, FileDataView>,
    now: u64,
) -> (Map<Seq<char>, FileDataView>, bool)
    decreases entries.len(),
{
    if entries.len() == 0 {
        (mirror, false)
    } else {
        let (m1, c1) = spec_backup_pass(entries.drop_last(), live, mirror, now);
        let e = entries.last();
        if !live.contains_key(e.live_path@) {
            (m1, c1)
        } else {
            let d = live[e.live_path@];
            if spec_verdict(d, m1.index_opt(e.file_name@), Direction::Backup)
                == ChangeVerdict::UpToDate {
                (m1, c1)
            } else {
                (m1.insert(e.file_name@, FileDataView { content: d.content, mtime: now }), true)
            }
        }
    }
}

/// The backup copy pass: check every tracked entry against its mirror copy
/// and copy the stale and missing ones in. Returns whether anything was
/// copied; when nothing was, the mirror (its repository state included) is
/// untouched and the caller skips every repository operation.
pub fn backup_dotfiles(
    entries: &Vec<TrackedEntry>,
    live: &FileSystem,
    mirror: &mut MirrorRepo,
    now: u64,
) -> (has_changes: bool)
    requires
        live.wf(),
        old(mirror).wf(),
        old(mirror).folder_exists,
    ensures
        final(mirror).wf(),
        final(mirror).folder_exists,
        ({
            let (fm, c) = spec_backup_pass(entries@, live@, old(mirror)@.files, now);
            &&& final(mirror)@ == (MirrorRepoView { files: fm, ..old(mirror)@ })
            &&& has_changes == c
        }),
{
    let n = entries.len();
    let mut changed = false;
    let mut i: usize = 0;
    while i < n
        invariant
            n == entries@.len(),
            i <= n,
            live.wf(),
            mirror.wf(),
            mirror.folder_exists,
            ({
                let (fm, c) = spec_backup_pass(entries@.take(i as int), live@, old(mirror)@.files, now);
                &&& mirror@ == (MirrorRepoView { files: fm, ..old(mirror)@ })
                &&& changed == c
            }),
        decreases n - i,
    {
        let ghost prefix = entries@.take(i as int);
        let ghost (fm, c) = spec_backup_pass(prefix, live@, old(mirror)@.files, now);
        proof {
            assert(entries@.take(i as int + 1).drop_last() =~= prefix);
            assert(entries@.take(i as int + 1).last() == entries@[i as int]);
        }
        let e = &entries[i];
        match live.lookup(&e.live_path) {
            None => {},
            Some(d) => {
                let src_meta = FileMeta { size: d.content.len(), mtime: d.mtime };
                let dst_meta: Option<FileMeta> = match mirror.files.lookup(&e.file_name) {
                    Some(x) => Some(FileMeta { size: x.content.len(), mtime: x.mtime }),
                    None => None,
                };
                let verdict = needs_sync(&src_meta, dst_meta.as_ref(), Direction::Backup);
                proof {
                    assert(verdict == spec_verdict(
                        d@,
                        fm.index_opt(e.file_name@),
                        Direction::Backup,
                    ));
                }
                match verdict {
                    ChangeVerdict::UpToDate => {},
                    _ => {
                        mirror.files.store(
                            &e.file_name,
                            FileData { content: clone_bytes(&d.content), mtime: now },
                        );
                        changed = true;
                    },
                }
            },
        }
        proof {
            let (fm2, c2) = spec_backup_pass(
                entries@.take(i as int + 1),
                live@,
                old(mirror)@.files,
                now,
            );
            assert(mirror@.files =~= fm2);
            assert(mirror@ =~= (MirrorRepoView { files: fm2, ..old(mirror)@ }));
        }
        i += 1;
    }
    proof {
        assert(entries@.take(n as int) =~= entries@);
    }
    changed
}

/// What one restore pass does to the live files: each entry in order, one
/// with no mirror copy is skipped (with a warning at the boundary — the
/// live tree is authoritative for never-backed-up files), and one whose
/// live copy is absent or drifted from the mirror copy is overwritten with
/// the mirror bytes, stamped `now`. The flag says whether any copy
/// happened.
pub open spec fn spec_restore_pass(
    entries: Seq<TrackedEntry>,
    mirror: Map<Seq<char>, FileDataView>,
    live: Map<Seq<char>, FileDataView>,
    now: u64,
) -> (Map<Seq<char>, FileDataView>, bool)
    decreases entries.len(),
{
    if entries.len() == 0 {
        (live, false)
    } else {
        let (l1, c1) = spec_restore_pass(entries.drop_last(), mirror, live, now);
        let e = entries.last();
        if !mirror.contains_key(e.file_name@) {
            (l1, c1)
        } else {
            let s = mirror[e.file_name@];
            if spec_verdict(s, l1.index_opt(e.live_path@), Direction::Restore)
                == ChangeVerdict::UpToDate {
                (l1, c1)
            } else {
                (l1.insert(e.live_path@, FileDataView { content: s.content, mtime: now }), true)
            }
        }
    }
}

/// The restore copy pass: copy every tracked entry's mirror copy back to
/// its live location when the live copy is absent or differs. Returns
/// whether anything was restored.
pub fn restore_dotfiles(
    entries: &Vec<TrackedEntry>,
    mirror: &MirrorRepo,
    live: &mut FileSystem,
    now: u64,
) -> (restored: bool)
    requires
        old(live).wf(),
        mirror.wf(),
    ensures
        final(live).wf(),
        ({
            let (lm, c) = spec_restore_pass(entries@, mirror@.files, old(live)@, now);
            &&& final(live)@ == lm
            &&& restored == c
        }),
{
    let n = entries.len();
    let mut restored = false;
    let mut i: usize = 0;
    while i < n
        invariant
            n == entries@.len(),
            i <= n,
            live.wf(),
            mirror.wf(),
            ({
                let (lm, c) = spec_restore_pass(entries@.take(i as int), mirror@.files, old(live)@, now);
                &&& live@ == lm
                &&& restored == c
            }),
        decreases n - i,
    {
        let ghost prefix = entries@.take(i as int);
        let ghost (lm, c) = spec_restore_pass(prefix, mirror@.files, old(live)@, now);
        proof {
            assert(entries@.take(i as int + 1).drop_last() =~= prefix);
            assert(entries@.take(i as int + 1).last() == entries@[i as int]);
        }
        let e = &entries[i];
        match mirror.files.lookup(&e.file_name) {
            None => {},
            Some(s) => {
                let src_meta = FileMeta { size: s.content.len(), mtime: s.mtime };
                let dst_meta: Option<FileMeta> = match live.lookup(&e.live_path) {
                    Some(x) => Some(FileMeta { size: x.content.len(), mtime: x.mtime }),
                    None => None,
                };
                let verdict = needs_sync(&src_meta, dst_meta.as_ref(), Direction::Restore);
                proof {
                    assert(verdict == spec_verdict(
                        s@,
                        lm.index_opt(e.live_path@),
                        Direction::Restore,
                    ));
                }
                match verdict {
                    ChangeVerdict::UpToDate => {},
                    _ => {
                        live.store(
                            &e.live_path,
                            FileData { content: clone_bytes(&s.content), mtime: now },
                        );
                        restored = true;
                    },
                }
            },
        }
        proof {
            let (lm2, c2) = spec_restore_pass(
                entries@.take(i as int + 1),
                mirror@.files,
                old(live)@,
                now,
            );
            assert(live@ =~= lm2);
        }
        i += 1;
    }
    proof {
        assert(entries@.take(n as int) =~= entries@);
    }
    restored
}

/// What the whole backup workflow does: ensure the mirror folder and its
/// repository exist, run the copy pass, and — only when some copy happened —
/// commit and publish. When no entry needed a copy the workflow stops
/// after the pass and performs no repository operation at all.
pub open spec fn spec_backup(
    entries: Seq<TrackedEntry>,
    live: Map<Seq<char>, FileDataView>,
    m: MirrorRepoView,
    remote: HistoryView,
    url: Seq<char>,
    now: u64,
) -> Result<(MirrorRepoView, HistoryView, bool), GitError> {
    let m1 = MirrorRepoView { folder_exists: true, has_repo: true, ..m };
    let (files2, changed) = spec_backup_pass(entries, live, m1.files, now);
    let m2 = MirrorRepoView { files: files2, ..m1 };
    if !changed {
        Ok((m2, remote, false))
    } else {
        match spec_push(m2, remote, url) {
            Ok((m3, r3, _committed)) => Ok((m3, r3, true)),
            Err(e) => Err(e),
        }
    }
}

/// The backup workflow: ensure the mirror folder and repository, copy every
/// entry that needs it, and — only if something was copied — commit and
/// push. Returns whether anything was copied (and hence pushed).
pub fn backup(
    entries: &Vec<TrackedEntry>,
    live: &FileSystem,
    mirror: &mut MirrorRepo,
    remote: &mut RemoteRepo,
    url: &String,
    now: u64,
) -> (r: Result<bool, SydError>)
    requires
        live.wf(),
        old(mirror).wf(),
        old(remote).wf(),
    ensures
        final(mirror).wf(),
        final(remote).wf(),
        match r {
            Ok(has_changes) => spec_backup(entries@, live@, old(mirror)@, old(remote)@, url@, now)
                == Ok::<_, GitError>((final(mirror)@, final(remote)@, has_changes)),
            Err(e) => match e {
                SydError::Git(g) => {
                    &&& spec_backup(entries@, live@, old(mirror)@, old(remote)@, url@, now)
                        == Err::<(MirrorRepoView, HistoryView, bool), _>(g)
                    &&& final(remote)@ == old(remote)@
                },
                _ => false,
            },
        },
{
    create_backup_folder(mirror);
    let has_changes = backup_dotfiles(entries, live, mirror, now);
    if !has_changes {
        return Ok(false);
    }
    match push_to_git(mirror, remote, url) {
        Ok(_committed) => Ok(true),
        Err(e) => Err(e),
    }
}

/// What the whole restore workflow does: clone the mirror when absent or
/// fetch-and-fast-forward it when present (never creating commits), then
/// run the restore pass from the resulting working tree onto the live
/// files.
pub open spec fn spec_restore(
    entries: Seq<TrackedEntry>,
    live: Map<Seq<char>, FileDataView>,
    m: MirrorRepoView,
    remote: HistoryView,
    url: Seq<char>,
    now: u64,
) -> Result<(MirrorRepoView, Map<Seq<char>, FileDataView>, bool), GitError> {
    match spec_clone_if_absent(m, url, remote, now) {
        Err(e) => Err(e),
        Ok((m1, _how)) => {
            let (live2, restored) = spec_restore_pass(entries, m1.files, live, now);
            Ok((m1, live2, restored))
        },
    }
}

/// The restore workflow: clone or fetch the mirror repository, then copy
/// mirror files back over absent or drifted live files. Returns whether
/// anything was restored. Fails without touching the live files when the
/// histories cannot be fast-forwarded.
pub fn restore(
    entries: &Vec<TrackedEntry>,
    live: &mut FileSystem,
    mirror: &mut MirrorRepo,
    remote: &RemoteRepo,
    url: &String,
    now: u64,
) -> (r: Result<bool, SydError>)
    requires
        old(live).wf(),
        old(mirror).wf(),
        remote.wf(),
    ensures
        final(live).wf(),
        final(mirror).wf(),
        match r {
            Ok(restored) => spec_restore(entries@, old(live)@, old(mirror)@, remote@, url@, now)
                == Ok::<_, GitError>((final(mirror)@, final(live)@, restored)),
            Err(e) => match e {
                SydError::Git(g) => {
                    &&& spec_restore(entries@, old(live)@, old(mirror)@, remote@, url@, now)
                        == Err::<(MirrorRepoView, Map<Seq<char>, FileDataView>, bool), _>(g)
                    &&& final(live)@ == old(live)@
                    &&& final(mirror)@ == old(mirror)@
                },
                _ => false,
            },
        },
{
    match clone_if_absent(mirror, url, remote, now) {
        Ok(_how) => {},
        Err(e) => {
            return Err(e);
        },
    }
    let restored = restore_dotfiles(entries, mirror, live, now);
    Ok(restored)
}

/// Per-entry state reported by the status workflow.
#[derive(Clone, Copy, PartialEq, Eq, Structural, Debug)]
pub enum EntryStatus {
    /// The live file does not exist.
    SourceMissing,
    /// The live file exists but has no mirror copy yet.
    NotBackedUp,
    /// The live file differs from its mirror copy (by size, or by being
    /// newer).
    Modified,
    /// The live file and its mirror copy agree.
    Synced,
}

/// The status of one tracked entry: a missing live file is reported as
/// such; otherwise the backup-direction verdict against the mirror copy is
/// rendered.
pub open spec fn spec_entry_status(
    e: TrackedEntry,
    live: Map<Seq<char>, FileDataView>,
    mirror: Map<Seq<char>, FileDataView>,
) -> EntryStatus {
    if !live.contains_key(e.live_path@) {
        EntryStatus::SourceMissing
    } else {
        match spec_verdict(live[e.live_path@], mirror.index_opt(e.file_name@), Direction::Backup) {
            ChangeVerdict::Missing => EntryStatus::NotBackedUp,
            ChangeVerdict::Stale => EntryStatus::Modified,
            ChangeVerdict::UpToDate => EntryStatus::Synced,
        }
    }
}

/// Counts of working-tree files that differ from the branch tip's snapshot
/// (modified) and of files the tip does not record (untracked). With no
/// commit yet, every file is untracked.
pub open spec fn spec_wt_counts(
    entries: Seq<FsEntry>,
    tip: Option<Map<Seq<char>, Seq<u8>>>,
) -> (nat, nat)
    decreases entries.len(),
{
    if entries.len() == 0 {
        (0nat, 0nat)
    } else {
        let (m, u) = spec_wt_counts(entries.drop_last(), tip);
        let e = entries.last();
        match tip {
            None => (m, (u + 1) as nat),
            Some(t) => if !t.contains_key(e.path@) {
                (m, (u + 1) as nat)
            } else if t[e.path@] != e.data.content@ {
                ((m + 1) as nat, u)
            } else {
                (m, u)
            },
        }
    }
}

proof fn lemma_wt_counts_bound(entries: Seq<FsEntry>, tip: Option<Map<Seq<char>, Seq<u8>>>)
    ensures
        spec_wt_counts(entries, tip).0 + spec_wt_counts(entries, tip).1 <= entries.len(),
    decreases entries.len(),
{
    if entries.len() > 0 {
        lemma_wt_counts_bound(entries.drop_last(), tip);
    }
}

/// Everything the status workflow reports. Read-only: computing it mutates
/// nothing and touches no network.
pub struct StatusReport {
    /// Does the mirror folder exist?
    pub folder_exists: bool,
    /// Does it hold a repository?
    pub has_repo: bool,
    /// The configured remote URL, if a repository exists and has one.
    pub remote_url: Option<String>,
    /// The branch name, if a repository exists.
    pub branch: Option<String>,
    /// Working-tree files differing from the branch tip's snapshot.
    pub modified: usize,
    /// Working-tree files the branch tip does not record.
    pub untracked: usize,
    /// Per tracked entry, in configured order.
    pub entries: Vec<EntryStatus>,
}

/// The status workflow: report the mirror's existence, remote and branch,
/// the working tree's divergence from the last commit, and each tracked
/// entry's state. Absence (no folder, no repository, no commit) is rendered
/// as status, never as an error.
pub fn list_dotfiles(
    entries: &Vec<TrackedEntry>,
    live: &FileSystem,
    mirror: &MirrorRepo,
    branch: &String,
) -> (r: StatusReport)
    requires
        live.wf(),
        mirror.wf(),
    ensures
        r.folder_exists == mirror.folder_exists,
        r.has_repo == mirror.has_repo,
        match r.remote_url {
            Some(u) => mirror@.remote_url == Some(u@),
            None => mirror@.remote_url is None,
        },
        match r.branch {
            Some(b) => mirror.has_repo && b@ == branch@,
            None => !mirror.has_repo,
        },
        ({
            let tip = if mirror@.history.len() > 0 {
                Some(mirror@.history.last())
            } else {
                None
            };
            (r.modified as nat, r.untracked as nat) == spec_wt_counts(mirror.files.entries@, tip)
        }),
        r.entries@.len() == entries@.len(),
        forall|i: int|
            0 <= i < entries@.len() ==> r.entries@[i] == spec_entry_status(
                entries@[i],
                live@,
                mirror@.files,
            ),
{
    let ghost tip_spec = if mirror@.history.len() > 0 {
        Some(mirror@.history.last())
    } else {
        None
    };
    let tip: Option<&Tree> = if mirror.history.len() > 0 {
        let t = &mirror.history[mirror.history.len() - 1];
        proof {
            assert(mirror@.history.last() == t@);
        }
        Some(t)
    } else {
        None
    };
    let wt_n = mirror.files.entries.len();
    let mut modified: usize = 0;
    let mut untracked: usize = 0;
    let mut i: usize = 0;
    while i < wt_n
        invariant
            wt_n == mirror.files.entries@.len(),
            i <= wt_n,
            mirror.wf(),
            match tip {
                Some(t) => tip_spec == Some(t@) && t.wf(),
                None => tip_spec is None,
            },
            (modified as nat, untracked as nat) == spec_wt_counts(
                mirror.files.entries@.take(i as int),
                tip_spec,
            ),
        decreases wt_n - i,
    {
        let ghost pre = mirror.files.entries@.take(i as int);
        proof {
            assert(mirror.files.entries@.take(i as int + 1).drop_last() =~= pre);
            assert(mirror.files.entries@.take(i as int + 1).last() == mirror.files.entries@[i as int]);
            lemma_wt_counts_bound(pre, tip_spec);
        }
        let e = &mirror.files.entries[i];
        match tip {
            None => {
                untracked += 1;
            },
            Some(t) => {
                match t.lookup(&e.path) {
                    None => {
                        untracked += 1;
                    },
                    Some(c) => {
                        if !crate::fsmodel::bytes_eq(c, &e.data.content) {
                            modified += 1;
                        }
                    },
                }
            },
        }
        i += 1;
    }
    proof {
        assert(mirror.files.entries@.take(wt_n as int) =~= mirror.files.entries@);
    }
    let n = entries.len();
    let mut statuses: Vec<EntryStatus> = Vec::new();
    let mut j: usize = 0;
    while j < n
        invariant
            n == entries@.len(),
            j <= n,
            live.wf(),
            mirror.wf(),
            statuses@.len() == j,
            forall|k: int|
                0 <= k < j ==> statuses@[k] == spec_entry_status(entries@[k], live@, mirror@.files),
        decreases n - j,
    {
        let e = &entries[j];
        let st = match live.lookup(&e.live_path) {
            None => EntryStatus::SourceMissing,
            Some(d) => {
                let src_meta = FileMeta { size: d.content.len(), mtime: d.mtime };
                let dst_meta: Option<FileMeta> = match mirror.files.lookup(&e.file_name) {
                    Some(x) => Some(FileMeta { size: x.content.len(), mtime: x.mtime }),
                    None => None,
                };
                match needs_sync(&src_meta, dst_meta.as_ref(), Direction::Backup) {
                    ChangeVerdict::Missing => EntryStatus::NotBackedUp,
                    ChangeVerdict::Stale => EntryStatus::Modified,
                    ChangeVerdict::UpToDate => EntryStatus::Synced,
                }
            },
        };
        statuses.push(st);
        j += 1;
    }
    let remote_url = match &mirror.remote_url {
        Some(u) => Some(u.clone()),
        None => None,
    };
    let branch_out = if mirror.has_repo {
        Some(branch.clone())
    } else {
        None
    };
    StatusReport {
        folder_exists: mirror.folder_exists,
        has_repo: mirror.has_repo,
        remote_url,
        branch: branch_out,
        modified,
        untracked,
        entries: statuses,
    }
}

} // verus!
