//! The library's guarantees that relate several operations, stated and
//! proved over the same spec functions the operations' contracts use.

use vstd::prelude::*;
use crate::config::TrackedEntry;
use crate::detect::ChangeVerdict;
use crate::detect::Direction;
use crate::detect::FileMeta;
use crate::detect::spec_needs_sync;
use crate::detect::spec_verdict;
use crate::errors::GitError;
use crate::fsmodel::FileDataView;
use crate::fsmodel::snapshot_of;
use crate::repo::HistoryView;
use crate::repo::MirrorRepoView;
use crate::repo::is_prefix_of;
use crate::repo::spec_commit;
use crate::repo::spec_pull;
use crate::sync::spec_backup;
use crate::sync::spec_backup_pass;
use crate::sync::spec_restore_pass;

verus! {

/// A pair whose destination is absent is always classified `Missing`, in
/// either direction.
pub proof fn lemma_missing_destination_verdict(source: FileMeta, direction: Direction)
    ensures
        spec_needs_sync(source, None, direction) == ChangeVerdict::Missing,
{
}

/// A pair with equal sizes and equal modification times is always
/// classified `UpToDate`, in either direction, so no copy occurs.
pub proof fn lemma_equal_pair_up_to_date(source: FileMeta, dest: FileMeta, direction: Direction)
    requires
        source.size == dest.size,
        source.mtime == dest.mtime,
    ensures
        spec_needs_sync(source, Some(dest), direction) == ChangeVerdict::UpToDate,
{
}

/// A backup pass never touches a mirror name that no entry is mirrored
/// under.
pub proof fn lemma_backup_pass_frame(
    entries: Seq<TrackedEntry>,
    live: Map<Seq<char>, FileDataView>,
    mirror: Map<Seq<char>, FileDataView>,
    now: u64,
    k: Seq<char>,
)
    requires
        forall|j: int| 0 <= j < entries.len() ==> (#[trigger] entries[j]).file_name@ != k,
    ensures
        ({
            let (fm, c) = spec_backup_pass(entries, live, mirror, now);
            &&& fm.contains_key(k) == mirror.contains_key(k)
            &&& mirror.contains_key(k) ==> fm[k] == mirror[k]
        }),
    decreases entries.len(),
{
    if entries.len() > 0 {
        lemma_backup_pass_frame(entries.drop_last(), live, mirror, now, k);
    }
}

/// A backup pass always copies an entry whose live file exists but whose
/// mirror copy is absent: afterwards the mirror holds exactly the live
/// bytes, stamped with the pass's timestamp, and the pass reports a change.
/// (Requires the entry's mirror name to be unique among the entries, since
/// entries sharing a name overwrite one another.)
pub proof fn lemma_backup_copies_missing(
    entries: Seq<TrackedEntry>,
    live: Map<Seq<char>, FileDataView>,
    mirror: Map<Seq<char>, FileDataView>,
    now: u64,
    i: int,
)
    requires
        0 <= i < entries.len(),
        live.contains_key(entries[i].live_path@),
        !mirror.contains_key(entries[i].file_name@),
        forall|j: int|
            0 <= j < entries.len() && j != i ==> (#[trigger] entries[j]).file_name@
                != entries[i].file_name@,
    ensures
        ({
            let (fm, c) = spec_backup_pass(entries, live, mirror, now);
            &&& fm.contains_key(entries[i].file_name@)
            &&& fm[entries[i].file_name@] == (FileDataView {
                content: live[entries[i].live_path@].content,
                mtime: now,
            })
            &&& c
        }),
    decreases entries.len(),
{
    let e = entries[i];
    if i == entries.len() - 1 {
        assert forall|j: int| 0 <= j < entries.drop_last().len() implies (#[trigger] entries.drop_last()[j]).file_name@
            != e.file_name@ by {
            assert(entries.drop_last()[j] == entries[j]);
        }
        lemma_backup_pass_frame(entries.drop_last(), live, mirror, now, e.file_name@);
    } else {
        assert forall|j: int| 0 <= j < entries.drop_last().len() && j != i implies (#[trigger] entries.drop_last()[j]).file_name@
            != entries.drop_last()[i].file_name@ by {
            assert(entries.drop_last()[j] == entries[j]);
        }
        lemma_backup_copies_missing(entries.drop_last(), live, mirror, now, i);
        assert(entries.last().file_name@ != e.file_name@);
    }
}

/// A restore pass never touches a live path that no entry lives at.
pub proof fn lemma_restore_pass_frame(
    entries: Seq<TrackedEntry>,
    mirror: Map<Seq<char>, FileDataView>,
    live: Map<Seq<char>, FileDataView>,
    now: u64,
    k: Seq<char>,
)
    requires
        forall|j: int| 0 <= j < entries.len() ==> (#[trigger] entries[j]).live_path@ != k,
    ensures
        ({
            let (lm, c) = spec_restore_pass(entries, mirror, live, now);
            &&& lm.contains_key(k) == live.contains_key(k)
            &&& live.contains_key(k) ==> lm[k] == live[k]
        }),
    decreases entries.len(),
{
    if entries.len() > 0 {
        lemma_restore_pass_frame(entries.drop_last(), mirror, live, now, k);
    }
}

/// A restore pass always copies an entry whose mirror copy exists but whose
/// live file is absent: afterwards the live location holds exactly the
/// mirror bytes, stamped with the pass's timestamp, and the pass reports a
/// change. (Requires the entry's live path to be unique among the entries.)
pub proof fn lemma_restore_copies_missing(
    entries: Seq<TrackedEntry>,
    mirror: Map<Seq<char>, FileDataView>,
    live: Map<Seq<char>, FileDataView>,
    now: u64,
    i: int,
)
    requires
        0 <= i < entries.len(),
        mirror.contains_key(entries[i].file_name@),
        !live.contains_key(entries[i].live_path@),
        forall|j: int|
            0 <= j < entries.len() && j != i ==> (#[trigger] entries[j]).live_path@
                != entries[i].live_path@,
    ensures
        ({
            let (lm, c) = spec_restore_pass(entries, mirror, live, now);
            &&& lm.contains_key(entries[i].live_path@)
            &&& lm[entries[i].live_path@] == (FileDataView {
                content: mirror[entries[i].file_name@].content,
                mtime: now,
            })
            &&& c
        }),
    decreases entries.len(),
{
    let e = entries[i];
    if i == entries.len() - 1 {
        assert forall|j: int| 0 <= j < entries.drop_last().len() implies (#[trigger] entries.drop_last()[j]).live_path@
            != e.live_path@ by {
            assert(entries.drop_last()[j] == entries[j]);
        }
        lemma_restore_pass_frame(entries.drop_last(), mirror, live, now, e.live_path@);
    } else {
        assert forall|j: int| 0 <= j < entries.drop_last().len() && j != i implies (#[trigger] entries.drop_last()[j]).live_path@
            != entries.drop_last()[i].live_path@ by {
            assert(entries.drop_last()[j] == entries[j]);
        }
        lemma_restore_copies_missing(entries.drop_last(), mirror, live, now, i);
        assert(entries.last().live_path@ != e.live_path@);
    }
}

/// When every present live file is already up to date against the mirror, a
/// backup pass copies nothing and changes nothing.
pub proof fn lemma_backup_pass_no_change(
    entries: Seq<TrackedEntry>,
    live: Map<Seq<char>, FileDataView>,
    mirror: Map<Seq<char>, FileDataView>,
    now: u64,
)
    requires
        forall|i: int|
            0 <= i < entries.len() ==> live.contains_key((#[trigger] entries[i]).live_path@)
                ==> spec_verdict(
                live[entries[i].live_path@],
                mirror.index_opt(entries[i].file_name@),
                Direction::Backup,
            ) == ChangeVerdict::UpToDate,
    ensures
        spec_backup_pass(entries, live, mirror, now) == (mirror, false),
    decreases entries.len(),
{
    if entries.len() > 0 {
        lemma_backup_pass_no_change(entries.drop_last(), live, mirror, now);
    }
}

/// When every mirrored entry is already up to date against the live files,
/// a restore pass copies nothing and changes nothing.
pub proof fn lemma_restore_pass_no_change(
    entries: Seq<TrackedEntry>,
    mirror: Map<Seq<char>, FileDataView>,
    live: Map<Seq<char>, FileDataView>,
    now: u64,
)
    requires
        forall|i: int|
            0 <= i < entries.len() ==> mirror.contains_key((#[trigger] entries[i]).file_name@)
                ==> spec_verdict(
                mirror[entries[i].file_name@],
                live.index_opt(entries[i].live_path@),
                Direction::Restore,
            ) == ChangeVerdict::UpToDate,
    ensures
        spec_restore_pass(entries, mirror, live, now) == (live, false),
    decreases entries.len(),
{
    if entries.len() > 0 {
        lemma_restore_pass_no_change(entries.drop_last(), mirror, live, now);
    }
}

/// After a backup pass whose timestamp is current (no live file is newer
/// than `now`), every entry with a present live file has a mirror copy of
/// equal size that is at least as new — whether the pass copied it or found
/// it already up to date. (Mirror names must be unique among the entries.)
pub proof fn lemma_backup_pass_synced(
    entries: Seq<TrackedEntry>,
    live: Map<Seq<char>, FileDataView>,
    mirror: Map<Seq<char>, FileDataView>,
    now: u64,
)
    requires
        forall|i: int, j: int|
            0 <= i < j < entries.len() ==> (#[trigger] entries[i]).file_name@ != (
            #[trigger] entries[j]).file_name@,
        forall|i: int|
            0 <= i < entries.len() ==> live.contains_key((#[trigger] entries[i]).live_path@)
                ==> live[entries[i].live_path@].mtime <= now,
    ensures
        ({
            let (fm, c) = spec_backup_pass(entries, live, mirror, now);
            forall|i: int|
                0 <= i < entries.len() ==> live.contains_key((#[trigger] entries[i]).live_path@)
                    ==> {
                    let d = live[entries[i].live_path@];
                    &&& fm.contains_key(entries[i].file_name@)
                    &&& fm[entries[i].file_name@].content.len() == d.content.len()
                    &&& fm[entries[i].file_name@].mtime >= d.mtime
                }
        }),
    decreases entries.len(),
{
    if entries.len() > 0 {
        lemma_backup_pass_synced(entries.drop_last(), live, mirror, now);
        let (fm, c) = spec_backup_pass(entries, live, mirror, now);
        let (m1, c1) = spec_backup_pass(entries.drop_last(), live, mirror, now);
        assert forall|i: int|
            0 <= i < entries.len() && live.contains_key(
                (#[trigger] entries[i]).live_path@,
            ) implies {
            let d = live[entries[i].live_path@];
            &&& fm.contains_key(entries[i].file_name@)
            &&& fm[entries[i].file_name@].content.len() == d.content.len()
            &&& fm[entries[i].file_name@].mtime >= d.mtime
        } by {
            let e = entries.last();
            if i < entries.len() - 1 {
                assert(entries.drop_last()[i] == entries[i]);
                if live.contains_key(e.live_path@) && spec_verdict(
                    live[e.live_path@],
                    m1.index_opt(e.file_name@),
                    Direction::Backup,
                ) != ChangeVerdict::UpToDate {
                    assert(e.file_name@ != entries[i].file_name@);
                }
            }
        }
    }
}

/// Running backup twice with no intervening live-file changes: when the
/// first run succeeds, the second reports nothing to do — it copies
/// nothing, creates zero commits, and leaves the mirror and remote exactly
/// as the first run left them. Holds when no two entries share a mirror
/// name (entries sharing one overwrite each other on every run) and the
/// first run's timestamp is not before any live file's (time moves
/// forward).
pub proof fn lemma_backup_idempotent(
    entries: Seq<TrackedEntry>,
    live: Map<Seq<char>, FileDataView>,
    m: MirrorRepoView,
    remote: HistoryView,
    url: Seq<char>,
    now1: u64,
    now2: u64,
)
    requires
        forall|i: int, j: int|
            0 <= i < j < entries.len() ==> (#[trigger] entries[i]).file_name@ != (
            #[trigger] entries[j]).file_name@,
        forall|i: int|
            0 <= i < entries.len() ==> live.contains_key((#[trigger] entries[i]).live_path@)
                ==> live[entries[i].live_path@].mtime <= now1,
        spec_backup(entries, live, m, remote, url, now1) is Ok,
    ensures
        ({
            let (m2, r2, _changed) = spec_backup(entries, live, m, remote, url, now1)->Ok_0;
            spec_backup(entries, live, m2, r2, url, now2) == Ok::<_, GitError>((m2, r2, false))
        }),
{
    let m1 = MirrorRepoView { folder_exists: true, has_repo: true, ..m };
    let (fm, changed) = spec_backup_pass(entries, live, m1.files, now1);
    lemma_backup_pass_synced(entries, live, m1.files, now1);
    let mid = MirrorRepoView { files: fm, ..m1 };
    let (m2, r2, _flag) = spec_backup(entries, live, m, remote, url, now1)->Ok_0;
    assert(m2.files == fm);
    assert(m2.folder_exists && m2.has_repo);
    assert forall|i: int|
        0 <= i < entries.len() && live.contains_key((#[trigger] entries[i]).live_path@) implies spec_verdict(
        live[entries[i].live_path@],
        fm.index_opt(entries[i].file_name@),
        Direction::Backup,
    ) == ChangeVerdict::UpToDate by {}
    lemma_backup_pass_no_change(entries, live, fm, now2);
    let m1b = MirrorRepoView { folder_exists: true, has_repo: true, ..m2 };
    assert(m1b =~= m2);
    assert(MirrorRepoView { files: fm, ..m1b } =~= m2);
}

/// Round trip: backing a live file up (into a mirror that does not hold it
/// yet) and then restoring into a live location where the file is absent
/// reproduces byte-identical content — and so equal size. (The entry's
/// mirror name and live path must each be unique among the entries.)
pub proof fn lemma_backup_restore_round_trip(
    entries: Seq<TrackedEntry>,
    live: Map<Seq<char>, FileDataView>,
    mirror: Map<Seq<char>, FileDataView>,
    live2: Map<Seq<char>, FileDataView>,
    now1: u64,
    now2: u64,
    i: int,
)
    requires
        0 <= i < entries.len(),
        live.contains_key(entries[i].live_path@),
        !mirror.contains_key(entries[i].file_name@),
        !live2.contains_key(entries[i].live_path@),
        forall|j: int|
            0 <= j < entries.len() && j != i ==> (#[trigger] entries[j]).file_name@
                != entries[i].file_name@,
        forall|j: int|
            0 <= j < entries.len() && j != i ==> (#[trigger] entries[j]).live_path@
                != entries[i].live_path@,
    ensures
        ({
            let (fm, _c1) = spec_backup_pass(entries, live, mirror, now1);
            let (lm, _c2) = spec_restore_pass(entries, fm, live2, now2);
            &&& lm.contains_key(entries[i].live_path@)
            &&& lm[entries[i].live_path@].content == live[entries[i].live_path@].content
            &&& lm[entries[i].live_path@].content.len() == live[entries[i].live_path@].content.len()
        }),
{
    lemma_backup_copies_missing(entries, live, mirror, now1, i);
    let (fm, _c1) = spec_backup_pass(entries, live, mirror, now1);
    lemma_restore_copies_missing(entries, fm, live2, now2, i);
}

/// Committing a staged working tree whose snapshot equals the branch tip's
/// creates no commit: the history — in particular its tip — is unchanged,
/// and the no-op is signalled.
pub proof fn lemma_commit_short_circuit(m: MirrorRepoView)
    requires
        m.history.len() > 0,
        m.history.last() == snapshot_of(m.files),
    ensures
        spec_commit(m) == (m, false),
{
}

/// The backup workflow creates no commit when the copy pass leaves the
/// working tree's snapshot equal to the branch tip's — even when copies ran
/// and wrote identical bytes (so the pass reports changes): the history
/// after the workflow is the history before it.
pub proof fn lemma_backup_no_commit_when_tree_unchanged(
    entries: Seq<TrackedEntry>,
    live: Map<Seq<char>, FileDataView>,
    m: MirrorRepoView,
    remote: HistoryView,
    url: Seq<char>,
    now: u64,
)
    requires
        m.has_identity,
        m.history.len() > 0,
        is_prefix_of(remote, m.history),
        ({
            let m1 = MirrorRepoView { folder_exists: true, has_repo: true, ..m };
            let (fm, c) = spec_backup_pass(entries, live, m1.files, now);
            snapshot_of(fm) == m.history.last()
        }),
    ensures
        spec_backup(entries, live, m, remote, url, now) is Ok,
        spec_backup(entries, live, m, remote, url, now)->Ok_0.0.history == m.history,
{
    let m1 = MirrorRepoView { folder_exists: true, has_repo: true, ..m };
    let (fm, c) = spec_backup_pass(entries, live, m1.files, now);
    let m2 = MirrorRepoView { files: fm, ..m1 };
    lemma_commit_short_circuit(m2);
}

/// Fast-forward-only restore, first half: when the remote history strictly
/// extends the local one, the fetch updates the local branch to the remote
/// history exactly.
pub proof fn lemma_pull_fast_forwards(m: MirrorRepoView, remote: HistoryView, now: u64)
    requires
        m.history.len() > 0,
        is_prefix_of(m.history, remote),
        remote.len() > m.history.len(),
    ensures
        spec_pull(m, remote, now) is Ok,
        spec_pull(m, remote, now)->Ok_0.0.history == remote,
{
    assert(!is_prefix_of(remote, m.history));
}

/// Fast-forward-only restore, second half: when the histories have
/// diverged — neither contains the other — the fetch fails as
/// non-fast-forward and (by `pull_from_remote`'s contract) leaves the local
/// state unchanged; no merge is ever attempted.
pub proof fn lemma_pull_rejects_divergence(m: MirrorRepoView, remote: HistoryView, now: u64)
    requires
        !is_prefix_of(m.history, remote),
        !is_prefix_of(remote, m.history),
    ensures
        spec_pull(m, remote, now) == Err::<(MirrorRepoView, crate::repo::FetchOutcome), _>(
            GitError::NonFastForward,
        ),
{
}

} // verus!
