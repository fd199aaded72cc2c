//! The mirror repository controller, over a plain model of the repository:
//! the mirror folder, its working tree, the single branch's history as a
//! sequence of snapshots, the remote named "origin", and whether a committer
//! identity is configured.
//!
//! Histories are linear: the tool itself never writes merge commits, and one
//! history descends from another exactly when it extends it. The functions
//! here decide and perform every state transition; the binary around the
//! library replays each transition onto the real repository.

use vstd::prelude::*;
use crate::errors::GitError;
use crate::errors::SydError;
use crate::fsmodel::FileDataView;
use crate::fsmodel::FileSystem;
use crate::fsmodel::Tree;
use crate::fsmodel::checkout_tree;
use crate::fsmodel::checkout_view;
use crate::fsmodel::snapshot_of;
use crate::fsmodel::tree_eq;
use crate::fsmodel::tree_of;
use crate::fsmodel::clone_tree;

verus! {

/// The on-disk state the tool reads and writes at the mirror directory.
#[derive(Clone, Debug)]
pub struct MirrorRepo {
    /// Does the mirror directory exist?
    pub folder_exists: bool,
    /// Does version-control metadata exist at the mirror directory?
    pub has_repo: bool,
    /// The working tree: the mirrored files, keyed by base name.
    pub files: FileSystem,
    /// The branch's commits, oldest first; each is a snapshot of the
    /// working tree at commit time. Empty while no commit exists (an
    /// unborn branch).
    pub history: Vec<Tree>,
    /// The URL of the remote named "origin", if configured.
    pub remote_url: Option<String>,
    /// Is a committer name and email configured?
    pub has_identity: bool,
}

/// A linear commit history: each snapshot maps file names to contents.
pub type HistoryView = Seq<Map<Seq<char>, Seq<u8>>>;

/// Mathematical value of a `MirrorRepo`.
#[verifier::ext_equal]
pub struct MirrorRepoView {
    pub folder_exists: bool,
    pub has_repo: bool,
    pub files: Map<Seq<char>, FileDataView>,
    pub history: HistoryView,
    pub remote_url: Option<Seq<char>>,
    pub has_identity: bool,
}

/// The snapshots a sequence of commits denotes.
pub open spec fn history_view(h: Seq<Tree>) -> HistoryView {
    Seq::new(h.len(), |i: int| h[i]@)
}

impl View for MirrorRepo {
    type V = MirrorRepoView;

    open spec fn view(&self) -> MirrorRepoView {
        MirrorRepoView {
            folder_exists: self.folder_exists,
            has_repo: self.has_repo,
            files: self.files@,
            history: history_view(self.history@),
            remote_url: match self.remote_url {
                Some(u) => Some(u@),
                None => None,
            },
            has_identity: self.has_identity,
        }
    }
}

impl MirrorRepo {
    /// The working tree's entry list and every snapshot are well formed,
    /// and the flags are consistent: files need a folder, a history and a
    /// remote need a repository.
    pub open spec fn wf(&self) -> bool {
        &&& self.files.wf()
        &&& forall|i: int| 0 <= i < self.history@.len() ==> (#[trigger] self.history@[i]).wf()
        &&& !self.folder_exists ==> !self.has_repo && self.files@ == Map::<
            Seq<char>,
            FileDataView,
        >::empty()
        &&& !self.has_repo ==> self.history@.len() == 0 && self.remote_url is None
    }

    /// The state before anything exists on disk: no folder, no repository.
    /// Whether an identity is configured is global to the machine, so the
    /// caller supplies it.
    pub fn absent(has_identity: bool) -> (r: MirrorRepo)
        ensures
            r.wf(),
            r@ == (MirrorRepoView {
                folder_exists: false,
                has_repo: false,
                files: Map::<Seq<char>, FileDataView>::empty(),
                history: Seq::empty(),
                remote_url: None,
                has_identity,
            }),
    {
        let r = MirrorRepo {
            folder_exists: false,
            has_repo: false,
            files: FileSystem::new(),
            history: Vec::new(),
            remote_url: None,
            has_identity,
        };
        proof {
            assert(history_view(r.history@) =~= Seq::empty());
            assert(r@ =~= (MirrorRepoView {
                folder_exists: false,
                has_repo: false,
                files: Map::<Seq<char>, FileDataView>::empty(),
                history: Seq::empty(),
                remote_url: None,
                has_identity,
            }));
        }
        r
    }
}

/// Initialize a repository at the mirror directory when none exists; safe
/// to call every run.
pub fn create_local_repo(m: &mut MirrorRepo)
    requires
        old(m).wf(),
        old(m).folder_exists,
    ensures
        final(m).wf(),
        final(m)@ == (MirrorRepoView { has_repo: true, ..old(m)@ }),
{
    m.has_repo = true;
    proof {
        assert(m@ =~= (MirrorRepoView { has_repo: true, ..old(m)@ }));
    }
}

/// Ensure the mirror directory exists with a repository in it, creating
/// either when absent. Returns whether a new repository was created.
pub fn create_backup_folder(m: &mut MirrorRepo) -> (created: bool)
    requires
        old(m).wf(),
    ensures
        final(m).wf(),
        final(m)@ == (MirrorRepoView { folder_exists: true, has_repo: true, ..old(m)@ }),
        created == !old(m).has_repo,
{
    let created = !m.has_repo;
    m.folder_exists = true;
    m.has_repo = true;
    proof {
        assert(m@ =~= (MirrorRepoView { folder_exists: true, has_repo: true, ..old(m)@ }));
    }
    created
}

/// Fail when no committer identity is configured; never invent one.
pub fn ensure_identity(m: &MirrorRepo) -> (r: Result<(), SydError>)
    ensures
        r is Ok <==> m.has_identity,
        r matches Err(e) ==> e matches SydError::Git(GitError::IdentityMissing),
{
    if m.has_identity {
        Ok(())
    } else {
        Err(SydError::Git(GitError::IdentityMissing))
    }
}

/// What configuring the remote did.
#[derive(Clone, Copy, PartialEq, Eq, Structural, Debug)]
pub enum RemoteAction {
    /// "origin" already pointed at the wanted URL; left alone.
    Kept,
    /// "origin" existed with another URL; removed and recreated.
    Replaced,
    /// "origin" did not exist; created.
    Created,
}

/// Make the remote named "origin" point at `url`: keep a matching remote,
/// replace a differing one, create a missing one.
pub fn configure_remote(m: &mut MirrorRepo, url: &String) -> (action: RemoteAction)
    requires
        old(m).wf(),
        old(m).has_repo,
    ensures
        final(m).wf(),
        final(m)@ == (MirrorRepoView { remote_url: Some(url@), ..old(m)@ }),
        action == match old(m)@.remote_url {
            Some(u) => if u == url@ {
                RemoteAction::Kept
            } else {
                RemoteAction::Replaced
            },
            None => RemoteAction::Created,
        },
{
    let action = match &m.remote_url {
        Some(u) => if *u == *url {
            RemoteAction::Kept
        } else {
            RemoteAction::Replaced
        },
        None => RemoteAction::Created,
    };
    m.remote_url = Some(url.clone());
    proof {
        assert(m@ =~= (MirrorRepoView { remote_url: Some(url@), ..old(m)@ }));
    }
    action
}

/// What committing the staged working tree does to the repository model:
/// when the staged snapshot equals the branch tip's, nothing (the no-op
/// signal, distinct from an error); otherwise the history grows by exactly
/// that snapshot — as a root commit when the branch was unborn, else as a
/// child of the tip.
pub open spec fn spec_commit(m: MirrorRepoView) -> (MirrorRepoView, bool) {
    let staged = snapshot_of(m.files);
    if m.history.len() > 0 && m.history.last() == staged {
        (m, false)
    } else {
        (MirrorRepoView { history: m.history.push(staged), ..m }, true)
    }
}

/// Stage every file of the working tree and commit the result unless it
/// equals the branch tip's snapshot. Returns whether a commit was created.
///
/// Staging captures the working tree exactly: a file removed from the
/// mirror folder is absent from the staged snapshot, so its removal is
/// recorded. (The backup workflow itself never removes mirror files, so
/// this matters only to outside edits of the mirror.)
pub fn commit_if_changed(m: &mut MirrorRepo) -> (committed: bool)
    requires
        old(m).wf(),
        old(m).has_repo,
        old(m).has_identity,
    ensures
        final(m).wf(),
        final(m)@ == spec_commit(old(m)@).0,
        committed == spec_commit(old(m)@).1,
{
    let staged = tree_of(&m.files);
    if m.history.len() > 0 {
        let tip = &m.history[m.history.len() - 1];
        proof {
            assert(old(m)@.history.last() == tip@);
        }
        if tree_eq(tip, &staged) {
            return false;
        }
    }
    m.history.push(staged);
    proof {
        assert(m@.history =~= old(m)@.history.push(snapshot_of(old(m)@.files)));
        assert(m@ =~= spec_commit(old(m)@).0);
    }
    true
}

/// Does one history begin with the other? In a linear world this is
/// exactly "the longer descends from the shorter".
pub open spec fn is_prefix_of(a: HistoryView, b: HistoryView) -> bool {
    a.len() <= b.len() && forall|i: int| 0 <= i < a.len() ==> a[i] == b[i]
}

/// Decide whether `a`'s snapshots begin `b`.
fn histories_prefix(a: &Vec<Tree>, b: &Vec<Tree>) -> (r: bool)
    requires
        forall|i: int| 0 <= i < a@.len() ==> (#[trigger] a@[i]).wf(),
        forall|i: int| 0 <= i < b@.len() ==> (#[trigger] b@[i]).wf(),
    ensures
        r == is_prefix_of(history_view(a@), history_view(b@)),
{
    if a.len() > b.len() {
        return false;
    }
    let n = a.len();
    let mut i: usize = 0;
    while i < n
        invariant
            n == a@.len(),
            n <= b@.len(),
            i <= n,
            forall|j: int| 0 <= j < a@.len() ==> (#[trigger] a@[j]).wf(),
            forall|j: int| 0 <= j < b@.len() ==> (#[trigger] b@[j]).wf(),
            forall|j: int| 0 <= j < i ==> a@[j]@ == b@[j]@,
        decreases n - i,
    {
        if !tree_eq(&a[i], &b[i]) {
            assert(history_view(a@)[i as int] != history_view(b@)[i as int]);
            return false;
        }
        i += 1;
    }
    assert forall|j: int| 0 <= j < history_view(a@).len() implies history_view(a@)[j]
        == history_view(b@)[j] by {}
    true
}

/// Copy of a commit sequence with the same snapshots.
fn clone_history(h: &Vec<Tree>) -> (r: Vec<Tree>)
    requires
        forall|i: int| 0 <= i < h@.len() ==> (#[trigger] h@[i]).wf(),
    ensures
        history_view(r@) == history_view(h@),
        forall|i: int| 0 <= i < r@.len() ==> (#[trigger] r@[i]).wf(),
{
    let n = h.len();
    let mut out: Vec<Tree> = Vec::new();
    let mut i: usize = 0;
    while i < n
        invariant
            n == h@.len(),
            i <= n,
            out@.len() == i,
            forall|j: int| 0 <= j < h@.len() ==> (#[trigger] h@[j]).wf(),
            forall|j: int| 0 <= j < i ==> (#[trigger] out@[j])@ == h@[j]@ && out@[j].wf(),
        decreases n - i,
    {
        out.push(clone_tree(&h[i]));
        i += 1;
    }
    proof {
        assert(history_view(out@) =~= history_view(h@));
    }
    out
}

/// How a successful fetch left the local branch.
#[derive(Clone, Copy, PartialEq, Eq, Structural, Debug)]
pub enum FetchOutcome {
    /// The local branch already contains the remote history.
    UpToDate,
    /// The local branch was moved forward to the remote tip and the
    /// working tree was updated to match.
    FastForwarded,
}

/// What fetching `remote` and applying merge analysis does to the local
/// repository: when the remote history is contained in the local one,
/// nothing; when the local branch is born and the remote strictly extends
/// it, the branch moves to the remote tip and a forced checkout rewrites
/// the working tree (every file stamped `now`); any other relation —
/// diverged histories, or an unborn local branch against a non-empty
/// remote — is never merged and fails.
pub open spec fn spec_pull(m: MirrorRepoView, remote: HistoryView, now: u64) -> Result<
    (MirrorRepoView, FetchOutcome),
    GitError,
> {
    if is_prefix_of(remote, m.history) {
        Ok((m, FetchOutcome::UpToDate))
    } else if m.history.len() > 0 && is_prefix_of(m.history, remote) {
        Ok(
            (
                MirrorRepoView {
                    history: remote,
                    files: checkout_view(remote.last(), now),
                    ..m
                },
                FetchOutcome::FastForwarded,
            ),
        )
    } else {
        Err(GitError::NonFastForward)
    }
}

/// The remote repository's branch history, as fetched.
#[derive(Clone, Debug)]
pub struct RemoteRepo {
    pub history: Vec<Tree>,
}

impl RemoteRepo {
    /// Every snapshot is well formed.
    pub open spec fn wf(&self) -> bool {
        forall|i: int| 0 <= i < self.history@.len() ==> (#[trigger] self.history@[i]).wf()
    }
}

impl View for RemoteRepo {
    type V = HistoryView;

    open spec fn view(&self) -> HistoryView {
        history_view(self.history@)
    }
}

/// Fetch the remote branch and fast-forward the local one onto it when the
/// local history is a strict prefix of the remote's; leave everything
/// unchanged when the local branch already contains the remote history;
/// fail without touching anything otherwise.
pub fn pull_from_remote(m: &mut MirrorRepo, remote: &RemoteRepo, now: u64) -> (r: Result<
    FetchOutcome,
    SydError,
>)
    requires
        old(m).wf(),
        remote.wf(),
        old(m).has_repo,
    ensures
        final(m).wf(),
        match r {
            Ok(outcome) => spec_pull(old(m)@, remote@, now) == Ok::<_, GitError>(
                (final(m)@, outcome),
            ),
            Err(e) => {
                &&& e matches SydError::Git(g) && spec_pull(old(m)@, remote@, now) == Err::<
                    (MirrorRepoView, FetchOutcome),
                    _,
                >(g)
                &&& final(m)@ == old(m)@
            },
        },
{
    if histories_prefix(&remote.history, &m.history) {
        return Ok(FetchOutcome::UpToDate);
    }
    if m.history.len() > 0 && histories_prefix(&m.history, &remote.history) {
        let new_history = clone_history(&remote.history);
        let tip = &remote.history[remote.history.len() - 1];
        proof {
            assert(remote@.last() == tip@);
        }
        let new_files = checkout_tree(tip, now);
        m.history = new_history;
        m.files = new_files;
        proof {
            assert(m@ =~= (MirrorRepoView {
                history: remote@,
                files: checkout_view(remote@.last(), now),
                ..old(m)@
            }));
        }
        return Ok(FetchOutcome::FastForwarded);
    }
    Err(SydError::Git(GitError::NonFastForward))
}

/// How `clone_if_absent` obtained the mirror.
#[derive(Clone, Copy, PartialEq, Eq, Structural, Debug)]
pub enum CloneOutcome {
    /// No repository existed: a full clone of the remote was made.
    Cloned,
    /// A repository existed: it was fetched and analysed instead.
    Fetched(FetchOutcome),
}

/// What cloning-or-fetching does: with no repository at the mirror
/// directory, a full clone materializes the remote history, its tip checked
/// out as the working tree (every file stamped `now`) and "origin" set to
/// `url`; with one, the fetch path of `spec_pull` applies.
pub open spec fn spec_clone_if_absent(
    m: MirrorRepoView,
    url: Seq<char>,
    remote: HistoryView,
    now: u64,
) -> Result<(MirrorRepoView, CloneOutcome), GitError> {
    if !m.has_repo {
        Ok(
            (
                MirrorRepoView {
                    folder_exists: true,
                    has_repo: true,
                    files: if remote.len() > 0 {
                        checkout_view(remote.last(), now)
                    } else {
                        Map::empty()
                    },
                    history: remote,
                    remote_url: Some(url),
                    has_identity: m.has_identity,
                },
                CloneOutcome::Cloned,
            ),
        )
    } else {
        match spec_pull(m, remote, now) {
            Ok((m2, o)) => Ok((m2, CloneOutcome::Fetched(o))),
            Err(e) => Err(e),
        }
    }
}

/// Clone the remote into the mirror directory when no repository exists
/// there; otherwise fetch and fast-forward. Never creates new commits.
pub fn clone_if_absent(m: &mut MirrorRepo, url: &String, remote: &RemoteRepo, now: u64) -> (r:
    Result<CloneOutcome, SydError>)
    requires
        old(m).wf(),
        remote.wf(),
    ensures
        final(m).wf(),
        match r {
            Ok(outcome) => spec_clone_if_absent(old(m)@, url@, remote@, now) == Ok::<_, GitError>(
                (final(m)@, outcome),
            ),
            Err(e) => {
                &&& e matches SydError::Git(g) && spec_clone_if_absent(old(m)@, url@, remote@, now)
                    == Err::<(MirrorRepoView, CloneOutcome), _>(g)
                &&& final(m)@ == old(m)@
            },
        },
{
    if !m.has_repo {
        let new_history = clone_history(&remote.history);
        let new_files = if remote.history.len() > 0 {
            let tip = &remote.history[remote.history.len() - 1];
            proof {
                assert(remote@.last() == tip@);
            }
            checkout_tree(tip, now)
        } else {
            FileSystem::new()
        };
        m.folder_exists = true;
        m.has_repo = true;
        m.files = new_files;
        m.history = new_history;
        m.remote_url = Some(url.clone());
        proof {
            let target = spec_clone_if_absent(old(m)@, url@, remote@, now);
            assert(m@ =~= target->Ok_0.0);
        }
        return Ok(CloneOutcome::Cloned);
    }
    match pull_from_remote(m, remote, now) {
        Ok(o) => Ok(CloneOutcome::Fetched(o)),
        Err(e) => Err(e),
    }
}

/// What the commit-and-publish sequence does: with no committer identity it
/// fails before touching anything; otherwise the working tree is staged and
/// committed unless unchanged, "origin" is pointed at `url`, and the local
/// branch is pushed — which the remote accepts exactly when its history is
/// contained in the local one, and rejects as non-fast-forward otherwise
/// (the commit and remote configuration persist either way). On success the
/// remote history equals the local one, and the returned flag says whether
/// a commit was created.
pub open spec fn spec_push(m: MirrorRepoView, remote: HistoryView, url: Seq<char>) -> Result<
    (MirrorRepoView, HistoryView, bool),
    GitError,
> {
    if !m.has_identity {
        Err(GitError::IdentityMissing)
    } else {
        let (m2, committed) = spec_commit(m);
        let m3 = MirrorRepoView { remote_url: Some(url), ..m2 };
        if is_prefix_of(remote, m3.history) {
            Ok((m3, m3.history, committed))
        } else {
            Err(GitError::NonFastForward)
        }
    }
}

/// Commit the working tree (when changed) and publish the branch: identity
/// check, stage, commit-if-changed, remote configuration, push. Transport
/// failures of the real push are the caller's to report (as authentication
/// or network errors); the model records what the remote holds once it
/// accepts the push, and that it rejects a push whose history does not
/// contain its own.
pub fn push_to_git(m: &mut MirrorRepo, remote: &mut RemoteRepo, url: &String) -> (r: Result<
    bool,
    SydError,
>)
    requires
        old(m).wf(),
        old(remote).wf(),
        old(m).has_repo,
    ensures
        final(m).wf(),
        final(remote).wf(),
        match r {
            Ok(committed) => spec_push(old(m)@, old(remote)@, url@) == Ok::<_, GitError>(
                (final(m)@, final(remote)@, committed),
            ),
            Err(e) => match e {
                SydError::Git(g) => {
                    &&& spec_push(old(m)@, old(remote)@, url@) == Err::<
                        (MirrorRepoView, HistoryView, bool),
                        _,
                    >(g)
                    &&& final(remote)@ == old(remote)@
                    &&& (g == GitError::IdentityMissing ==> final(m)@ == old(m)@)
                    &&& (g == GitError::NonFastForward ==> final(m)@ == (MirrorRepoView {
                        remote_url: Some(url@),
                        ..spec_commit(old(m)@).0
                    }))
                },
                _ => false,
            },
        },
{
    if !m.has_identity {
        return Err(SydError::Git(GitError::IdentityMissing));
    }
    let committed = commit_if_changed(m);
    configure_remote(m, url);
    if !histories_prefix(&remote.history, &m.history) {
        return Err(SydError::Git(GitError::NonFastForward));
    }
    remote.history = clone_history(&m.history);
    proof {
        let (m2, c) = spec_commit(old(m)@);
        let m3 = MirrorRepoView { remote_url: Some(url@), ..m2 };
        assert(m@ =~= m3);
    }
    Ok(committed)
}

} // verus!
