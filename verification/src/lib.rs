//! Verified synchronization core for a dotfile backup tool.
//!
//! Tracked files are mirrored into a version-controlled folder and published
//! to a remote repository. The library models the filesystem and the mirror
//! repository as plain data and proves the decision logic: when a file needs
//! to be copied, when a commit is created, when a fetch may fast-forward,
//! and how the backup, restore and status workflows transform that state.

mod config;
mod detect;
mod errors;
mod fsmodel;
mod laws;
mod paths;
mod repo;
mod sync;

pub use config::Config;
pub use config::FileConfig;
pub use config::GitConfig;
pub use config::TrackedEntry;
pub use config::resolve_entries;
pub use config::toml_str_field;
pub use config::toml_str_list_field;
pub use detect::ChangeVerdict;
pub use detect::Direction;
pub use detect::FileMeta;
pub use detect::needs_sync;
pub use detect::spec_needs_sync;
pub use detect::spec_verdict;
pub use detect::verify_copy;
pub use errors::ConfigError;
pub use errors::GitError;
pub use errors::SydError;
pub use fsmodel::FileData;
pub use fsmodel::FileDataView;
pub use fsmodel::FileSystem;
pub use fsmodel::FsEntry;
pub use fsmodel::Tree;
pub use fsmodel::TreeEntry;
pub use fsmodel::bytes_eq;
pub use fsmodel::checkout_tree;
pub use fsmodel::checkout_view;
pub use fsmodel::clone_bytes;
pub use fsmodel::snapshot_of;
pub use fsmodel::tree_eq;
pub use fsmodel::tree_of;
pub use laws::lemma_backup_copies_missing;
pub use laws::lemma_backup_idempotent;
pub use laws::lemma_backup_no_commit_when_tree_unchanged;
pub use laws::lemma_backup_pass_frame;
pub use laws::lemma_backup_restore_round_trip;
pub use laws::lemma_backup_pass_no_change;
pub use laws::lemma_backup_pass_synced;
pub use laws::lemma_commit_short_circuit;
pub use laws::lemma_equal_pair_up_to_date;
pub use laws::lemma_missing_destination_verdict;
pub use laws::lemma_pull_fast_forwards;
pub use laws::lemma_pull_rejects_divergence;
pub use laws::lemma_restore_copies_missing;
pub use laws::lemma_restore_pass_frame;
pub use laws::lemma_restore_pass_no_change;
pub use paths::base_name;
pub use paths::file_name_of;
pub use paths::join_path;
pub use paths::resolve;
pub use paths::spec_file_name;
pub use paths::tilde_prefixed;
pub use repo::CloneOutcome;
pub use repo::FetchOutcome;
pub use repo::HistoryView;
pub use repo::MirrorRepo;
pub use repo::MirrorRepoView;
pub use repo::RemoteAction;
pub use repo::RemoteRepo;
pub use repo::clone_if_absent;
pub use repo::commit_if_changed;
pub use repo::configure_remote;
pub use repo::create_backup_folder;
pub use repo::create_local_repo;
pub use repo::ensure_identity;
pub use repo::history_view;
pub use repo::is_prefix_of;
pub use repo::pull_from_remote;
pub use repo::push_to_git;
pub use repo::spec_clone_if_absent;
pub use repo::spec_commit;
pub use repo::spec_pull;
pub use repo::spec_push;
pub use sync::EntryStatus;
pub use sync::StatusReport;
pub use sync::backup;
pub use sync::backup_dotfiles;
pub use sync::list_dotfiles;
pub use sync::restore;
pub use sync::restore_dotfiles;
pub use sync::spec_backup;
pub use sync::spec_backup_pass;
pub use sync::spec_entry_status;
pub use sync::spec_restore;
pub use sync::spec_restore_pass;
pub use sync::spec_wt_counts;
