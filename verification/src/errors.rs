//! Error taxonomy. Every failure a workflow can surface is one of these;
//! the binary around the library prints them and exits non-zero.

use vstd::prelude::*;

verus! {

/// Failures while locating, reading or understanding the configuration.
#[derive(Clone, Debug)]
pub enum ConfigError {
    /// A home-directory shorthand could not be expanded; carries the path
    /// as the user wrote it.
    PathExpansion(String),
    /// The configuration text is not valid TOML, or a required key
    /// (mirror folder, remote URL) is absent.
    Parse,
    /// No configuration file exists at any recognized location.
    NotFound,
}

/// Failures of the mirror repository's version-control operations.
#[derive(Clone, Copy, PartialEq, Eq, Structural, Debug)]
pub enum GitError {
    /// No committer name or email is configured; checked before any commit
    /// is attempted, never auto-filled.
    IdentityMissing,
    /// The transport could not authenticate. Raised by the binary when the
    /// credential exchange fails; never retried.
    Auth,
    /// The transport failed below authentication (unreachable host, broken
    /// connection). Never retried.
    Network,
    /// Local and remote histories have diverged, or the local branch is
    /// unborn while the remote has commits; never reconciled automatically.
    NonFastForward,
}

/// Any failure a workflow surfaces to the caller.
#[derive(Clone, Debug)]
pub enum SydError {
    /// The configuration is unusable.
    Config(ConfigError),
    /// A version-control operation failed.
    Git(GitError),
    /// A filesystem operation failed; carries a short description.
    Io(String),
    /// After a copy, the destination is absent or its size differs from the
    /// source: the copy is corrupt or was interrupted.
    Verification,
}

} // verus!
