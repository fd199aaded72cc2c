//! Change detection: classify a (source, destination) file pair as needing a
//! copy or being in sync, from existence, size and modification time alone.

use vstd::prelude::*;
use crate::errors::SydError;

verus! {

/// The metadata signals the detector inspects for one file.
#[derive(Clone, Copy, PartialEq, Eq, Structural, Debug)]
pub struct FileMeta {
    /// Length of the file in bytes.
    pub size: usize,
    /// Modification time, in seconds since some fixed epoch.
    pub mtime: u64,
}

/// Which way a copy would flow. Backup copies live files into the mirror;
/// restore copies mirror files back to their live locations.
#[derive(Clone, Copy, PartialEq, Eq, Structural, Debug)]
pub enum Direction {
    Backup,
    Restore,
}

/// Verdict on one file pair.
#[derive(Clone, Copy, PartialEq, Eq, Structural, Debug)]
pub enum ChangeVerdict {
    /// The destination does not exist; a copy is always required.
    Missing,
    /// Both exist but differ (by size, or by the timestamp rule of the
    /// direction); a copy is required.
    Stale,
    /// Both exist with equal size and no timestamp drift; no copy occurs.
    UpToDate,
}

/// What `needs_sync` returns, as a function of the inspected signals.
///
/// A missing destination is `Missing`. Otherwise a size mismatch is `Stale`.
/// Otherwise, in the backup direction the pair is `Stale` exactly when the
/// source is strictly newer than the destination; in the restore direction
/// any timestamp inequality is `Stale`. Everything else is `UpToDate`.
pub open spec fn spec_needs_sync(
    source: FileMeta,
    dest: Option<FileMeta>,
    direction: Direction,
) -> ChangeVerdict {
    match dest {
        None => ChangeVerdict::Missing,
        Some(d) => if source.size != d.size {
            ChangeVerdict::Stale
        } else {
            match direction {
                Direction::Backup => if source.mtime > d.mtime {
                    ChangeVerdict::Stale
                } else {
                    ChangeVerdict::UpToDate
                },
                Direction::Restore => if source.mtime != d.mtime {
                    ChangeVerdict::Stale
                } else {
                    ChangeVerdict::UpToDate
                },
            }
        },
    }
}

/// The verdict on a file pair given by the files' full modelled state: the
/// size signal is the content's length. This is `spec_needs_sync` lifted to
/// the filesystem model.
pub open spec fn spec_verdict(
    source: crate::fsmodel::FileDataView,
    dest: Option<crate::fsmodel::FileDataView>,
    direction: Direction,
) -> ChangeVerdict {
    match dest {
        None => ChangeVerdict::Missing,
        Some(d) => if source.content.len() != d.content.len() {
            ChangeVerdict::Stale
        } else {
            match direction {
                Direction::Backup => if source.mtime > d.mtime {
                    ChangeVerdict::Stale
                } else {
                    ChangeVerdict::UpToDate
                },
                Direction::Restore => if source.mtime != d.mtime {
                    ChangeVerdict::Stale
                } else {
                    ChangeVerdict::UpToDate
                },
            }
        },
    }
}

/// Classify one file pair. Read-only: the caller hands in the metadata it
/// observed, so a source that does not exist surfaces at the call site
/// (there is no metadata to pass) rather than here.
pub fn needs_sync(source: &FileMeta, dest: Option<&FileMeta>, direction: Direction) -> (verdict:
    ChangeVerdict)
    ensures
        verdict == spec_needs_sync(*source, match dest {
            Some(d) => Some(*d),
            None => None,
        }, direction),
{
    match dest {
        None => ChangeVerdict::Missing,
        Some(d) => {
            if source.size != d.size {
                ChangeVerdict::Stale
            } else {
                match direction {
                    Direction::Backup => {
                        if source.mtime > d.mtime {
                            ChangeVerdict::Stale
                        } else {
                            ChangeVerdict::UpToDate
                        }
                    },
                    Direction::Restore => {
                        if source.mtime != d.mtime {
                            ChangeVerdict::Stale
                        } else {
                            ChangeVerdict::UpToDate
                        }
                    },
                }
            }
        },
    }
}

/// Post-copy verification: after copying, the destination must exist with
/// the source's size; anything else signals a corrupted or interrupted copy.
pub fn verify_copy(source: &FileMeta, dest: Option<&FileMeta>) -> (r: Result<(), SydError>)
    ensures
        r is Ok <==> (dest matches Some(d) && d.size == source.size),
        r matches Err(e) ==> e matches SydError::Verification,
{
    match dest {
        Some(d) => if d.size == source.size {
            Ok(())
        } else {
            Err(SydError::Verification)
        },
        None => Err(SydError::Verification),
    }
}

} // verus!
