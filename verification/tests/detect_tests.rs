use syd::{needs_sync, verify_copy, ChangeVerdict, Direction, FileMeta, SydError};

#[test]
fn missing_destination_is_missing_backup() {
    let src = FileMeta { size: 4, mtime: 100 };
    let v = needs_sync(&src, None, Direction::Backup);
    assert!(matches!(v, ChangeVerdict::Missing));
}

#[test]
fn missing_destination_is_missing_restore() {
    let src = FileMeta { size: 0, mtime: 0 };
    let v = needs_sync(&src, None, Direction::Restore);
    assert!(matches!(v, ChangeVerdict::Missing));
}

#[test]
fn equal_pair_is_up_to_date_backup() {
    let src = FileMeta { size: 7, mtime: 42 };
    let dst = FileMeta { size: 7, mtime: 42 };
    let v = needs_sync(&src, Some(&dst), Direction::Backup);
    assert!(matches!(v, ChangeVerdict::UpToDate));
}

#[test]
fn equal_pair_is_up_to_date_restore() {
    let src = FileMeta { size: 7, mtime: 42 };
    let dst = FileMeta { size: 7, mtime: 42 };
    let v = needs_sync(&src, Some(&dst), Direction::Restore);
    assert!(matches!(v, ChangeVerdict::UpToDate));
}

#[test]
fn size_mismatch_is_stale() {
    let src = FileMeta { size: 7, mtime: 42 };
    let dst = FileMeta { size: 8, mtime: 42 };
    assert!(matches!(needs_sync(&src, Some(&dst), Direction::Backup), ChangeVerdict::Stale));
    assert!(matches!(needs_sync(&src, Some(&dst), Direction::Restore), ChangeVerdict::Stale));
}

#[test]
fn backup_newer_source_is_stale() {
    let src = FileMeta { size: 7, mtime: 50 };
    let dst = FileMeta { size: 7, mtime: 42 };
    assert!(matches!(needs_sync(&src, Some(&dst), Direction::Backup), ChangeVerdict::Stale));
}

#[test]
fn backup_older_source_is_up_to_date() {
    let src = FileMeta { size: 7, mtime: 42 };
    let dst = FileMeta { size: 7, mtime: 50 };
    assert!(matches!(needs_sync(&src, Some(&dst), Direction::Backup), ChangeVerdict::UpToDate));
}

#[test]
fn restore_any_mtime_drift_is_stale() {
    let older = FileMeta { size: 7, mtime: 42 };
    let newer = FileMeta { size: 7, mtime: 50 };
    assert!(matches!(needs_sync(&older, Some(&newer), Direction::Restore), ChangeVerdict::Stale));
    assert!(matches!(needs_sync(&newer, Some(&older), Direction::Restore), ChangeVerdict::Stale));
}

#[test]
fn verify_copy_accepts_equal_sizes() {
    let src = FileMeta { size: 3, mtime: 1 };
    let dst = FileMeta { size: 3, mtime: 999 };
    assert!(verify_copy(&src, Some(&dst)).is_ok());
}

#[test]
fn verify_copy_rejects_size_mismatch() {
    let src = FileMeta { size: 3, mtime: 1 };
    let dst = FileMeta { size: 2, mtime: 1 };
    let r = verify_copy(&src, Some(&dst));
    assert!(matches!(r, Err(SydError::Verification)));
}

#[test]
fn verify_copy_rejects_missing_destination() {
    let src = FileMeta { size: 3, mtime: 1 };
    let r = verify_copy(&src, None);
    assert!(matches!(r, Err(SydError::Verification)));
}
