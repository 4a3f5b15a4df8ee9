//! End-to-end behaviour of the reconciliation engine: previews, runs,
//! idempotence, deletion handling and direction rules on concrete stores.

use bucketsync::engine::{
    SyncActionKind, SyncRunner, SyncState, begin_run, cancel_sync, complete_run, fail_run,
    preview_sync, start_sync,
};
use bucketsync::scan::add_local_entry;
use bucketsync::store::StateStore;
use bucketsync::sync_types::{
    ChangeType, DetectedChange, NewSyncPair, SyncDirection, SyncPairStatus, SyncSessionStatus,
};

fn new_pair(direction: SyncDirection, delete_propagation: bool) -> NewSyncPair {
    NewSyncPair {
        name: "docs".to_string(),
        local_path: "/data/docs".to_string(),
        account_id: "acct-1".to_string(),
        bucket: "bucket-1".to_string(),
        remote_prefix: "backup".to_string(),
        sync_direction: direction,
        delete_propagation,
    }
}

fn local_scan(files: &[(&str, i64, i64)]) -> Vec<DetectedChange> {
    let mut map = Vec::new();
    for (path, size, mtime) in files {
        add_local_entry(&mut map, path.to_string(), *size, Some(*mtime));
    }
    map
}

fn remote_scan(files: &[(&str, i64, i64)]) -> Vec<DetectedChange> {
    let mut map = Vec::new();
    for (path, size, mtime) in files {
        map.push(DetectedChange {
            relative_path: path.to_string(),
            change_type: ChangeType::Unchanged,
            size: Some(*size),
            mtime: Some(*mtime),
            hash: None,
        });
    }
    map
}

/// Drive a planned run to completion, answering every action with an outcome
/// that matches the scanned values.
fn run_to_completion(
    store: &mut StateStore,
    state: &mut SyncState,
    pair_id: i64,
    is_resync: bool,
    local_cur: &Vec<DetectedChange>,
    remote_cur: &Vec<DetectedChange>,
) -> i64 {
    let session_id = start_sync(store, state, pair_id, is_resync).expect("start");
    let mut runner: SyncRunner =
        begin_run(store, pair_id, session_id, is_resync, local_cur, remote_cur).expect("begin");
    loop {
        match runner.next_action() {
            Some((SyncActionKind::Upload, c)) => {
                runner.apply_upload(store, c.size.unwrap_or(0), c.mtime.unwrap_or(0));
            }
            Some((SyncActionKind::Download, c)) => {
                runner.apply_download(store, Some((c.size.unwrap_or(0), c.mtime.unwrap_or(0))));
            }
            Some((SyncActionKind::DeleteLocal, _)) => {
                runner.apply_delete_local(store);
            }
            Some((SyncActionKind::DeleteRemote, _)) => {
                runner.apply_delete_remote(store);
            }
            None => break,
        }
    }
    let done = complete_run(runner, store, state);
    assert_eq!(done.session_id, session_id);
    session_id
}

fn paths(q: &Vec<DetectedChange>) -> Vec<String> {
    q.iter().map(|c| c.relative_path.clone()).collect()
}

#[test]
fn scenario_upload_bootstrap_preview() {
    let mut store = StateStore::new();
    let pair_id = store
        .create_sync_pair(&new_pair(SyncDirection::UploadOnly, true))
        .expect("create");
    let local = local_scan(&[("a.txt", 10, 111), ("b.txt", 20, 222)]);
    let remote = remote_scan(&[]);
    let preview = preview_sync(&store, pair_id, &local, &remote).expect("preview");
    assert_eq!(paths(&preview.to_upload), vec!["a.txt".to_string(), "b.txt".to_string()]);
    assert!(preview.to_upload.iter().all(|c| c.change_type == ChangeType::New));
    assert!(preview.to_download.is_empty());
    assert!(preview.to_delete_local.is_empty());
    assert!(preview.to_delete_remote.is_empty());
}

#[test]
fn scenario_deleted_file_propagates() {
    let mut store = StateStore::new();
    let mut state = SyncState::new();
    let pair_id = store
        .create_sync_pair(&new_pair(SyncDirection::UploadOnly, true))
        .expect("create");
    let local = local_scan(&[("a.txt", 10, 111), ("b.txt", 20, 222)]);
    let remote = remote_scan(&[]);
    run_to_completion(&mut store, &mut state, pair_id, false, &local, &remote);

    // a.txt is deleted locally; rerun with propagation enabled.
    let local2 = local_scan(&[("b.txt", 20, 222)]);
    let preview = preview_sync(&store, pair_id, &local2, &remote).expect("preview");
    assert!(preview.to_upload.is_empty());
    assert_eq!(paths(&preview.to_delete_remote), vec!["a.txt".to_string()]);
    assert_eq!(preview.to_delete_remote[0].change_type, ChangeType::Deleted);
}

#[test]
fn scenario_deletion_not_propagated_and_not_resurfaced() {
    let mut store = StateStore::new();
    let mut state = SyncState::new();
    let pair_id = store
        .create_sync_pair(&new_pair(SyncDirection::UploadOnly, false))
        .expect("create");
    let local = local_scan(&[("a.txt", 10, 111), ("b.txt", 20, 222)]);
    let remote = remote_scan(&[]);
    run_to_completion(&mut store, &mut state, pair_id, false, &local, &remote);

    let local2 = local_scan(&[("b.txt", 20, 222)]);
    let preview = preview_sync(&store, pair_id, &local2, &remote).expect("preview");
    assert!(preview.to_delete_remote.is_empty());

    // Run once (which records the skipped deletion), then preview again: the
    // deletion is not re-surfaced.
    run_to_completion(&mut store, &mut state, pair_id, false, &local2, &remote);
    let preview2 = preview_sync(&store, pair_id, &local2, &remote).expect("preview");
    assert!(preview2.to_delete_remote.is_empty());
    assert!(preview2.to_upload.is_empty());
    assert!(preview2.to_download.is_empty());
    assert!(preview2.to_delete_local.is_empty());
}

#[test]
fn scenario_download_modified_size() {
    let mut store = StateStore::new();
    let mut state = SyncState::new();
    let pair_id = store
        .create_sync_pair(&new_pair(SyncDirection::DownloadOnly, false))
        .expect("create");
    let local = local_scan(&[]);
    let remote1 = remote_scan(&[("docs/readme.md", 100, 5000)]);
    run_to_completion(&mut store, &mut state, pair_id, false, &local, &remote1);

    let remote2 = remote_scan(&[("docs/readme.md", 150, 5000)]);
    let preview = preview_sync(&store, pair_id, &local, &remote2).expect("preview");
    assert_eq!(paths(&preview.to_download), vec!["docs/readme.md".to_string()]);
    assert_eq!(preview.to_download[0].change_type, ChangeType::Modified);
    assert!(preview.to_upload.is_empty());
    assert!(preview.to_delete_remote.is_empty());
    assert!(preview.to_delete_local.is_empty());
}

#[test]
fn second_run_is_idempotent() {
    let mut store = StateStore::new();
    let mut state = SyncState::new();
    let pair_id = store
        .create_sync_pair(&new_pair(SyncDirection::UploadOnly, true))
        .expect("create");
    let local = local_scan(&[("a.txt", 10, 111), ("sub/c.txt", 7, 333)]);
    let remote = remote_scan(&[]);
    run_to_completion(&mut store, &mut state, pair_id, false, &local, &remote);

    // No external changes: the second preview lists nothing.
    let preview = preview_sync(&store, pair_id, &local, &remote).expect("preview");
    assert!(preview.to_upload.is_empty());
    assert!(preview.to_download.is_empty());
    assert!(preview.to_delete_local.is_empty());
    assert!(preview.to_delete_remote.is_empty());
}

#[test]
fn reappearing_path_is_new() {
    let mut store = StateStore::new();
    let mut state = SyncState::new();
    let pair_id = store
        .create_sync_pair(&new_pair(SyncDirection::UploadOnly, true))
        .expect("create");
    let local = local_scan(&[("a.txt", 10, 111)]);
    let remote = remote_scan(&[]);
    run_to_completion(&mut store, &mut state, pair_id, false, &local, &remote);

    // Deleted, synced, then recreated with the old size and time.
    let empty = local_scan(&[]);
    run_to_completion(&mut store, &mut state, pair_id, false, &empty, &remote);
    let preview = preview_sync(&store, pair_id, &local, &remote).expect("preview");
    assert_eq!(paths(&preview.to_upload), vec!["a.txt".to_string()]);
    assert_eq!(preview.to_upload[0].change_type, ChangeType::New);
}

#[test]
fn deletion_converges_on_both_sides() {
    let mut store = StateStore::new();
    let mut state = SyncState::new();
    let pair_id = store
        .create_sync_pair(&new_pair(SyncDirection::UploadOnly, true))
        .expect("create");
    let local = local_scan(&[("a.txt", 10, 111)]);
    let remote = remote_scan(&[]);
    run_to_completion(&mut store, &mut state, pair_id, false, &local, &remote);

    let empty = local_scan(&[]);
    run_to_completion(&mut store, &mut state, pair_id, false, &empty, &remote);

    let local_rows = store.get_local_file_states(pair_id);
    let remote_rows = store.get_remote_file_states(pair_id);
    let lrow = local_rows.iter().find(|t| t.relative_path == "a.txt").expect("local row");
    let rrow = remote_rows.iter().find(|t| t.relative_path == "a.txt").expect("remote row");
    assert!(lrow.is_deleted);
    assert!(rrow.is_deleted);

    // A further scan finding it absent on both sides produces no change.
    let preview = preview_sync(&store, pair_id, &empty, &remote).expect("preview");
    assert!(preview.to_upload.is_empty());
    assert!(preview.to_delete_remote.is_empty());
}

#[test]
fn upload_only_ignores_remote_changes() {
    let mut store = StateStore::new();
    let pair_id = store
        .create_sync_pair(&new_pair(SyncDirection::UploadOnly, true))
        .expect("create");
    // Remote has files the local side lacks; upload-only must not touch them.
    let local = local_scan(&[]);
    let remote = remote_scan(&[("only-remote.bin", 99, 1)]);
    let preview = preview_sync(&store, pair_id, &local, &remote).expect("preview");
    assert!(preview.to_download.is_empty());
    assert!(preview.to_delete_local.is_empty());
    assert!(preview.to_upload.is_empty());
    assert!(preview.to_delete_remote.is_empty());
}

#[test]
fn download_only_ignores_local_changes() {
    let mut store = StateStore::new();
    let mut state = SyncState::new();
    let pair_id = store
        .create_sync_pair(&new_pair(SyncDirection::DownloadOnly, true))
        .expect("create");
    let local = local_scan(&[]);
    let remote = remote_scan(&[("r.bin", 8, 44)]);
    run_to_completion(&mut store, &mut state, pair_id, false, &local, &remote);

    // Local-only files appear; download-only must not touch them.
    let local2 = local_scan(&[("local-only.txt", 3, 1)]);
    let preview = preview_sync(&store, pair_id, &local2, &remote).expect("preview");
    assert!(preview.to_upload.is_empty());
    assert!(preview.to_delete_remote.is_empty());
    assert!(preview.to_download.is_empty());
    assert!(preview.to_delete_local.is_empty());
}

#[test]
fn resync_forces_bootstrap() {
    let mut store = StateStore::new();
    let mut state = SyncState::new();
    let pair_id = store
        .create_sync_pair(&new_pair(SyncDirection::UploadOnly, true))
        .expect("create");
    let local = local_scan(&[("a.txt", 10, 111)]);
    let remote = remote_scan(&[]);
    run_to_completion(&mut store, &mut state, pair_id, false, &local, &remote);

    // A resync clears tracked state and re-uploads everything.
    let session_id = start_sync(&mut store, &mut state, pair_id, true).expect("start");
    let runner = begin_run(&store, pair_id, session_id, true, &local, &remote).expect("begin");
    assert_eq!(paths(&runner.plan.to_upload), vec!["a.txt".to_string()]);
    let mut runner = runner;
    runner.apply_upload(&mut store, 10, 111);
    complete_run(runner, &mut store, &mut state);
}

#[test]
fn start_sync_rejects_concurrent_runs() {
    let mut store = StateStore::new();
    let mut state = SyncState::new();
    let pair_id = store
        .create_sync_pair(&new_pair(SyncDirection::UploadOnly, true))
        .expect("create");
    let first = start_sync(&mut store, &mut state, pair_id, false).expect("start");
    assert!(first >= 1);
    let second = start_sync(&mut store, &mut state, pair_id, false);
    assert!(second.is_err());
    // Unknown pairs are rejected too.
    let unknown = start_sync(&mut store, &mut state, pair_id + 100, false);
    assert!(unknown.is_err());
}

#[test]
fn failed_run_marks_pair_and_session() {
    let mut store = StateStore::new();
    let mut state = SyncState::new();
    let pair_id = store
        .create_sync_pair(&new_pair(SyncDirection::UploadOnly, true))
        .expect("create");
    let local = local_scan(&[("a.txt", 10, 111)]);
    let remote = remote_scan(&[]);
    let session_id = start_sync(&mut store, &mut state, pair_id, false).expect("start");
    let runner = begin_run(&store, pair_id, session_id, false, &local, &remote).expect("begin");
    fail_run(&runner, &mut store, &mut state, "network unreachable");

    let pair = store.get_sync_pair(pair_id).expect("pair");
    assert_eq!(pair.status, SyncPairStatus::Error);
    assert_eq!(pair.last_error.as_deref(), Some("network unreachable"));
    let sessions = store.get_sync_sessions(pair_id, 10);
    assert_eq!(sessions.len(), 1);
    assert_eq!(sessions[0].status, SyncSessionStatus::Failed);
    assert_eq!(sessions[0].error_message.as_deref(), Some("network unreachable"));
    assert!(!state.is_active(pair_id));
}

#[test]
fn cancelled_run_returns_pair_to_idle() {
    let mut store = StateStore::new();
    let mut state = SyncState::new();
    let pair_id = store
        .create_sync_pair(&new_pair(SyncDirection::UploadOnly, true))
        .expect("create");
    let session_id = start_sync(&mut store, &mut state, pair_id, false).expect("start");
    assert!(state.is_active(pair_id));
    cancel_sync(&mut store, &mut state, pair_id);
    assert!(!state.is_active(pair_id));
    let pair = store.get_sync_pair(pair_id).expect("pair");
    assert_eq!(pair.status, SyncPairStatus::Idle);
    assert!(session_id >= 1);
}

#[test]
fn completed_run_updates_session_counters() {
    let mut store = StateStore::new();
    let mut state = SyncState::new();
    let pair_id = store
        .create_sync_pair(&new_pair(SyncDirection::UploadOnly, true))
        .expect("create");
    let local = local_scan(&[("a.txt", 10, 111), ("b.txt", 20, 222)]);
    let remote = remote_scan(&[]);
    let session_id = run_to_completion(&mut store, &mut state, pair_id, false, &local, &remote);

    let sessions = store.get_sync_sessions(pair_id, 10);
    assert_eq!(sessions.len(), 1);
    assert_eq!(sessions[0].id, session_id);
    assert_eq!(sessions[0].status, SyncSessionStatus::Completed);
    assert_eq!(sessions[0].files_uploaded, 2);
    assert_eq!(sessions[0].files_downloaded, 0);
    assert_eq!(sessions[0].bytes_transferred, 30);
    let pair = store.get_sync_pair(pair_id).expect("pair");
    assert_eq!(pair.status, SyncPairStatus::Idle);
    assert!(pair.last_sync_at.is_some());
}

#[test]
fn download_race_skip_is_not_fatal() {
    let mut store = StateStore::new();
    let mut state = SyncState::new();
    let pair_id = store
        .create_sync_pair(&new_pair(SyncDirection::DownloadOnly, false))
        .expect("create");
    let local = local_scan(&[]);
    let remote = remote_scan(&[("gone.bin", 40, 1), ("kept.bin", 50, 2)]);
    let session_id = start_sync(&mut store, &mut state, pair_id, false).expect("start");
    let mut runner =
        begin_run(&store, pair_id, session_id, false, &local, &remote).expect("begin");
    // First object vanished between scan and transfer; second downloads.
    runner.apply_download(&mut store, None);
    runner.apply_download(&mut store, Some((50, 900)));
    let done = complete_run(runner, &mut store, &mut state);
    assert_eq!(done.files_downloaded, 1);

    let sessions = store.get_sync_sessions(pair_id, 10);
    assert_eq!(sessions[0].files_downloaded, 1);
    assert_eq!(sessions[0].bytes_transferred, 50);
    // Only the fetched object is tracked.
    let remote_rows = store.get_remote_file_states(pair_id);
    assert!(remote_rows.iter().any(|t| t.relative_path == "kept.bin"));
    assert!(!remote_rows.iter().any(|t| t.relative_path == "gone.bin"));
}
