//! The state store on its own: pair registry rules, tracked-file upserts,
//! session history, and the account registry.

use bucketsync::account::{AccountMetadata, CredentialsManager, metadata_to_account};
use bucketsync::provider::ProviderType;
use bucketsync::store::StateStore;
use bucketsync::sync_types::{NewSyncPair, SyncDirection, SyncPairStatus, SyncSessionStatus};

fn pair_input(name: &str, local: &str) -> NewSyncPair {
    NewSyncPair {
        name: name.to_string(),
        local_path: local.to_string(),
        account_id: "acct".to_string(),
        bucket: "b".to_string(),
        remote_prefix: "p".to_string(),
        sync_direction: SyncDirection::UploadOnly,
        delete_propagation: false,
    }
}

#[test]
fn duplicate_endpoints_are_rejected() {
    let mut store = StateStore::new();
    let id1 = store.create_sync_pair(&pair_input("one", "/data")).expect("first");
    assert_eq!(id1, 1);
    // Same (local path, account, bucket, prefix) tuple: refused even under a
    // different display name.
    let dup = store.create_sync_pair(&pair_input("two", "/data"));
    assert!(dup.is_err());
    // A different local path is a different binding.
    let id2 = store.create_sync_pair(&pair_input("two", "/other")).expect("second");
    assert_eq!(id2, 2);
}

#[test]
fn pair_lifecycle_fields() {
    let mut store = StateStore::new();
    let id = store.create_sync_pair(&pair_input("one", "/data")).expect("create");
    let p = store.get_sync_pair(id).expect("pair");
    assert_eq!(p.status, SyncPairStatus::Idle);
    assert_eq!(p.name, "one");
    assert_eq!(p.local_path, "/data");
    assert!(p.last_sync_at.is_none());
    assert!(p.last_error.is_none());

    store.update_sync_pair_status(id, SyncPairStatus::Syncing);
    assert_eq!(store.get_sync_pair(id).expect("pair").status, SyncPairStatus::Syncing);

    store.mark_sync_failed(id, "boom");
    let p = store.get_sync_pair(id).expect("pair");
    assert_eq!(p.status, SyncPairStatus::Error);
    assert_eq!(p.last_error.as_deref(), Some("boom"));

    store.mark_sync_completed(id);
    let p = store.get_sync_pair(id).expect("pair");
    assert_eq!(p.status, SyncPairStatus::Idle);
    assert!(p.last_error.is_none());
    assert!(p.last_sync_at.is_some());
}

#[test]
fn list_pairs_filters_by_account() {
    let mut store = StateStore::new();
    store.create_sync_pair(&pair_input("one", "/a")).expect("one");
    let mut other = pair_input("two", "/b");
    other.account_id = "elsewhere".to_string();
    store.create_sync_pair(&other).expect("two");
    let mine = store.list_sync_pairs("acct");
    assert_eq!(mine.len(), 1);
    assert_eq!(mine[0].name, "one");
    assert_eq!(store.list_sync_pairs("elsewhere").len(), 1);
    assert_eq!(store.list_sync_pairs("nobody").len(), 0);
}

#[test]
fn list_pairs_sorted_by_name() {
    let mut store = StateStore::new();
    store.create_sync_pair(&pair_input("delta", "/d")).expect("d");
    store.create_sync_pair(&pair_input("alpha", "/a")).expect("a");
    store.create_sync_pair(&pair_input("charlie", "/c")).expect("c");
    store.create_sync_pair(&pair_input("bravo", "/b")).expect("b");
    let names: Vec<String> = store.list_sync_pairs("acct").iter().map(|p| p.name.clone()).collect();
    assert_eq!(names, vec!["alpha", "bravo", "charlie", "delta"]);
}

#[test]
fn tracked_file_upsert_is_idempotent() {
    let mut store = StateStore::new();
    let id = store.create_sync_pair(&pair_input("one", "/data")).expect("create");
    store.save_local_file_state(id, "x.txt", 5, 100, &None).expect("save");
    store.save_local_file_state(id, "x.txt", 9, 200, &Some("h1".to_string())).expect("save");
    let rows = store.get_local_file_states(id);
    assert_eq!(rows.len(), 1);
    assert_eq!(rows[0].size, 9);
    assert_eq!(rows[0].mtime_ms, Some(200));
    assert_eq!(rows[0].content_hash.as_deref(), Some("h1"));
    assert!(!rows[0].is_deleted);

    // Marking deleted retains the row; a later upsert revives it.
    store.mark_local_file_deleted(id, "x.txt");
    let rows = store.get_local_file_states(id);
    assert_eq!(rows.len(), 1);
    assert!(rows[0].is_deleted);
    store.save_local_file_state(id, "x.txt", 9, 200, &None).expect("save");
    assert!(!store.get_local_file_states(id)[0].is_deleted);
}

#[test]
fn remote_rows_keep_etag_and_time() {
    let mut store = StateStore::new();
    let id = store.create_sync_pair(&pair_input("one", "/data")).expect("create");
    store
        .save_remote_file_state(id, "r.bin", 44, &Some("etag-1".to_string()), Some(7_000), &None)
        .expect("save");
    let rows = store.get_remote_file_states(id);
    assert_eq!(rows.len(), 1);
    assert_eq!(rows[0].etag.as_deref(), Some("etag-1"));
    assert_eq!(rows[0].mtime_ms, Some(7_000));
    assert_eq!(rows[0].size, 44);
}

#[test]
fn clear_tracked_files_scopes_to_pair() {
    let mut store = StateStore::new();
    let a = store.create_sync_pair(&pair_input("one", "/a")).expect("a");
    let b = store.create_sync_pair(&pair_input("two", "/b")).expect("b");
    store.save_local_file_state(a, "x", 1, 1, &None).expect("save");
    store.save_local_file_state(b, "y", 2, 2, &None).expect("save");
    store.clear_tracked_files(a);
    assert!(store.get_local_file_states(a).is_empty());
    assert_eq!(store.get_local_file_states(b).len(), 1);
}

#[test]
fn delete_pair_cascades() {
    let mut store = StateStore::new();
    let a = store.create_sync_pair(&pair_input("one", "/a")).expect("a");
    let b = store.create_sync_pair(&pair_input("two", "/b")).expect("b");
    store.save_local_file_state(a, "x", 1, 1, &None).expect("save");
    store.save_remote_file_state(a, "x", 1, &None, None, &None).expect("save");
    let sid = store.create_sync_session(a).expect("session");
    store.complete_sync_session(sid);

    store.delete_sync_pair(a);
    assert!(store.get_sync_pair(a).is_none());
    assert!(store.get_local_file_states(a).is_empty());
    assert!(store.get_remote_file_states(a).is_empty());
    assert!(store.get_sync_sessions(a, 10).is_empty());
    assert!(store.get_sync_pair(b).is_some());
}

#[test]
fn sessions_are_append_only_and_listed_newest_first() {
    let mut store = StateStore::new();
    let id = store.create_sync_pair(&pair_input("one", "/a")).expect("a");
    let s1 = store.create_sync_session(id).expect("s1");
    store.update_sync_session_progress(s1, 1, 0, 0, 0, 10);
    store.complete_sync_session(s1);
    let s2 = store.create_sync_session(id).expect("s2");
    store.fail_sync_session(s2, "late failure");
    let s3 = store.create_sync_session(id).expect("s3");
    store.cancel_sync_session(s3);

    let sessions = store.get_sync_sessions(id, 10);
    assert_eq!(sessions.len(), 3);
    assert_eq!(sessions[0].id, s3);
    assert_eq!(sessions[0].status, SyncSessionStatus::Cancelled);
    assert_eq!(sessions[1].id, s2);
    assert_eq!(sessions[1].status, SyncSessionStatus::Failed);
    assert_eq!(sessions[2].id, s1);
    assert_eq!(sessions[2].status, SyncSessionStatus::Completed);
    assert_eq!(sessions[2].files_uploaded, 1);
    assert_eq!(sessions[2].bytes_transferred, 10);

    // A terminal session is never mutated again.
    store.update_sync_session_progress(s1, 99, 99, 99, 99, 99);
    store.fail_sync_session(s1, "ignored");
    let sessions = store.get_sync_sessions(id, 10);
    assert_eq!(sessions[2].files_uploaded, 1);
    assert_eq!(sessions[2].status, SyncSessionStatus::Completed);

    // Limit keeps the newest.
    let top = store.get_sync_sessions(id, 2);
    assert_eq!(top.len(), 2);
    assert_eq!(top[0].id, s3);
    assert_eq!(top[1].id, s2);
}

#[test]
fn account_registry_round_trip() {
    let mut mgr = CredentialsManager::new();
    let account = mgr.add_account(
        "work".to_string(),
        "https://example-endpoint".to_string(),
        "AK".to_string(),
        "test-secret-value".to_string(),
        ProviderType::CloudflareR2,
        Some("cf-123".to_string()),
        None,
    );
    assert_eq!(account.id.len(), 36);
    assert_eq!(account.name, "work");
    assert_eq!(account.cloudflare_account_id.as_deref(), Some("cf-123"));

    let got = mgr.get_account(&account.id).expect("get");
    assert_eq!(got.endpoint, "https://example-endpoint");
    assert_eq!(mgr.get_secret_key(&account.id).expect("secret"), "test-secret-value");
    assert_eq!(mgr.list_accounts().expect("list").len(), 1);

    let updated = mgr
        .update_account(
            &account.id,
            Some("home".to_string()),
            None,
            None,
            None,
            Some(ProviderType::AwsS3),
            None,
            Some("eu-north-1".to_string()),
        )
        .expect("update");
    assert_eq!(updated.name, "home");
    assert_eq!(updated.provider_type, ProviderType::AwsS3);
    assert_eq!(updated.region.as_deref(), Some("eu-north-1"));
    // Fields not given stay as they were.
    assert_eq!(updated.endpoint, "https://example-endpoint");
    assert_eq!(updated.cloudflare_account_id.as_deref(), Some("cf-123"));

    mgr.remove_account(&account.id).expect("remove");
    assert!(mgr.get_account(&account.id).is_err());
    assert!(mgr.get_secret_key(&account.id).is_err());
}

#[test]
fn legacy_account_id_migrates() {
    let meta = AccountMetadata {
        name: "old".to_string(),
        endpoint: "e".to_string(),
        access_key_id: "k".to_string(),
        provider_type: ProviderType::CloudflareR2,
        cloudflare_account_id: None,
        region: None,
        legacy_account_id: Some("legacy-7".to_string()),
    };
    let a = metadata_to_account("id-1".to_string(), &meta);
    assert_eq!(a.cloudflare_account_id.as_deref(), Some("legacy-7"));
    assert_eq!(a.account_id.as_deref(), Some("legacy-7"));
}

#[test]
fn unknown_account_errors() {
    let mgr = CredentialsManager::new();
    let e = match mgr.get_account("missing") {
        Ok(_) => panic!("expected an error"),
        Err(e) => e,
    };
    assert_eq!(e.message(), "Not found: Account not found: missing");
    let e = match mgr.get_secret_key("missing") {
        Ok(_) => panic!("expected an error"),
        Err(e) => e,
    };
    assert_eq!(e.message(), "Credential error: Failed to get secret key: missing");
}
