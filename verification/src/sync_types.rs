//! Data model of the sync engine: pair configuration, tracked snapshots,
//! detected changes, and session records, with the lookup functions the
//! contracts are stated over.

use vstd::prelude::*;
use crate::errors::AppError;
use crate::text::str_eq;

verus! {

/// Direction of a one-way sync pair.
#[derive(Clone, Copy, PartialEq, Eq, Structural, Debug)]
pub enum SyncDirection {
    /// Upload only (local -> remote)
    UploadOnly,
    /// Download only (remote -> local)
    DownloadOnly,
}

impl SyncDirection {
    /// Canonical storage token for the direction.
    pub fn as_str(&self) -> (r: &'static str)
        ensures
            *self == SyncDirection::UploadOnly ==> r@ == "upload_only"@,
            *self == SyncDirection::DownloadOnly ==> r@ == "download_only"@,
    {
        match self {
            SyncDirection::UploadOnly => "upload_only",
            SyncDirection::DownloadOnly => "download_only",
        }
    }

    /// Inverse of `as_str`; any other token is rejected.
    pub fn parse(value: &str) -> (r: Result<SyncDirection, AppError>)
        ensures
            value@ == "upload_only"@ ==> r == Ok::<SyncDirection, AppError>(SyncDirection::UploadOnly),
            value@ == "download_only"@ ==> r == Ok::<SyncDirection, AppError>(SyncDirection::DownloadOnly),
            value@ != "upload_only"@ && value@ != "download_only"@ ==> (r matches Err(e)
                && e matches AppError::InvalidInput(m) && m@ == "Unknown sync direction: "@ + value@),
    {
        proof {
            reveal_strlit("upload_only");
            reveal_strlit("download_only");
            reveal_strlit("Unknown sync direction: ");
            assert("upload_only"@.len() == 11);
            assert("download_only"@.len() == 13);
            assert("upload_only"@ != "download_only"@);
        }
        if str_eq(value, "upload_only") {
            Ok(SyncDirection::UploadOnly)
        } else if str_eq(value, "download_only") {
            Ok(SyncDirection::DownloadOnly)
        } else {
            let mut m = String::from_str("Unknown sync direction: ");
            m.append(value);
            Err(AppError::InvalidInput(m))
        }
    }
}

/// Lifecycle status of a sync pair.
#[derive(Clone, Copy, PartialEq, Eq, Structural, Debug)]
pub enum SyncPairStatus {
    /// Not currently syncing
    Idle,
    /// Sync in progress
    Syncing,
    /// Last sync failed
    Error,
}

impl SyncPairStatus {
    /// Canonical storage token for the status.
    pub fn as_str(&self) -> (r: &'static str)
        ensures
            *self == SyncPairStatus::Idle ==> r@ == "idle"@,
            *self == SyncPairStatus::Syncing ==> r@ == "syncing"@,
            *self == SyncPairStatus::Error ==> r@ == "error"@,
    {
        match self {
            SyncPairStatus::Idle => "idle",
            SyncPairStatus::Syncing => "syncing",
            SyncPairStatus::Error => "error",
        }
    }

    /// Inverse of `as_str`. The legacy token `has_conflicts` is read as
    /// `Error`; anything else is rejected.
    pub fn parse(value: &str) -> (r: Result<SyncPairStatus, AppError>)
        ensures
            value@ == "idle"@ ==> r == Ok::<SyncPairStatus, AppError>(SyncPairStatus::Idle),
            value@ == "syncing"@ ==> r == Ok::<SyncPairStatus, AppError>(SyncPairStatus::Syncing),
            value@ == "error"@ || value@ == "has_conflicts"@ ==> r == Ok::<SyncPairStatus, AppError>(SyncPairStatus::Error),
            value@ != "idle"@ && value@ != "syncing"@ && value@ != "error"@ && value@ != "has_conflicts"@
                ==> (r matches Err(e) && e matches AppError::InvalidInput(m)
                    && m@ == "Unknown sync status: "@ + value@),
    {
        proof {
            reveal_strlit("idle");
            reveal_strlit("syncing");
            reveal_strlit("error");
            reveal_strlit("has_conflicts");
            reveal_strlit("Unknown sync status: ");
            assert("idle"@.len() == 4);
            assert("syncing"@.len() == 7);
            assert("error"@.len() == 5);
            assert("has_conflicts"@.len() == 13);
            assert("idle"@ != "syncing"@);
            assert("idle"@ != "error"@);
            assert("idle"@ != "has_conflicts"@);
            assert("syncing"@ != "error"@);
            assert("syncing"@ != "has_conflicts"@);
            assert("error"@ != "has_conflicts"@);
        }
        if str_eq(value, "idle") {
            Ok(SyncPairStatus::Idle)
        } else if str_eq(value, "syncing") {
            Ok(SyncPairStatus::Syncing)
        } else if str_eq(value, "error") || str_eq(value, "has_conflicts") {
            Ok(SyncPairStatus::Error)
        } else {
            let mut m = String::from_str("Unknown sync status: ");
            m.append(value);
            Err(AppError::InvalidInput(m))
        }
    }
}

/// Terminal and non-terminal states of one sync run.
#[derive(Clone, Copy, PartialEq, Eq, Structural, Debug)]
pub enum SyncSessionStatus {
    Running,
    Completed,
    Failed,
    Cancelled,
}

impl SyncSessionStatus {
    /// Canonical storage token for the status.
    pub fn as_str(&self) -> (r: &'static str)
        ensures
            *self == SyncSessionStatus::Running ==> r@ == "running"@,
            *self == SyncSessionStatus::Completed ==> r@ == "completed"@,
            *self == SyncSessionStatus::Failed ==> r@ == "failed"@,
            *self == SyncSessionStatus::Cancelled ==> r@ == "cancelled"@,
    {
        match self {
            SyncSessionStatus::Running => "running",
            SyncSessionStatus::Completed => "completed",
            SyncSessionStatus::Failed => "failed",
            SyncSessionStatus::Cancelled => "cancelled",
        }
    }

    /// Inverse of `as_str`. The legacy token `waiting_for_conflicts` is read
    /// as `Completed`; anything else is rejected.
    pub fn parse(value: &str) -> (r: Result<SyncSessionStatus, AppError>)
        ensures
            value@ == "running"@ ==> r == Ok::<SyncSessionStatus, AppError>(SyncSessionStatus::Running),
            value@ == "completed"@ || value@ == "waiting_for_conflicts"@
                ==> r == Ok::<SyncSessionStatus, AppError>(SyncSessionStatus::Completed),
            value@ == "failed"@ ==> r == Ok::<SyncSessionStatus, AppError>(SyncSessionStatus::Failed),
            value@ == "cancelled"@ ==> r == Ok::<SyncSessionStatus, AppError>(SyncSessionStatus::Cancelled),
            value@ != "running"@ && value@ != "completed"@ && value@ != "failed"@
                && value@ != "cancelled"@ && value@ != "waiting_for_conflicts"@
                ==> (r matches Err(e) && e matches AppError::InvalidInput(m)
                    && m@ == "Unknown session status: "@ + value@),
    {
        proof {
            reveal_strlit("running");
            reveal_strlit("completed");
            reveal_strlit("failed");
            reveal_strlit("cancelled");
            reveal_strlit("waiting_for_conflicts");
            reveal_strlit("Unknown session status: ");
            assert("running"@.len() == 7);
            assert("completed"@.len() == 9);
            assert("failed"@.len() == 6);
            assert("cancelled"@.len() == 9);
            assert("waiting_for_conflicts"@.len() == 21);
            assert("completed"@[1] == 'o');
            assert("cancelled"@[1] == 'a');
            assert("running"@ != "completed"@);
            assert("running"@ != "failed"@);
            assert("running"@ != "cancelled"@);
            assert("running"@ != "waiting_for_conflicts"@);
            assert("completed"@ != "failed"@);
            assert("completed"@ != "cancelled"@);
            assert("completed"@ != "waiting_for_conflicts"@);
            assert("failed"@ != "cancelled"@);
            assert("failed"@ != "waiting_for_conflicts"@);
            assert("cancelled"@ != "waiting_for_conflicts"@);
        }
        if str_eq(value, "running") {
            Ok(SyncSessionStatus::Running)
        } else if str_eq(value, "completed") || str_eq(value, "waiting_for_conflicts") {
            Ok(SyncSessionStatus::Completed)
        } else if str_eq(value, "failed") {
            Ok(SyncSessionStatus::Failed)
        } else if str_eq(value, "cancelled") {
            Ok(SyncSessionStatus::Cancelled)
        } else {
            let mut m = String::from_str("Unknown session status: ");
            m.append(value);
            Err(AppError::InvalidInput(m))
        }
    }
}

/// A sync pair configuration.
pub struct SyncPair {
    pub id: i64,
    pub name: String,
    pub local_path: String,
    pub account_id: String,
    pub bucket: String,
    pub remote_prefix: String,
    pub sync_direction: SyncDirection,
    pub delete_propagation: bool,
    pub status: SyncPairStatus,
    pub last_sync_at: Option<i64>,
    pub last_error: Option<String>,
    pub created_at: i64,
}

impl SyncPair {
    /// Two pairs bind the same endpoints when local path, account, bucket and
    /// prefix all coincide; the registry keeps that tuple unique.
    pub open spec fn same_endpoints_view(&self, other: &SyncPair) -> bool {
        self.local_path@ == other.local_path@ && self.account_id@ == other.account_id@
            && self.bucket@ == other.bucket@ && self.remote_prefix@ == other.remote_prefix@
    }
}

/// Input for creating a new sync pair.
pub struct NewSyncPair {
    pub name: String,
    pub local_path: String,
    pub account_id: String,
    pub bucket: String,
    pub remote_prefix: String,
    pub sync_direction: SyncDirection,
    pub delete_propagation: bool,
}

/// Tracked file state (one side of one pair): the last committed observation
/// for a relative path. Rows with `is_deleted` are retained so that a later
/// reappearance can be told apart from a path that was never deleted.
pub struct TrackedFile {
    pub id: i64,
    pub sync_pair_id: i64,
    pub relative_path: String,
    pub size: i64,
    pub mtime_ms: Option<i64>,
    pub etag: Option<String>,
    pub content_hash: Option<String>,
    pub is_deleted: bool,
    pub last_seen_at: i64,
}

/// Classification of one path by the change detector.
#[derive(Clone, Copy, PartialEq, Eq, Structural, Debug)]
pub enum ChangeType {
    /// File is new (not in previous snapshot, or previously deleted)
    New,
    /// File was modified (different size or modification time)
    Modified,
    /// File was deleted (in previous snapshot but not current)
    Deleted,
    /// File unchanged
    Unchanged,
}

/// A detected change, and also one entry of a current-state scan (where
/// `change_type` is `Unchanged` until classification).
pub struct DetectedChange {
    pub relative_path: String,
    pub change_type: ChangeType,
    pub size: Option<i64>,
    pub mtime: Option<i64>,
    pub hash: Option<String>,
}

/// One append-only record per sync invocation.
pub struct SyncSession {
    pub id: i64,
    pub sync_pair_id: i64,
    pub started_at: i64,
    pub completed_at: Option<i64>,
    pub status: SyncSessionStatus,
    pub files_uploaded: i64,
    pub files_downloaded: i64,
    pub files_deleted_local: i64,
    pub files_deleted_remote: i64,
    pub bytes_transferred: i64,
    pub error_message: Option<String>,
}

/// Action queues of a dry-run preview.
pub struct SyncPreview {
    pub to_upload: Vec<DetectedChange>,
    pub to_download: Vec<DetectedChange>,
    pub to_delete_local: Vec<DetectedChange>,
    pub to_delete_remote: Vec<DetectedChange>,
}

// ---------------------------------------------------------------------------
// Lookup model: snapshots and scans are association lists keyed by relative
// path; `lookup_*` is first-match lookup, and the well-formed collections keep
// paths unique.
// ---------------------------------------------------------------------------

/// First tracked row whose path is `p`, if any.
pub open spec fn lookup_tracked(s: Seq<TrackedFile>, p: Seq<char>) -> Option<TrackedFile>
    decreases s.len(),
{
    if s.len() == 0 {
        None
    } else if s[0].relative_path@ == p {
        Some(s[0])
    } else {
        lookup_tracked(s.drop_first(), p)
    }
}

/// First change entry whose path is `p`, if any.
pub open spec fn lookup_change(s: Seq<DetectedChange>, p: Seq<char>) -> Option<DetectedChange>
    decreases s.len(),
{
    if s.len() == 0 {
        None
    } else if s[0].relative_path@ == p {
        Some(s[0])
    } else {
        lookup_change(s.drop_first(), p)
    }
}

/// No two tracked rows share a path.
pub open spec fn tracked_paths_unique(s: Seq<TrackedFile>) -> bool {
    forall|i: int, j: int| 0 <= i < j < s.len() ==> s[i].relative_path@ != s[j].relative_path@
}

/// No two change entries share a path.
pub open spec fn change_paths_unique(s: Seq<DetectedChange>) -> bool {
    forall|i: int, j: int| 0 <= i < j < s.len() ==> s[i].relative_path@ != s[j].relative_path@
}

/// Skipping rows that do not match leaves the lookup unchanged.
pub proof fn lemma_lookup_tracked_skip(s: Seq<TrackedFile>, p: Seq<char>, i: int)
    requires
        0 <= i <= s.len(),
        forall|j: int| 0 <= j < i ==> s[j].relative_path@ != p,
    ensures
        lookup_tracked(s, p) == lookup_tracked(s.skip(i), p),
    decreases i,
{
    if i > 0 {
        assert(s.skip(1) =~= s.drop_first());
        lemma_lookup_tracked_skip(s.drop_first(), p, i - 1);
        assert(s.drop_first().skip(i - 1) =~= s.skip(i));
    } else {
        assert(s.skip(0) =~= s);
    }
}

/// Skipping entries that do not match leaves the lookup unchanged.
pub proof fn lemma_lookup_change_skip(s: Seq<DetectedChange>, p: Seq<char>, i: int)
    requires
        0 <= i <= s.len(),
        forall|j: int| 0 <= j < i ==> s[j].relative_path@ != p,
    ensures
        lookup_change(s, p) == lookup_change(s.skip(i), p),
    decreases i,
{
    if i > 0 {
        assert(s.skip(1) =~= s.drop_first());
        lemma_lookup_change_skip(s.drop_first(), p, i - 1);
        assert(s.drop_first().skip(i - 1) =~= s.skip(i));
    } else {
        assert(s.skip(0) =~= s);
    }
}

/// In a path-unique collection, looking up the path of row `i` yields row `i`.
pub proof fn lemma_lookup_tracked_at(s: Seq<TrackedFile>, i: int)
    requires
        tracked_paths_unique(s),
        0 <= i < s.len(),
    ensures
        lookup_tracked(s, s[i].relative_path@) == Some(s[i]),
{
    lemma_lookup_tracked_skip(s, s[i].relative_path@, i);
    assert(s.skip(i)[0] == s[i]);
}

/// In a path-unique collection, looking up the path of entry `i` yields entry `i`.
pub proof fn lemma_lookup_change_at(s: Seq<DetectedChange>, i: int)
    requires
        change_paths_unique(s),
        0 <= i < s.len(),
    ensures
        lookup_change(s, s[i].relative_path@) == Some(s[i]),
{
    lemma_lookup_change_skip(s, s[i].relative_path@, i);
    assert(s.skip(i)[0] == s[i]);
}

/// A successful tracked lookup returns a row of the collection with that path.
pub proof fn lemma_lookup_tracked_some(s: Seq<TrackedFile>, p: Seq<char>)
    requires
        lookup_tracked(s, p) is Some,
    ensures
        exists|i: int| 0 <= i < s.len() && s[i] == lookup_tracked(s, p).unwrap()
            && s[i].relative_path@ == p,
    decreases s.len(),
{
    if s.len() > 0 && s[0].relative_path@ != p {
        lemma_lookup_tracked_some(s.drop_first(), p);
        let i = choose|i: int| 0 <= i < s.drop_first().len()
            && s.drop_first()[i] == lookup_tracked(s.drop_first(), p).unwrap()
            && s.drop_first()[i].relative_path@ == p;
        assert(s[i + 1] == s.drop_first()[i]);
    }
}

/// A successful change lookup returns an entry of the collection with that path.
pub proof fn lemma_lookup_change_some(s: Seq<DetectedChange>, p: Seq<char>)
    requires
        lookup_change(s, p) is Some,
    ensures
        exists|i: int| 0 <= i < s.len() && s[i] == lookup_change(s, p).unwrap()
            && s[i].relative_path@ == p,
    decreases s.len(),
{
    if s.len() > 0 && s[0].relative_path@ != p {
        lemma_lookup_change_some(s.drop_first(), p);
        let i = choose|i: int| 0 <= i < s.drop_first().len()
            && s.drop_first()[i] == lookup_change(s.drop_first(), p).unwrap()
            && s.drop_first()[i].relative_path@ == p;
        assert(s[i + 1] == s.drop_first()[i]);
    }
}


/// A failed change lookup means no entry has that path.
pub proof fn lemma_lookup_change_none(s: Seq<DetectedChange>, p: Seq<char>)
    requires
        lookup_change(s, p) is None,
    ensures
        forall|i: int| 0 <= i < s.len() ==> s[i].relative_path@ != p,
    decreases s.len(),
{
    if s.len() > 0 {
        lemma_lookup_change_none(s.drop_first(), p);
        assert(forall|i: int| 1 <= i < s.len() ==> s[i] == s.drop_first()[i - 1]);
    }
}

/// Appending an entry only affects lookups of paths the list did not hold.
pub proof fn lemma_lookup_change_push(s: Seq<DetectedChange>, d: DetectedChange, p: Seq<char>)
    ensures
        lookup_change(s.push(d), p) == (if lookup_change(s, p) is Some {
            lookup_change(s, p)
        } else if d.relative_path@ == p {
            Some(d)
        } else {
            None::<DetectedChange>
        }),
    decreases s.len(),
{
    if s.len() == 0 {
        assert(s.push(d).drop_first() =~= Seq::<DetectedChange>::empty());
    } else {
        assert(s.push(d)[0] == s[0]);
        assert(s.push(d).drop_first() =~= s.drop_first().push(d));
        lemma_lookup_change_push(s.drop_first(), d, p);
    }
}



/// Updating entry `i` in place changes only the lookup of its path.
pub proof fn lemma_lookup_change_update(s: Seq<DetectedChange>, i: int, d: DetectedChange, p: Seq<char>)
    requires
        0 <= i < s.len(),
        change_paths_unique(s),
        d.relative_path@ == s[i].relative_path@,
    ensures
        lookup_change(s.update(i, d), p) == (if s[i].relative_path@ == p {
            Some(d)
        } else {
            lookup_change(s, p)
        }),
    decreases s.len(),
{
    if i == 0 {
        assert(s.update(0, d)[0] == d);
        if d.relative_path@ != p {
            assert(s.update(0, d).drop_first() =~= s.drop_first());
        }
    } else {
        assert(s.update(i, d)[0] == s[0]);
        assert(s.update(i, d).drop_first() =~= s.drop_first().update(i - 1, d));
        assert(change_paths_unique(s.drop_first())) by {
            assert(forall|a: int, b: int| 0 <= a < b < s.drop_first().len()
                ==> s.drop_first()[a] == s[a + 1] && s.drop_first()[b] == s[b + 1]);
        };
        lemma_lookup_change_update(s.drop_first(), i - 1, d, p);
    }
}

/// Equality of optional integers.
pub fn opt_i64_eq(a: Option<i64>, b: Option<i64>) -> (r: bool)
    ensures
        r == (a == b),
{
    match (a, b) {
        (Option::None, Option::None) => true,
        (Option::Some(x), Option::Some(y)) => x == y,
        _ => false,
    }
}

/// Exact copy of an optional string.
pub fn clone_opt_string(o: &Option<String>) -> (r: Option<String>)
    ensures
        r == *o,
{
    match o {
        Option::None => None,
        Option::Some(s) => Some(s.clone()),
    }
}

/// Exact copy of a change entry.
pub fn clone_change(d: &DetectedChange) -> (r: DetectedChange)
    ensures
        r == *d,
{
    DetectedChange {
        relative_path: d.relative_path.clone(),
        change_type: d.change_type,
        size: d.size,
        mtime: d.mtime,
        hash: clone_opt_string(&d.hash),
    }
}

/// Exact copy of a tracked row.
pub fn clone_tracked(t: &TrackedFile) -> (r: TrackedFile)
    ensures
        r == *t,
{
    TrackedFile {
        id: t.id,
        sync_pair_id: t.sync_pair_id,
        relative_path: t.relative_path.clone(),
        size: t.size,
        mtime_ms: t.mtime_ms,
        etag: clone_opt_string(&t.etag),
        content_hash: clone_opt_string(&t.content_hash),
        is_deleted: t.is_deleted,
        last_seen_at: t.last_seen_at,
    }
}

/// Index of the first tracked row with the given path.
pub fn find_tracked(v: &Vec<TrackedFile>, path: &str) -> (r: Option<usize>)
    ensures
        match r {
            Some(i) => i < v@.len() && v@[i as int].relative_path@ == path@
                && lookup_tracked(v@, path@) == Some(v@[i as int]),
            None => lookup_tracked(v@, path@) is None,
        },
{
    let n = v.len();
    let mut i: usize = 0;
    while i < n
        invariant
            n == v@.len(),
            i <= n,
            forall|j: int| 0 <= j < i ==> v@[j].relative_path@ != path@,
        decreases n - i,
    {
        if str_eq(v[i].relative_path.as_str(), path) {
            proof {
                lemma_lookup_tracked_skip(v@, path@, i as int);
            }
            return Some(i);
        }
        i = i + 1;
    }
    proof {
        lemma_lookup_tracked_skip(v@, path@, n as int);
    }
    None
}

/// Index of the first change entry with the given path.
pub fn find_change(v: &Vec<DetectedChange>, path: &str) -> (r: Option<usize>)
    ensures
        match r {
            Some(i) => i < v@.len() && v@[i as int].relative_path@ == path@
                && lookup_change(v@, path@) == Some(v@[i as int]),
            None => lookup_change(v@, path@) is None,
        },
{
    let n = v.len();
    let mut i: usize = 0;
    while i < n
        invariant
            n == v@.len(),
            i <= n,
            forall|j: int| 0 <= j < i ==> v@[j].relative_path@ != path@,
        decreases n - i,
    {
        if str_eq(v[i].relative_path.as_str(), path) {
            proof {
                lemma_lookup_change_skip(v@, path@, i as int);
            }
            return Some(i);
        }
        i = i + 1;
    }
    proof {
        lemma_lookup_change_skip(v@, path@, n as int);
    }
    None
}

} // verus!
