//! Executor and orchestration: starting, stepping, cancelling and finishing
//! one sync run. The host performs each transfer or deletion and reports its
//! outcome; the engine decides the order of actions, writes the tracked state
//! through the store after each success, and closes the session.

use vstd::prelude::*;
use crate::errors::AppError;
use crate::plan::{SyncPlan, plan_sync, planned_queues, planned_skipped};
use crate::store::{
    StateStore, lemma_rows_of_pair_unique, lookup_pair, lookup_row, lookup_session, rows_of_pair,
    saved_row,
};
use crate::sync_types::{
    DetectedChange, SyncPairStatus, SyncPreview, SyncSessionStatus, TrackedFile,
    change_paths_unique, clone_change,
};

verus! {

/// Progress notification for one processed file; delivery is the host's
/// best-effort concern and never affects the run.
pub struct SyncProgressEvent {
    pub pair_id: i64,
    pub session_id: i64,
    pub phase: String,
    pub current_file: Option<String>,
    pub files_processed: i64,
    pub total_files: i64,
    pub bytes_transferred: i64,
}

/// Completion notification for one run.
pub struct SyncCompleteEvent {
    pub pair_id: i64,
    pub session_id: i64,
    pub files_uploaded: i64,
    pub files_downloaded: i64,
    pub files_deleted_local: i64,
    pub files_deleted_remote: i64,
}

/// Error notification for one run.
pub struct SyncErrorEvent {
    pub pair_id: i64,
    pub session_id: Option<i64>,
    pub error: String,
}

/// Which pairs have a run in flight; a second start for the same pair fails
/// instead of queuing.
pub struct SyncState {
    pub active: Vec<i64>,
}

impl SyncState {
    /// No pair is running.
    pub fn new() -> (r: SyncState)
        ensures
            r.active@.len() == 0,
    {
        SyncState { active: Vec::new() }
    }

    /// Is a run in flight for this pair?
    pub fn is_active(&self, pair_id: i64) -> (r: bool)
        ensures
            r == self.active@.contains(pair_id),
    {
        let n = self.active.len();
        let mut i: usize = 0;
        while i < n
            invariant
                n == self.active@.len(),
                i <= n,
                forall|j: int| 0 <= j < i ==> self.active@[j] != pair_id,
            decreases n - i,
        {
            if self.active[i] == pair_id {
                return true;
            }
            i = i + 1;
        }
        false
    }

    /// Record a run as in flight.
    fn add(&mut self, pair_id: i64)
        ensures
            final(self).active@ == old(self).active@.push(pair_id),
    {
        self.active.push(pair_id);
    }

    /// Drop every registration of this pair.
    fn remove(&mut self, pair_id: i64)
        ensures
            !final(self).active@.contains(pair_id),
            forall|q: i64| q != pair_id
                ==> (final(self).active@.contains(q) <==> old(self).active@.contains(q)),
    {
        let ghost s = self.active@;
        let mut out: Vec<i64> = Vec::new();
        let n = self.active.len();
        let mut i: usize = 0;
        while i < n
            invariant
                n == s.len(),
                s == self.active@,
                i <= n,
                forall|k: int| 0 <= k < out@.len() ==> out@[k] != pair_id,
                forall|q: i64| q != pair_id
                    ==> (out@.contains(q) <==> s.take(i as int).contains(q)),
            decreases n - i,
        {
            let v = self.active[i];
            proof {
                assert(s.take(i as int + 1) =~= s.take(i as int).push(s[i as int]));
            }
            if v != pair_id {
                let ghost old_out = out@;
                out.push(v);
                proof {
                    assert forall|q: i64| q != pair_id
                        implies (out@.contains(q) <==> s.take(i as int + 1).contains(q)) by {
                        assert(out@ == old_out.push(v));
                        if s.take(i as int + 1).contains(q) {
                            let w = choose|w: int| 0 <= w < s.take(i as int + 1).len()
                                && (#[trigger] s.take(i as int + 1)[w]) == q;
                            if w < i as int {
                                assert(s.take(i as int)[w] == q);
                                assert(s.take(i as int).contains(q));
                            } else {
                                assert(out@[out@.len() - 1] == q);
                            }
                        }
                        if out@.contains(q) {
                            let w = choose|w: int| 0 <= w < out@.len() && (#[trigger] out@[w]) == q;
                            if w < old_out.len() {
                                assert(old_out[w] == q);
                                assert(old_out.contains(q));
                                let u = choose|u: int| 0 <= u < i && (#[trigger] s.take(i as int)[u]) == q;
                                assert(s.take(i as int + 1)[u] == q);
                                assert(s.take(i as int + 1).contains(q));
                            } else {
                                assert(s.take(i as int + 1)[i as int] == q);
                                assert(s.take(i as int + 1).contains(q));
                            }
                        }
                        if s.take(i as int).contains(q) {
                            let u3 = choose|u3: int| 0 <= u3 < i && (#[trigger] s.take(i as int)[u3]) == q;
                            assert(old_out.contains(q));
                            let u2 = choose|u2: int| 0 <= u2 < old_out.len()
                                && (#[trigger] old_out[u2]) == q;
                            assert(out@[u2] == q);
                            assert(out@.contains(q));
                        }
                    };
                }
            } else {
                proof {
                    assert forall|q: i64| q != pair_id
                        implies (out@.contains(q) <==> s.take(i as int + 1).contains(q)) by {
                        if s.take(i as int + 1).contains(q) {
                            let w = choose|w: int| 0 <= w < s.take(i as int + 1).len()
                                && (#[trigger] s.take(i as int + 1)[w]) == q;
                            if w < i as int {
                                assert(s.take(i as int)[w] == q);
                                assert(s.take(i as int).contains(q));
                            } else {
                                assert(s.take(i as int + 1)[w] == s[i as int]);
                                assert(q == pair_id);
                            }
                        }
                        if out@.contains(q) {
                            let u = choose|u: int| 0 <= u < i && (#[trigger] s.take(i as int)[u]) == q;
                            assert(s.take(i as int + 1)[u] == q);
                            assert(s.take(i as int + 1).contains(q));
                        }
                    };
                }
            }
            i = i + 1;
        }
        proof {
            assert(s.take(n as int) =~= s);
            if out@.contains(pair_id) {
                let w = choose|w: int| 0 <= w < out@.len() && (#[trigger] out@[w]) == pair_id;
            }
        }
        self.active = out;
    }
}

/// One action for the host to perform, in the executor's strict order.
pub enum SyncActionKind {
    Upload,
    Download,
    DeleteLocal,
    DeleteRemote,
}

/// `n`, cut to what a signed 64-bit counter can record. Counts of real
/// actions never reach the cut.
pub open spec fn clamp_i64(n: int) -> int {
    if n > i64::MAX as int {
        i64::MAX as int
    } else {
        n
    }
}

/// A count as a 64-bit record stores it.
fn count_as_i64(n: usize) -> (r: i64)
    ensures
        r as int == clamp_i64(n as int),
{
    if (n as u128) > (i64::MAX as u128) {
        i64::MAX
    } else {
        n as i64
    }
}

/// A wide count as a 64-bit record stores it.
fn wide_count_as_i64(n: u128) -> (r: i64)
    ensures
        r as int == clamp_i64(n as int),
{
    if n > (i64::MAX as u128) {
        i64::MAX
    } else {
        n as i64
    }
}

/// The state of one run: the planned queues and how far each has been
/// processed. The host asks for the next action, performs it, and reports the
/// outcome; an in-flight file operation always completes once started.
pub struct SyncRunner {
    pub pair_id: i64,
    pub session_id: i64,
    pub plan: SyncPlan,
    pub next_upload: usize,
    pub next_download: usize,
    pub next_delete_local: usize,
    pub next_delete_remote: usize,
    pub files_downloaded: usize,
    pub bytes_transferred: i64,
}

impl SyncRunner {
    /// Progress bounds.
    pub open spec fn wf(&self) -> bool {
        &&& self.next_upload <= self.plan.to_upload@.len()
        &&& self.next_download <= self.plan.to_download@.len()
        &&& self.next_delete_local <= self.plan.to_delete_local@.len()
        &&& self.next_delete_remote <= self.plan.to_delete_remote@.len()
        &&& self.files_downloaded <= self.next_download
        &&& 0 <= self.bytes_transferred
    }

    /// Has every queued action been processed?
    pub open spec fn done(&self) -> bool {
        &&& self.next_upload == self.plan.to_upload@.len()
        &&& self.next_download == self.plan.to_download@.len()
        &&& self.next_delete_local == self.plan.to_delete_local@.len()
        &&& self.next_delete_remote == self.plan.to_delete_remote@.len()
    }

    /// Count of processed actions.
    pub open spec fn processed(&self) -> int {
        self.next_upload + self.next_download + self.next_delete_local + self.next_delete_remote
    }

    /// Counters as the session records them.
    pub open spec fn files_uploaded(&self) -> int {
        self.next_upload as int
    }

    /// The next pending action with the file it concerns: uploads first, then
    /// downloads, then local deletes, then remote deletes.
    pub fn next_action(&self) -> (r: Option<(SyncActionKind, DetectedChange)>)
        requires
            self.wf(),
        ensures
            match r {
                Some((kind, c)) => !self.done() && match kind {
                    SyncActionKind::Upload => self.next_upload < self.plan.to_upload@.len()
                        && c == self.plan.to_upload@[self.next_upload as int],
                    SyncActionKind::Download => self.next_upload == self.plan.to_upload@.len()
                        && self.next_download < self.plan.to_download@.len()
                        && c == self.plan.to_download@[self.next_download as int],
                    SyncActionKind::DeleteLocal => self.next_upload == self.plan.to_upload@.len()
                        && self.next_download == self.plan.to_download@.len()
                        && self.next_delete_local < self.plan.to_delete_local@.len()
                        && c == self.plan.to_delete_local@[self.next_delete_local as int],
                    SyncActionKind::DeleteRemote => self.next_upload == self.plan.to_upload@.len()
                        && self.next_download == self.plan.to_download@.len()
                        && self.next_delete_local == self.plan.to_delete_local@.len()
                        && self.next_delete_remote < self.plan.to_delete_remote@.len()
                        && c == self.plan.to_delete_remote@[self.next_delete_remote as int],
                },
                None => self.done(),
            },
    {
        if self.next_upload < self.plan.to_upload.len() {
            Some((SyncActionKind::Upload, clone_change(&self.plan.to_upload[self.next_upload])))
        } else if self.next_download < self.plan.to_download.len() {
            Some((SyncActionKind::Download, clone_change(&self.plan.to_download[self.next_download])))
        } else if self.next_delete_local < self.plan.to_delete_local.len() {
            Some((SyncActionKind::DeleteLocal, clone_change(&self.plan.to_delete_local[self.next_delete_local])))
        } else if self.next_delete_remote < self.plan.to_delete_remote.len() {
            Some((SyncActionKind::DeleteRemote, clone_change(&self.plan.to_delete_remote[self.next_delete_remote])))
        } else {
            None
        }
    }

    /// A progress notification for the host to emit: phase label, processed
    /// and total counts, and bytes so far.
    pub fn progress_event(&self, phase: &str, current_file: Option<String>) -> (r: SyncProgressEvent)
        requires
            self.wf(),
        ensures
            r.pair_id == self.pair_id,
            r.session_id == self.session_id,
            r.phase@ == phase@,
            r.files_processed as int == clamp_i64(self.processed()),
            r.total_files as int == clamp_i64(self.plan.to_upload@.len() as int
                + self.plan.to_download@.len() + self.plan.to_delete_local@.len()
                + self.plan.to_delete_remote@.len()),
            r.bytes_transferred == self.bytes_transferred,
    {
        let total: i64 = wide_count_as_i64(
            self.plan.to_upload.len() as u128 + self.plan.to_download.len() as u128
                + self.plan.to_delete_local.len() as u128 + self.plan.to_delete_remote.len() as u128,
        );
        let processed: i64 = wide_count_as_i64(
            self.next_upload as u128 + self.next_download as u128
                + self.next_delete_local as u128 + self.next_delete_remote as u128,
        );
        SyncProgressEvent {
            pair_id: self.pair_id,
            session_id: self.session_id,
            phase: String::from_str(phase),
            current_file,
            files_processed: processed,
            total_files: total,
            bytes_transferred: self.bytes_transferred,
        }
    }

    /// Record a completed upload: the local row takes the size actually read
    /// and the scanned modification time (`fallback_mtime`, a fresh stat, is
    /// used only when the scan had none); the remote row takes only the new
    /// size, its hash and time deliberately left stale until the next scan.
    pub fn apply_upload(
        &mut self,
        store: &mut StateStore,
        read_size: i64,
        fallback_mtime: i64,
    )
        requires
            old(self).wf(),
            old(store).wf(),
            old(self).next_upload < old(self).plan.to_upload@.len(),
            0 <= read_size,
            old(self).bytes_transferred + read_size <= i64::MAX,
            old(store).next_file_id + 2 < i64::MAX,
        ensures
            final(self).wf(),
            final(store).wf(),
            final(self).pair_id == old(self).pair_id,
            final(self).session_id == old(self).session_id,
            final(self).plan == old(self).plan,
            final(self).next_upload == old(self).next_upload + 1,
            final(self).next_download == old(self).next_download,
            final(self).next_delete_local == old(self).next_delete_local,
            final(self).next_delete_remote == old(self).next_delete_remote,
            final(self).files_downloaded == old(self).files_downloaded,
            final(self).bytes_transferred == old(self).bytes_transferred + read_size,
            final(store).pairs == old(store).pairs,
            final(store).sessions == old(store).sessions,
            ({
                let c = old(self).plan.to_upload@[old(self).next_upload as int];
                let m = match c.mtime {
                    Some(v) => v,
                    None => fallback_mtime,
                };
                &&& (lookup_row(final(store).local_files@, old(self).pair_id, c.relative_path@)
                    matches Some(n) && saved_row(n, old(self).pair_id, c.relative_path@, read_size,
                        Some(m), None, None))
                &&& (lookup_row(final(store).remote_files@, old(self).pair_id, c.relative_path@)
                    matches Some(n) && saved_row(n, old(self).pair_id, c.relative_path@, read_size,
                        None, None, None))
                &&& forall|q: i64, p: Seq<char>| !(q == old(self).pair_id && p == c.relative_path@)
                    ==> lookup_row(final(store).local_files@, q, p)
                        == lookup_row(old(store).local_files@, q, p)
                        && lookup_row(final(store).remote_files@, q, p)
                            == lookup_row(old(store).remote_files@, q, p)
            }),
    {
        let qn = self.plan.to_upload.len();
        let c = clone_change(&self.plan.to_upload[self.next_upload]);
        let mtime: i64 = match c.mtime {
            Some(v) => v,
            None => fallback_mtime,
        };
        let r1 = store.save_local_file_state(self.pair_id, c.relative_path.as_str(), read_size, mtime, &None);
        let r2 = store.save_remote_file_state(self.pair_id, c.relative_path.as_str(), read_size, &None, None, &None);
        proof {
            assert(r1 is Ok);
            assert(r2 is Ok);
        }
        self.next_upload = self.next_upload + 1;
        self.bytes_transferred = self.bytes_transferred + read_size;
    }

    /// Record a completed download: the local row takes a fresh local stat,
    /// the remote row the originally scanned remote attributes. With
    /// `fetched == None` the object had vanished between scan and transfer:
    /// that race is skipped as non-fatal and nothing is recorded.
    pub fn apply_download(
        &mut self,
        store: &mut StateStore,
        fetched: Option<(i64, i64)>,
    )
        requires
            old(self).wf(),
            old(store).wf(),
            old(self).next_download < old(self).plan.to_download@.len(),
            match fetched {
                Some((size, _)) => 0 <= size && old(self).bytes_transferred + size <= i64::MAX,
                None => true,
            },
            old(store).next_file_id + 2 < i64::MAX,
        ensures
            final(self).wf(),
            final(store).wf(),
            final(self).pair_id == old(self).pair_id,
            final(self).session_id == old(self).session_id,
            final(self).plan == old(self).plan,
            final(self).next_upload == old(self).next_upload,
            final(self).next_download == old(self).next_download + 1,
            final(self).next_delete_local == old(self).next_delete_local,
            final(self).next_delete_remote == old(self).next_delete_remote,
            final(store).pairs == old(store).pairs,
            final(store).sessions == old(store).sessions,
            match fetched {
                Some((size, local_mtime)) => {
                    let c = old(self).plan.to_download@[old(self).next_download as int];
                    &&& final(self).files_downloaded == old(self).files_downloaded + 1
                    &&& final(self).bytes_transferred == old(self).bytes_transferred + size
                    &&& (lookup_row(final(store).local_files@, old(self).pair_id, c.relative_path@)
                        matches Some(n) && saved_row(n, old(self).pair_id, c.relative_path@, size,
                            Some(local_mtime), None, None))
                    &&& (lookup_row(final(store).remote_files@, old(self).pair_id, c.relative_path@)
                        matches Some(n) && saved_row(n, old(self).pair_id, c.relative_path@, size,
                            c.mtime, c.hash, None))
                    &&& forall|q: i64, p: Seq<char>| !(q == old(self).pair_id && p == c.relative_path@)
                        ==> lookup_row(final(store).local_files@, q, p)
                            == lookup_row(old(store).local_files@, q, p)
                            && lookup_row(final(store).remote_files@, q, p)
                                == lookup_row(old(store).remote_files@, q, p)
                },
                None => final(self).files_downloaded == old(self).files_downloaded
                    && final(self).bytes_transferred == old(self).bytes_transferred
                    && final(store).local_files == old(store).local_files
                    && final(store).remote_files == old(store).remote_files
                    && final(store).next_file_id == old(store).next_file_id,
            },
    {
        let qn = self.plan.to_download.len();
        match fetched {
            Some((size, local_mtime)) => {
                let c = clone_change(&self.plan.to_download[self.next_download]);
                let r1 = store.save_local_file_state(self.pair_id, c.relative_path.as_str(), size, local_mtime, &None);
                let hash = crate::sync_types::clone_opt_string(&c.hash);
                let r2 = store.save_remote_file_state(self.pair_id, c.relative_path.as_str(), size, &hash, c.mtime, &None);
                proof {
                    assert(r1 is Ok);
                    assert(r2 is Ok);
                }
                self.files_downloaded = self.files_downloaded + 1;
                self.bytes_transferred = self.bytes_transferred + size;
            },
            None => {},
        }
        self.next_download = self.next_download + 1;
    }

    /// Record a completed local deletion: both sides' rows are marked deleted,
    /// since both sides now converge to "absent".
    pub fn apply_delete_local(&mut self, store: &mut StateStore)
        requires
            old(self).wf(),
            old(store).wf(),
            old(self).next_delete_local < old(self).plan.to_delete_local@.len(),
        ensures
            final(self).wf(),
            final(store).wf(),
            final(self).pair_id == old(self).pair_id,
            final(self).session_id == old(self).session_id,
            final(self).plan == old(self).plan,
            final(self).next_upload == old(self).next_upload,
            final(self).next_download == old(self).next_download,
            final(self).next_delete_local == old(self).next_delete_local + 1,
            final(self).next_delete_remote == old(self).next_delete_remote,
            final(self).files_downloaded == old(self).files_downloaded,
            final(self).bytes_transferred == old(self).bytes_transferred,
            final(store).pairs == old(store).pairs,
            final(store).sessions == old(store).sessions,
            final(store).next_file_id == old(store).next_file_id,
            ({
                let c = old(self).plan.to_delete_local@[old(self).next_delete_local as int];
                &&& rows_marked_deleted(old(store).local_files@, final(store).local_files@,
                    old(self).pair_id, c.relative_path@)
                &&& rows_marked_deleted(old(store).remote_files@, final(store).remote_files@,
                    old(self).pair_id, c.relative_path@)
                &&& forall|q: i64, p: Seq<char>| !(q == old(self).pair_id && p == c.relative_path@)
                    ==> lookup_row(final(store).local_files@, q, p)
                        == lookup_row(old(store).local_files@, q, p)
                        && lookup_row(final(store).remote_files@, q, p)
                            == lookup_row(old(store).remote_files@, q, p)
            }),
    {
        let qn = self.plan.to_delete_local.len();
        let c = clone_change(&self.plan.to_delete_local[self.next_delete_local]);
        store.mark_local_file_deleted(self.pair_id, c.relative_path.as_str());
        store.mark_remote_file_deleted(self.pair_id, c.relative_path.as_str());
        self.next_delete_local = self.next_delete_local + 1;
    }

    /// Record a completed remote deletion: both sides' rows are marked
    /// deleted, same rationale as a local deletion.
    pub fn apply_delete_remote(&mut self, store: &mut StateStore)
        requires
            old(self).wf(),
            old(store).wf(),
            old(self).next_delete_remote < old(self).plan.to_delete_remote@.len(),
        ensures
            final(self).wf(),
            final(store).wf(),
            final(self).pair_id == old(self).pair_id,
            final(self).session_id == old(self).session_id,
            final(self).plan == old(self).plan,
            final(self).next_upload == old(self).next_upload,
            final(self).next_download == old(self).next_download,
            final(self).next_delete_local == old(self).next_delete_local,
            final(self).next_delete_remote == old(self).next_delete_remote + 1,
            final(self).files_downloaded == old(self).files_downloaded,
            final(self).bytes_transferred == old(self).bytes_transferred,
            final(store).pairs == old(store).pairs,
            final(store).sessions == old(store).sessions,
            final(store).next_file_id == old(store).next_file_id,
            ({
                let c = old(self).plan.to_delete_remote@[old(self).next_delete_remote as int];
                &&& rows_marked_deleted(old(store).local_files@, final(store).local_files@,
                    old(self).pair_id, c.relative_path@)
                &&& rows_marked_deleted(old(store).remote_files@, final(store).remote_files@,
                    old(self).pair_id, c.relative_path@)
                &&& forall|q: i64, p: Seq<char>| !(q == old(self).pair_id && p == c.relative_path@)
                    ==> lookup_row(final(store).local_files@, q, p)
                        == lookup_row(old(store).local_files@, q, p)
                        && lookup_row(final(store).remote_files@, q, p)
                            == lookup_row(old(store).remote_files@, q, p)
            }),
    {
        let qn = self.plan.to_delete_remote.len();
        let c = clone_change(&self.plan.to_delete_remote[self.next_delete_remote]);
        store.mark_local_file_deleted(self.pair_id, c.relative_path.as_str());
        store.mark_remote_file_deleted(self.pair_id, c.relative_path.as_str());
        self.next_delete_remote = self.next_delete_remote + 1;
    }
}

/// The table after marking (pid, path) deleted: the row, if it existed, is
/// retained with its deleted flag set; a missing key left the table unchanged.
pub open spec fn rows_marked_deleted(
    old_rows: Seq<TrackedFile>,
    new_rows: Seq<TrackedFile>,
    pid: i64,
    path: Seq<char>,
) -> bool {
    match lookup_row(old_rows, pid, path) {
        Some(t) => lookup_row(new_rows, pid, path) matches Some(r)
            && r == TrackedFile { is_deleted: true, last_seen_at: r.last_seen_at, ..t },
        None => lookup_row(new_rows, pid, path) is None,
    }
}

// ---------------------------------------------------------------------------
// Orchestration: preview, start, finish, fail, cancel.
// ---------------------------------------------------------------------------

/// Dry run: classify both current scans against the stored snapshots and
/// report the action queues that a run would process. Mutates nothing and
/// opens no session. Succeeds exactly when the pair is registered; both the
/// preview and the real run plan from the same pair of scan maps, so they
/// never diverge in their comparison basis.
pub fn preview_sync(
    store: &StateStore,
    pair_id: i64,
    local_current: &Vec<DetectedChange>,
    remote_current: &Vec<DetectedChange>,
) -> (r: Result<SyncPreview, AppError>)
    requires
        store.wf(),
        change_paths_unique(local_current@),
        change_paths_unique(remote_current@),
    ensures
        match r {
            Ok(v) => lookup_pair(store.pairs@, pair_id) matches Some(pair)
                && planned_queues(pair.sync_direction, pair.delete_propagation, false,
                    rows_of_pair(store.local_files@, pair_id),
                    rows_of_pair(store.remote_files@, pair_id), local_current@, remote_current@,
                    v.to_upload@, v.to_download@, v.to_delete_local@, v.to_delete_remote@),
            Err(e) => lookup_pair(store.pairs@, pair_id) is None
                && (e matches AppError::InvalidInput(m) && m@ == "Sync pair not found"@),
        },
        r is Ok <==> lookup_pair(store.pairs@, pair_id) is Some,
{
    let pair = match store.get_sync_pair(pair_id) {
        Some(p) => p,
        None => {
            return Err(AppError::InvalidInput(String::from_str("Sync pair not found")));
        },
    };
    let local_previous = store.get_local_file_states(pair_id);
    let remote_previous = store.get_remote_file_states(pair_id);
    proof {
        lemma_rows_of_pair_unique(store.local_files@, pair_id);
        lemma_rows_of_pair_unique(store.remote_files@, pair_id);
    }
    let plan = plan_sync(
        pair.sync_direction,
        pair.delete_propagation,
        false,
        &local_previous,
        &remote_previous,
        local_current,
        remote_current,
    );
    Ok(SyncPreview {
        to_upload: plan.to_upload,
        to_download: plan.to_download,
        to_delete_local: plan.to_delete_local,
        to_delete_remote: plan.to_delete_remote,
    })
}

/// Begin a run: the pair must be registered, not already running, and the
/// session table must have ids left. On success the pair is Syncing, a
/// Running session is open, the pair is registered as active, and (for a
/// resync) both snapshots are cleared so the bootstrap rule applies.
pub fn start_sync(
    store: &mut StateStore,
    state: &mut SyncState,
    pair_id: i64,
    is_resync: bool,
) -> (r: Result<i64, AppError>)
    requires
        old(store).wf(),
    ensures
        final(store).wf(),
        match r {
            Ok(sid) => {
                &&& lookup_pair(old(store).pairs@, pair_id) is Some
                &&& !old(state).active@.contains(pair_id)
                &&& (lookup_pair(final(store).pairs@, pair_id) matches Some(p)
                    && p.status == SyncPairStatus::Syncing)
                &&& (lookup_session(final(store).sessions@, sid) matches Some(s)
                    && s.sync_pair_id == pair_id && s.status == SyncSessionStatus::Running)
                &&& final(state).active@.contains(pair_id)
                &&& is_resync ==> rows_of_pair(final(store).local_files@, pair_id)
                    == Seq::<TrackedFile>::empty()
                    && rows_of_pair(final(store).remote_files@, pair_id) == Seq::<TrackedFile>::empty()
                &&& !is_resync ==> final(store).local_files == old(store).local_files
                    && final(store).remote_files == old(store).remote_files
            },
            Err(e) => {
                &&& (lookup_pair(old(store).pairs@, pair_id) is None
                    ==> (e matches AppError::InvalidInput(m) && m@ == "Sync pair not found"@)
                        && *final(store) == *old(store) && *final(state) == *old(state))
                &&& (lookup_pair(old(store).pairs@, pair_id) is Some
                    && old(state).active@.contains(pair_id)
                    ==> (e matches AppError::InvalidInput(m) && m@ == "Sync already in progress"@)
                        && *final(store) == *old(store) && *final(state) == *old(state))
            },
        },
        r is Ok <==> lookup_pair(old(store).pairs@, pair_id) is Some
            && !old(state).active@.contains(pair_id) && old(store).next_session_id < i64::MAX,
{
    if store.get_sync_pair(pair_id).is_none() {
        return Err(AppError::InvalidInput(String::from_str("Sync pair not found")));
    }
    if state.is_active(pair_id) {
        return Err(AppError::InvalidInput(String::from_str("Sync already in progress")));
    }
    store.update_sync_pair_status(pair_id, SyncPairStatus::Syncing);
    let session_id = match store.create_sync_session(pair_id) {
        Ok(sid) => sid,
        Err(e) => {
            return Err(e);
        },
    };
    state.add(pair_id);
    proof {
        assert(state.active@.last() == pair_id);
    }
    if is_resync {
        store.clear_tracked_files(pair_id);
    }
    Ok(session_id)
}

/// Plan one run from the stored snapshots and the two current scans, and hand
/// back the runner that will step through it. Succeeds exactly when the pair
/// is still registered.
pub fn begin_run(
    store: &StateStore,
    pair_id: i64,
    session_id: i64,
    is_resync: bool,
    local_current: &Vec<DetectedChange>,
    remote_current: &Vec<DetectedChange>,
) -> (r: Result<SyncRunner, AppError>)
    requires
        store.wf(),
        change_paths_unique(local_current@),
        change_paths_unique(remote_current@),
    ensures
        match r {
            Ok(runner) => lookup_pair(store.pairs@, pair_id) matches Some(pair)
                && runner.wf()
                && runner.pair_id == pair_id
                && runner.session_id == session_id
                && runner.next_upload == 0 && runner.next_download == 0
                && runner.next_delete_local == 0 && runner.next_delete_remote == 0
                && runner.files_downloaded == 0 && runner.bytes_transferred == 0
                && planned_queues(pair.sync_direction, pair.delete_propagation, is_resync,
                    rows_of_pair(store.local_files@, pair_id),
                    rows_of_pair(store.remote_files@, pair_id), local_current@, remote_current@,
                    runner.plan.to_upload@, runner.plan.to_download@, runner.plan.to_delete_local@,
                    runner.plan.to_delete_remote@)
                && planned_skipped(pair.sync_direction, pair.delete_propagation, is_resync,
                    rows_of_pair(store.local_files@, pair_id),
                    rows_of_pair(store.remote_files@, pair_id), local_current@, remote_current@,
                    runner.plan.skipped_local_deletions@, runner.plan.skipped_remote_deletions@),
            Err(e) => lookup_pair(store.pairs@, pair_id) is None
                && (e matches AppError::InvalidInput(m) && m@ == "Sync pair not found"@),
        },
        r is Ok <==> lookup_pair(store.pairs@, pair_id) is Some,
{
    let pair = match store.get_sync_pair(pair_id) {
        Some(p) => p,
        None => {
            return Err(AppError::InvalidInput(String::from_str("Sync pair not found")));
        },
    };
    let local_previous = store.get_local_file_states(pair_id);
    let remote_previous = store.get_remote_file_states(pair_id);
    proof {
        lemma_rows_of_pair_unique(store.local_files@, pair_id);
        lemma_rows_of_pair_unique(store.remote_files@, pair_id);
    }
    let plan = plan_sync(
        pair.sync_direction,
        pair.delete_propagation,
        is_resync,
        &local_previous,
        &remote_previous,
        local_current,
        remote_current,
    );
    Ok(SyncRunner {
        pair_id,
        session_id,
        plan,
        next_upload: 0,
        next_download: 0,
        next_delete_local: 0,
        next_delete_remote: 0,
        files_downloaded: 0,
        bytes_transferred: 0,
    })
}

/// Finish a fully processed run: record the skipped source-side deletions in
/// the store (so they are not re-detected, with no destination action), write
/// the session's final counters, close it as Completed, return the pair to
/// Idle with a fresh last-sync timestamp, and deregister the run.
pub fn complete_run(runner: SyncRunner, store: &mut StateStore, state: &mut SyncState) -> (r: SyncCompleteEvent)
    requires
        old(store).wf(),
        runner.wf(),
        runner.done(),
        change_paths_unique(runner.plan.skipped_local_deletions@),
        change_paths_unique(runner.plan.skipped_remote_deletions@),
    ensures
        final(store).wf(),
        final(store).pairs@.len() == old(store).pairs@.len(),
        final(store).sessions@.len() == old(store).sessions@.len(),
        final(store).next_pair_id == old(store).next_pair_id,
        final(store).next_file_id == old(store).next_file_id,
        final(store).next_session_id == old(store).next_session_id,
        !final(state).active@.contains(runner.pair_id),
        forall|q: i64| q != runner.pair_id
            ==> (final(state).active@.contains(q) <==> old(state).active@.contains(q)),
        (lookup_session(old(store).sessions@, runner.session_id) matches Some(s)
            && s.status == SyncSessionStatus::Running) ==> (
            lookup_session(final(store).sessions@, runner.session_id) matches Some(s2)
                && s2.status == SyncSessionStatus::Completed
                && s2.files_uploaded as int == clamp_i64(runner.files_uploaded())
                && s2.files_downloaded as int == clamp_i64(runner.files_downloaded as int)
                && s2.files_deleted_local as int == clamp_i64(runner.next_delete_local as int)
                && s2.files_deleted_remote as int == clamp_i64(runner.next_delete_remote as int)
                && s2.bytes_transferred == runner.bytes_transferred),
        forall|q: i64| q != runner.session_id
            ==> lookup_session(final(store).sessions@, q) == lookup_session(old(store).sessions@, q),
        lookup_pair(old(store).pairs@, runner.pair_id) is Some ==> (
            lookup_pair(final(store).pairs@, runner.pair_id) matches Some(p)
                && p.status == SyncPairStatus::Idle && p.last_error is None
                && p.last_sync_at is Some),
        forall|q: i64| q != runner.pair_id
            ==> lookup_pair(final(store).pairs@, q) == lookup_pair(old(store).pairs@, q),
        forall|k: int| 0 <= k < runner.plan.skipped_local_deletions@.len()
            ==> rows_marked_deleted(old(store).local_files@, final(store).local_files@,
                runner.pair_id, (#[trigger] runner.plan.skipped_local_deletions@[k]).relative_path@),
        forall|k: int| 0 <= k < runner.plan.skipped_remote_deletions@.len()
            ==> rows_marked_deleted(old(store).remote_files@, final(store).remote_files@,
                runner.pair_id, (#[trigger] runner.plan.skipped_remote_deletions@[k]).relative_path@),
        forall|q: i64, p: Seq<char>| !(q == runner.pair_id && (exists|k: int| 0 <= k
            < runner.plan.skipped_local_deletions@.len()
            && (#[trigger] runner.plan.skipped_local_deletions@[k]).relative_path@ == p))
            ==> lookup_row(final(store).local_files@, q, p) == lookup_row(old(store).local_files@, q, p),
        forall|q: i64, p: Seq<char>| !(q == runner.pair_id && (exists|k: int| 0 <= k
            < runner.plan.skipped_remote_deletions@.len()
            && (#[trigger] runner.plan.skipped_remote_deletions@[k]).relative_path@ == p))
            ==> lookup_row(final(store).remote_files@, q, p) == lookup_row(old(store).remote_files@, q, p),
        r.pair_id == runner.pair_id,
        r.session_id == runner.session_id,
        r.files_uploaded as int == clamp_i64(runner.files_uploaded()),
        r.files_downloaded as int == clamp_i64(runner.files_downloaded as int),
        r.files_deleted_local as int == clamp_i64(runner.next_delete_local as int),
        r.files_deleted_remote as int == clamp_i64(runner.next_delete_remote as int),
{
    let ghost orig_local = store.local_files@;
    let ghost orig_remote = store.remote_files@;
    let pair_id = runner.pair_id;

    let nsl = runner.plan.skipped_local_deletions.len();
    let mut i: usize = 0;
    while i < nsl
        invariant
            old(store).wf(),
            store.wf(),
            nsl == runner.plan.skipped_local_deletions@.len(),
            i <= nsl,
            change_paths_unique(runner.plan.skipped_local_deletions@),
            orig_local == old(store).local_files@,
            store.pairs == old(store).pairs,
            store.remote_files == old(store).remote_files,
            store.sessions == old(store).sessions,
            store.next_pair_id == old(store).next_pair_id,
            store.next_file_id == old(store).next_file_id,
            store.next_session_id == old(store).next_session_id,
            forall|k: int| 0 <= k < i ==> rows_marked_deleted(orig_local, store.local_files@,
                pair_id, (#[trigger] runner.plan.skipped_local_deletions@[k]).relative_path@),
            forall|q: i64, p: Seq<char>| !(q == pair_id && (exists|k: int| 0 <= k < i
                && (#[trigger] runner.plan.skipped_local_deletions@[k]).relative_path@ == p))
                ==> lookup_row(store.local_files@, q, p) == lookup_row(orig_local, q, p),
        decreases nsl - i,
    {
        let c = &runner.plan.skipped_local_deletions[i];
        let ghost pre = store.local_files@;
        store.mark_local_file_deleted(pair_id, c.relative_path.as_str());
        proof {
            assert(lookup_row(pre, pair_id, c.relative_path@)
                == lookup_row(orig_local, pair_id, c.relative_path@)) by {
                if exists|k: int| 0 <= k < i
                    && runner.plan.skipped_local_deletions@[k].relative_path@ == c.relative_path@ {
                    let k = choose|k: int| 0 <= k < i
                        && runner.plan.skipped_local_deletions@[k].relative_path@ == c.relative_path@;
                    assert(runner.plan.skipped_local_deletions@[k].relative_path@
                        != runner.plan.skipped_local_deletions@[i as int].relative_path@);
                }
            };
            assert forall|k: int| 0 <= k < i + 1 implies rows_marked_deleted(orig_local,
                store.local_files@, pair_id,
                (#[trigger] runner.plan.skipped_local_deletions@[k]).relative_path@) by {
                let pk = runner.plan.skipped_local_deletions@[k].relative_path@;
                if k < i {
                    if pk != c.relative_path@ {
                        assert(lookup_row(store.local_files@, pair_id, pk)
                            == lookup_row(pre, pair_id, pk));
                    } else {
                        assert(runner.plan.skipped_local_deletions@[k].relative_path@
                            != runner.plan.skipped_local_deletions@[i as int].relative_path@);
                    }
                }
            };
        }
        i = i + 1;
    }

    let nsr = runner.plan.skipped_remote_deletions.len();
    let mut i: usize = 0;
    while i < nsr
        invariant
            old(store).wf(),
            store.wf(),
            nsr == runner.plan.skipped_remote_deletions@.len(),
            i <= nsr,
            change_paths_unique(runner.plan.skipped_remote_deletions@),
            orig_remote == old(store).remote_files@,
            store.pairs == old(store).pairs,
            store.sessions == old(store).sessions,
            store.next_pair_id == old(store).next_pair_id,
            store.next_file_id == old(store).next_file_id,
            store.next_session_id == old(store).next_session_id,
            forall|k: int| 0 <= k < runner.plan.skipped_local_deletions@.len()
                ==> rows_marked_deleted(orig_local, store.local_files@, pair_id,
                    (#[trigger] runner.plan.skipped_local_deletions@[k]).relative_path@),
            forall|q: i64, p: Seq<char>| !(q == pair_id && (exists|k: int| 0 <= k
                < runner.plan.skipped_local_deletions@.len()
                && (#[trigger] runner.plan.skipped_local_deletions@[k]).relative_path@ == p))
                ==> lookup_row(store.local_files@, q, p) == lookup_row(orig_local, q, p),
            forall|k: int| 0 <= k < i ==> rows_marked_deleted(orig_remote, store.remote_files@,
                pair_id, (#[trigger] runner.plan.skipped_remote_deletions@[k]).relative_path@),
            forall|q: i64, p: Seq<char>| !(q == pair_id && (exists|k: int| 0 <= k < i
                && (#[trigger] runner.plan.skipped_remote_deletions@[k]).relative_path@ == p))
                ==> lookup_row(store.remote_files@, q, p) == lookup_row(orig_remote, q, p),
        decreases nsr - i,
    {
        let c = &runner.plan.skipped_remote_deletions[i];
        let ghost pre = store.remote_files@;
        store.mark_remote_file_deleted(pair_id, c.relative_path.as_str());
        proof {
            assert(lookup_row(pre, pair_id, c.relative_path@)
                == lookup_row(orig_remote, pair_id, c.relative_path@)) by {
                if exists|k: int| 0 <= k < i
                    && runner.plan.skipped_remote_deletions@[k].relative_path@ == c.relative_path@ {
                    let k = choose|k: int| 0 <= k < i
                        && runner.plan.skipped_remote_deletions@[k].relative_path@ == c.relative_path@;
                    assert(runner.plan.skipped_remote_deletions@[k].relative_path@
                        != runner.plan.skipped_remote_deletions@[i as int].relative_path@);
                }
            };
            assert forall|k: int| 0 <= k < i + 1 implies rows_marked_deleted(orig_remote,
                store.remote_files@, pair_id,
                (#[trigger] runner.plan.skipped_remote_deletions@[k]).relative_path@) by {
                let pk = runner.plan.skipped_remote_deletions@[k].relative_path@;
                if k < i {
                    if pk != c.relative_path@ {
                        assert(lookup_row(store.remote_files@, pair_id, pk)
                            == lookup_row(pre, pair_id, pk));
                    } else {
                        assert(runner.plan.skipped_remote_deletions@[k].relative_path@
                            != runner.plan.skipped_remote_deletions@[i as int].relative_path@);
                    }
                }
            };
        }
        i = i + 1;
    }

    let files_uploaded = count_as_i64(runner.next_upload);
    let files_downloaded = count_as_i64(runner.files_downloaded);
    let files_deleted_local = count_as_i64(runner.next_delete_local);
    let files_deleted_remote = count_as_i64(runner.next_delete_remote);
    store.update_sync_session_progress(
        runner.session_id,
        files_uploaded,
        files_downloaded,
        files_deleted_local,
        files_deleted_remote,
        runner.bytes_transferred,
    );
    store.complete_sync_session(runner.session_id);
    store.mark_sync_completed(pair_id);
    state.remove(pair_id);
    SyncCompleteEvent {
        pair_id,
        session_id: runner.session_id,
        files_uploaded,
        files_downloaded,
        files_deleted_local,
        files_deleted_remote,
    }
}

/// Abort a run on its first error: the session is closed as Failed with the
/// message, the pair shows Error with the same message, and the run is
/// deregistered. Actions already applied stay applied; there is no undo.
pub fn fail_run(runner: &SyncRunner, store: &mut StateStore, state: &mut SyncState, error: &str)
    requires
        old(store).wf(),
    ensures
        final(store).wf(),
        final(store).local_files == old(store).local_files,
        final(store).remote_files == old(store).remote_files,
        final(store).pairs@.len() == old(store).pairs@.len(),
        final(store).sessions@.len() == old(store).sessions@.len(),
        final(store).next_pair_id == old(store).next_pair_id,
        final(store).next_file_id == old(store).next_file_id,
        final(store).next_session_id == old(store).next_session_id,
        !final(state).active@.contains(runner.pair_id),
        forall|q: i64| q != runner.pair_id
            ==> (final(state).active@.contains(q) <==> old(state).active@.contains(q)),
        (lookup_session(old(store).sessions@, runner.session_id) matches Some(s)
            && s.status == SyncSessionStatus::Running) ==> (
            lookup_session(final(store).sessions@, runner.session_id) matches Some(s2)
                && s2.status == SyncSessionStatus::Failed
                && (s2.error_message matches Some(m) && m@ == error@)),
        forall|q: i64| q != runner.session_id
            ==> lookup_session(final(store).sessions@, q) == lookup_session(old(store).sessions@, q),
        lookup_pair(old(store).pairs@, runner.pair_id) is Some ==> (
            lookup_pair(final(store).pairs@, runner.pair_id) matches Some(p)
                && p.status == SyncPairStatus::Error
                && (p.last_error matches Some(m) && m@ == error@)),
        forall|q: i64| q != runner.pair_id
            ==> lookup_pair(final(store).pairs@, q) == lookup_pair(old(store).pairs@, q),
    {
    store.fail_sync_session(runner.session_id, error);
    store.mark_sync_failed(runner.pair_id, error);
    state.remove(runner.pair_id);
}

/// Wind down a cancelled run: the session is closed as Cancelled (see
/// `StateStore::cancel_sync_session` for the choice this documents), the pair
/// returns to Idle with no error recorded, and the run is deregistered.
/// Actions already applied stay applied.
pub fn cancel_run(runner: &SyncRunner, store: &mut StateStore, state: &mut SyncState)
    requires
        old(store).wf(),
    ensures
        final(store).wf(),
        final(store).local_files == old(store).local_files,
        final(store).remote_files == old(store).remote_files,
        final(store).pairs@.len() == old(store).pairs@.len(),
        final(store).sessions@.len() == old(store).sessions@.len(),
        final(store).next_pair_id == old(store).next_pair_id,
        final(store).next_file_id == old(store).next_file_id,
        final(store).next_session_id == old(store).next_session_id,
        !final(state).active@.contains(runner.pair_id),
        forall|q: i64| q != runner.pair_id
            ==> (final(state).active@.contains(q) <==> old(state).active@.contains(q)),
        (lookup_session(old(store).sessions@, runner.session_id) matches Some(s)
            && s.status == SyncSessionStatus::Running) ==> (
            lookup_session(final(store).sessions@, runner.session_id) matches Some(s2)
                && s2.status == SyncSessionStatus::Cancelled),
        forall|q: i64| q != runner.session_id
            ==> lookup_session(final(store).sessions@, q) == lookup_session(old(store).sessions@, q),
        lookup_pair(old(store).pairs@, runner.pair_id) is Some ==> (
            lookup_pair(final(store).pairs@, runner.pair_id) matches Some(p)
                && p.status == SyncPairStatus::Idle),
        forall|q: i64| q != runner.pair_id
            ==> lookup_pair(final(store).pairs@, q) == lookup_pair(old(store).pairs@, q),
{
    store.cancel_sync_session(runner.session_id);
    store.update_sync_pair_status(runner.pair_id, SyncPairStatus::Idle);
    state.remove(runner.pair_id);
}

/// Request cancellation of a pair's run: idempotent and best-effort. The pair
/// returns to Idle at once and the run is deregistered; the host's polling
/// loop stops at the next action boundary.
pub fn cancel_sync(store: &mut StateStore, state: &mut SyncState, pair_id: i64)
    requires
        old(store).wf(),
    ensures
        final(store).wf(),
        final(store).local_files == old(store).local_files,
        final(store).remote_files == old(store).remote_files,
        final(store).sessions == old(store).sessions,
        final(store).pairs@.len() == old(store).pairs@.len(),
        final(store).next_pair_id == old(store).next_pair_id,
        final(store).next_file_id == old(store).next_file_id,
        final(store).next_session_id == old(store).next_session_id,
        !final(state).active@.contains(pair_id),
        forall|q: i64| q != pair_id
            ==> (final(state).active@.contains(q) <==> old(state).active@.contains(q)),
        lookup_pair(old(store).pairs@, pair_id) is Some ==> (
            lookup_pair(final(store).pairs@, pair_id) matches Some(p)
                && p.status == SyncPairStatus::Idle),
        forall|q: i64| q != pair_id
            ==> lookup_pair(final(store).pairs@, q) == lookup_pair(old(store).pairs@, q),
{
    store.update_sync_pair_status(pair_id, SyncPairStatus::Idle);
    state.remove(pair_id);
}

} // verus!
