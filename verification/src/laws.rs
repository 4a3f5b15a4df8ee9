//! The engine's cross-cutting guarantees, stated and proved over the same
//! spec functions the components' contracts use.

use vstd::prelude::*;
use crate::detect::{change_listed, classify, entry_size};
use crate::plan::{bootstrap_queue, planned_queues, planned_skipped, selects};
use crate::sync_types::{
    ChangeType, DetectedChange, SyncDirection, TrackedFile, change_paths_unique,
    lemma_lookup_change_at, lookup_change, lookup_tracked,
};

verus! {

/// A path marked deleted that reappears is classified New, never Modified:
/// the retained deleted flag distinguishes it from an untouched file.
pub proof fn lemma_reappearance(prev: Seq<TrackedFile>, cur: Seq<DetectedChange>, p: Seq<char>)
    requires
        lookup_tracked(prev, p) matches Some(t) && t.is_deleted,
        lookup_change(cur, p) is Some,
    ensures
        classify(lookup_tracked(prev, p), lookup_change(cur, p).unwrap()) == ChangeType::New,
        change_listed(prev, cur, p),
{
}

/// After a delete action both sides' rows for the path are marked deleted
/// (the executor's contract); this law adds that a later scan finding the
/// path absent on both sides produces no further change on either side.
pub proof fn lemma_deletion_convergence(
    prev_local: Seq<TrackedFile>,
    cur_local: Seq<DetectedChange>,
    prev_remote: Seq<TrackedFile>,
    cur_remote: Seq<DetectedChange>,
    p: Seq<char>,
)
    requires
        lookup_tracked(prev_local, p) matches Some(t) && t.is_deleted,
        lookup_tracked(prev_remote, p) matches Some(t) && t.is_deleted,
        lookup_change(cur_local, p) is None,
        lookup_change(cur_remote, p) is None,
    ensures
        !change_listed(prev_local, cur_local, p),
        !change_listed(prev_remote, cur_remote, p),
{
}

/// With delete propagation disabled the planner queues no destination action
/// (its own contract); this law adds that once the skipped source deletion is
/// recorded in the store, the still-absent path is not re-detected as Deleted
/// on the next run.
pub proof fn lemma_skipped_deletion_not_redetected(
    prev: Seq<TrackedFile>,
    cur: Seq<DetectedChange>,
    p: Seq<char>,
)
    requires
        lookup_tracked(prev, p) matches Some(t) && t.is_deleted,
        lookup_change(cur, p) is None,
    ensures
        !change_listed(prev, cur, p),
{
}

/// Bootstrap: with an empty tracked snapshot on the authoritative side, the
/// planner queues every current file of that side as New, regardless of
/// history, and no deletions at all.
pub proof fn lemma_bootstrap(
    direction: SyncDirection,
    delete_propagation: bool,
    is_resync: bool,
    prev_local: Seq<TrackedFile>,
    prev_remote: Seq<TrackedFile>,
    cur_local: Seq<DetectedChange>,
    cur_remote: Seq<DetectedChange>,
    to_upload: Seq<DetectedChange>,
    to_download: Seq<DetectedChange>,
    to_delete_local: Seq<DetectedChange>,
    to_delete_remote: Seq<DetectedChange>,
)
    requires
        planned_queues(direction, delete_propagation, is_resync, prev_local, prev_remote,
            cur_local, cur_remote, to_upload, to_download, to_delete_local, to_delete_remote),
        direction == SyncDirection::UploadOnly ==> prev_local.len() == 0,
        direction == SyncDirection::DownloadOnly ==> prev_remote.len() == 0,
    ensures
        direction == SyncDirection::UploadOnly ==> bootstrap_queue(cur_local, to_upload),
        direction == SyncDirection::DownloadOnly ==> bootstrap_queue(cur_remote, to_download),
        to_delete_local.len() == 0,
        to_delete_remote.len() == 0,
{
}

/// Direction exclusivity: an UploadOnly plan never holds download or
/// local-delete actions, and a DownloadOnly plan never holds upload or
/// remote-delete actions.
pub proof fn lemma_direction_exclusivity(
    direction: SyncDirection,
    delete_propagation: bool,
    is_resync: bool,
    prev_local: Seq<TrackedFile>,
    prev_remote: Seq<TrackedFile>,
    cur_local: Seq<DetectedChange>,
    cur_remote: Seq<DetectedChange>,
    to_upload: Seq<DetectedChange>,
    to_download: Seq<DetectedChange>,
    to_delete_local: Seq<DetectedChange>,
    to_delete_remote: Seq<DetectedChange>,
)
    requires
        planned_queues(direction, delete_propagation, is_resync, prev_local, prev_remote,
            cur_local, cur_remote, to_upload, to_download, to_delete_local, to_delete_remote),
    ensures
        direction == SyncDirection::UploadOnly ==> to_download.len() == 0
            && to_delete_local.len() == 0,
        direction == SyncDirection::DownloadOnly ==> to_upload.len() == 0
            && to_delete_remote.len() == 0,
{
}

/// Delete-propagation gating: with propagation disabled the plan holds no
/// destination deletion; the source deletions land in the skipped list, whose
/// recording in the store is what keeps them from being re-detected (see
/// `lemma_skipped_deletion_not_redetected`).
pub proof fn lemma_delete_propagation_gating(
    direction: SyncDirection,
    is_resync: bool,
    prev_local: Seq<TrackedFile>,
    prev_remote: Seq<TrackedFile>,
    cur_local: Seq<DetectedChange>,
    cur_remote: Seq<DetectedChange>,
    to_upload: Seq<DetectedChange>,
    to_download: Seq<DetectedChange>,
    to_delete_local: Seq<DetectedChange>,
    to_delete_remote: Seq<DetectedChange>,
    skipped_local: Seq<DetectedChange>,
    skipped_remote: Seq<DetectedChange>,
)
    requires
        planned_queues(direction, false, is_resync, prev_local, prev_remote, cur_local,
            cur_remote, to_upload, to_download, to_delete_local, to_delete_remote),
        planned_skipped(direction, false, is_resync, prev_local, prev_remote,
            cur_local, cur_remote, skipped_local, skipped_remote),
    ensures
        to_delete_local.len() == 0,
        to_delete_remote.len() == 0,
        direction == SyncDirection::UploadOnly && !is_resync && prev_local.len() > 0
            ==> selects(prev_local, cur_local, skipped_local, false, true),
        direction == SyncDirection::DownloadOnly && !is_resync && prev_remote.len() > 0
            ==> selects(prev_remote, cur_remote, skipped_remote, false, true),
{
}

/// What one completed run leaves in the authoritative side's snapshot for
/// path `p`, assuming no external changes (every outcome matched the scan:
/// sizes as scanned, scanned times present and recorded):
/// - a current path that was Unchanged keeps its row;
/// - a transferred (New or Modified) path has a live row carrying the scanned
///   size and time;
/// - a tracked, not-deleted path absent from the scan — whether its deletion
///   was propagated or skipped — has its row marked deleted;
/// - everything else is untouched.
pub open spec fn run_recorded_at(
    prev: Seq<TrackedFile>,
    cur: Seq<DetectedChange>,
    new_prev: Seq<TrackedFile>,
    p: Seq<char>,
) -> bool {
    match lookup_change(cur, p) {
        Some(e) => if classify(lookup_tracked(prev, p), e) == ChangeType::Unchanged {
            lookup_tracked(new_prev, p) == lookup_tracked(prev, p)
        } else {
            lookup_tracked(new_prev, p) matches Some(t) && !t.is_deleted
                && t.size == entry_size(e) && t.mtime_ms == e.mtime
        },
        None => match lookup_tracked(prev, p) {
            Some(t0) => if t0.is_deleted {
                lookup_tracked(new_prev, p) == lookup_tracked(prev, p)
            } else {
                lookup_tracked(new_prev, p) matches Some(t) && t.is_deleted
            },
            None => lookup_tracked(new_prev, p) == lookup_tracked(prev, p),
        },
    }
}

/// After a completed run with no external changes, re-detecting against the
/// same scan lists nothing: every current path is Unchanged and every
/// tracked-but-absent path is already marked deleted.
pub proof fn lemma_second_detection_quiescent(
    prev: Seq<TrackedFile>,
    cur: Seq<DetectedChange>,
    new_prev: Seq<TrackedFile>,
)
    requires
        forall|p: Seq<char>| #[trigger] run_recorded_at(prev, cur, new_prev, p),
    ensures
        forall|p: Seq<char>| !(#[trigger] change_listed(new_prev, cur, p)),
{
    assert forall|p: Seq<char>| !(#[trigger] change_listed(new_prev, cur, p)) by {
        assert(run_recorded_at(prev, cur, new_prev, p));
    };
}

/// A queue that selects among listed paths is empty when nothing is listed.
pub proof fn lemma_empty_selection(
    prev: Seq<TrackedFile>,
    cur: Seq<DetectedChange>,
    q: Seq<DetectedChange>,
    new_mod: bool,
    del: bool,
)
    requires
        selects(prev, cur, q, new_mod, del),
        forall|p: Seq<char>| !(#[trigger] change_listed(prev, cur, p)),
    ensures
        q.len() == 0,
{
    if q.len() > 0 {
        lemma_lookup_change_at(q, 0);
        assert(change_listed(prev, cur, q[0].relative_path@));
    }
}

/// Idempotence, upload direction: with no external changes, planning a second
/// run over the snapshot a completed run left behind yields zero actions.
pub proof fn lemma_upload_sync_idempotent(
    prev: Seq<TrackedFile>,
    cur: Seq<DetectedChange>,
    new_prev: Seq<TrackedFile>,
    other_prev: Seq<TrackedFile>,
    other_cur: Seq<DetectedChange>,
    delete_propagation: bool,
    to_upload: Seq<DetectedChange>,
    to_download: Seq<DetectedChange>,
    to_delete_local: Seq<DetectedChange>,
    to_delete_remote: Seq<DetectedChange>,
)
    requires
        change_paths_unique(cur),
        forall|p: Seq<char>| #[trigger] run_recorded_at(prev, cur, new_prev, p),
        planned_queues(SyncDirection::UploadOnly, delete_propagation, false, new_prev, other_prev,
            cur, other_cur, to_upload, to_download, to_delete_local, to_delete_remote),
    ensures
        to_upload.len() == 0,
        to_download.len() == 0,
        to_delete_local.len() == 0,
        to_delete_remote.len() == 0,
{
    lemma_second_detection_quiescent(prev, cur, new_prev);
    if new_prev.len() == 0 {
        // The bootstrap rule applied, so the scan itself must be empty:
        // a non-empty scan would have left a row behind.
        if cur.len() > 0 {
            lemma_lookup_change_at(cur, 0);
            let p0 = cur[0].relative_path@;
            assert(run_recorded_at(prev, cur, new_prev, p0));
            assert(lookup_tracked(new_prev, p0) is None);
            if classify(lookup_tracked(prev, p0), cur[0]) == ChangeType::Unchanged {
                assert(lookup_tracked(prev, p0) matches Some(t) && !t.is_deleted);
            }
        }
        assert(bootstrap_queue(cur, to_upload));
    } else {
        lemma_empty_selection(new_prev, cur, to_upload, true, false);
        if delete_propagation {
            lemma_empty_selection(new_prev, cur, to_delete_remote, false, true);
        }
    }
}

/// Idempotence, download direction: symmetric to the upload case, with the
/// remote side authoritative.
pub proof fn lemma_download_sync_idempotent(
    prev: Seq<TrackedFile>,
    cur: Seq<DetectedChange>,
    new_prev: Seq<TrackedFile>,
    other_prev: Seq<TrackedFile>,
    other_cur: Seq<DetectedChange>,
    delete_propagation: bool,
    to_upload: Seq<DetectedChange>,
    to_download: Seq<DetectedChange>,
    to_delete_local: Seq<DetectedChange>,
    to_delete_remote: Seq<DetectedChange>,
)
    requires
        change_paths_unique(cur),
        forall|p: Seq<char>| #[trigger] run_recorded_at(prev, cur, new_prev, p),
        planned_queues(SyncDirection::DownloadOnly, delete_propagation, false, other_prev, new_prev,
            other_cur, cur, to_upload, to_download, to_delete_local, to_delete_remote),
    ensures
        to_upload.len() == 0,
        to_download.len() == 0,
        to_delete_local.len() == 0,
        to_delete_remote.len() == 0,
{
    lemma_second_detection_quiescent(prev, cur, new_prev);
    if new_prev.len() == 0 {
        if cur.len() > 0 {
            lemma_lookup_change_at(cur, 0);
            let p0 = cur[0].relative_path@;
            assert(run_recorded_at(prev, cur, new_prev, p0));
            assert(lookup_tracked(new_prev, p0) is None);
            if classify(lookup_tracked(prev, p0), cur[0]) == ChangeType::Unchanged {
                assert(lookup_tracked(prev, p0) matches Some(t) && !t.is_deleted);
            }
        }
        assert(bootstrap_queue(cur, to_download));
    } else {
        lemma_empty_selection(new_prev, cur, to_download, true, false);
        if delete_propagation {
            lemma_empty_selection(new_prev, cur, to_delete_local, false, true);
        }
    }
}

} // verus!
