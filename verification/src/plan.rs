//! Planner: combines one side's detected changes with the sync direction and
//! the delete-propagation policy into concrete action queues.

use vstd::prelude::*;
use crate::detect::{change_entry_ok, change_listed, classify, detect_changes};
use crate::sync_types::{
    ChangeType, DetectedChange, SyncDirection, TrackedFile, change_paths_unique, clone_change,
    lemma_lookup_change_at, lemma_lookup_change_none, lemma_lookup_change_push,
    lemma_lookup_change_some, lookup_change, lookup_tracked, tracked_paths_unique,
};

verus! {

/// Action queues of one run, plus the source-side deletions that were
/// detected but, with propagation disabled, must only be recorded in the
/// state store (no destination action).
pub struct SyncPlan {
    pub to_upload: Vec<DetectedChange>,
    pub to_download: Vec<DetectedChange>,
    pub to_delete_local: Vec<DetectedChange>,
    pub to_delete_remote: Vec<DetectedChange>,
    pub skipped_local_deletions: Vec<DetectedChange>,
    pub skipped_remote_deletions: Vec<DetectedChange>,
}

/// The classification a listed path carries: its current classification when
/// still present, Deleted when vanished.
pub open spec fn listed_type(prev: Seq<TrackedFile>, cur: Seq<DetectedChange>, p: Seq<char>) -> ChangeType {
    match lookup_change(cur, p) {
        Some(e) => classify(lookup_tracked(prev, p), e),
        None => ChangeType::Deleted,
    }
}

/// Does a change type fall in the selected kinds? (`new_mod` selects New and
/// Modified, `del` selects Deleted.)
pub open spec fn sel_type(ct: ChangeType, new_mod: bool, del: bool) -> bool {
    if ct == ChangeType::Deleted {
        del
    } else {
        new_mod
    }
}

/// The queue holds exactly the listed paths of the selected kinds, each entry
/// carrying the fields the detector assigns.
pub open spec fn selects(
    prev: Seq<TrackedFile>,
    cur: Seq<DetectedChange>,
    q: Seq<DetectedChange>,
    new_mod: bool,
    del: bool,
) -> bool {
    &&& change_paths_unique(q)
    &&& forall|k: int| 0 <= k < q.len() ==> change_entry_ok(prev, cur, #[trigger] q[k])
    &&& forall|p: Seq<char>| (#[trigger] lookup_change(q, p)) is Some <==> change_listed(prev, cur, p)
        && sel_type(listed_type(prev, cur, p), new_mod, del)
}

/// A bootstrap queue entry: the current observation, classified New.
pub open spec fn new_of(d: DetectedChange, e: DetectedChange) -> bool {
    d.relative_path@ == e.relative_path@ && d.change_type == ChangeType::New && d.size == e.size
        && d.mtime == e.mtime && d.hash == e.hash
}

/// The whole current scan, every entry classified New, in scan order.
pub open spec fn bootstrap_queue(cur: Seq<DetectedChange>, q: Seq<DetectedChange>) -> bool {
    q.len() == cur.len() && forall|k: int| 0 <= k < q.len() ==> new_of(#[trigger] q[k], cur[k])
}

/// Which queue an entry belongs in: `new_mod` selects New and Modified
/// entries, `del` selects Deleted ones. Unchanged entries are never selected.
pub open spec fn split_sel(d: DetectedChange, new_mod: bool, del: bool) -> bool {
    (new_mod && (d.change_type == ChangeType::New || d.change_type == ChangeType::Modified))
        || (del && d.change_type == ChangeType::Deleted)
}

/// `q` is the restriction of `changes` to the selected kinds.
pub open spec fn restricted(
    changes: Seq<DetectedChange>,
    q: Seq<DetectedChange>,
    new_mod: bool,
    del: bool,
) -> bool {
    forall|p: Seq<char>| #[trigger] lookup_change(q, p) == (match lookup_change(changes, p) {
        Some(d) => if split_sel(d, new_mod, del) {
            Some(d)
        } else {
            None::<DetectedChange>
        },
        None => None::<DetectedChange>,
    })
}

/// Split detected changes into transfers (New and Modified), propagated
/// deletions, and skipped deletions (recorded but not propagated).
fn split_changes(changes: &Vec<DetectedChange>, propagate: bool) -> (r: (
    Vec<DetectedChange>,
    Vec<DetectedChange>,
    Vec<DetectedChange>,
))
    requires
        change_paths_unique(changes@),
    ensures
        restricted(changes@, r.0@, true, false),
        restricted(changes@, r.1@, false, propagate),
        restricted(changes@, r.2@, false, !propagate),
        change_paths_unique(r.0@),
        change_paths_unique(r.1@),
        change_paths_unique(r.2@),
        !propagate ==> r.1@.len() == 0,
        propagate ==> r.2@.len() == 0,
{
    let ghost cs = changes@;
    let mut transfers: Vec<DetectedChange> = Vec::new();
    let mut deletes: Vec<DetectedChange> = Vec::new();
    let mut skipped: Vec<DetectedChange> = Vec::new();
    let n = changes.len();
    let mut i: usize = 0;
    while i < n
        invariant
            n == cs.len(),
            i <= n,
            cs == changes@,
            change_paths_unique(cs),
            change_paths_unique(transfers@),
            change_paths_unique(deletes@),
            change_paths_unique(skipped@),
            restricted(cs.take(i as int), transfers@, true, false),
            restricted(cs.take(i as int), deletes@, false, propagate),
            restricted(cs.take(i as int), skipped@, false, !propagate),
            !propagate ==> deletes@.len() == 0,
            propagate ==> skipped@.len() == 0,
        decreases n - i,
    {
        let c = &changes[i];
        let d = clone_change(c);
        proof {
            lemma_lookup_change_at(cs, i as int);
            // The prefix does not hold this path yet.
            if lookup_change(cs.take(i as int), c.relative_path@) is Some {
                lemma_lookup_change_some(cs.take(i as int), c.relative_path@);
                let w = choose|w: int| 0 <= w < i && cs.take(i as int)[w].relative_path@ == c.relative_path@
                    && cs.take(i as int)[w] == lookup_change(cs.take(i as int), c.relative_path@).unwrap();
                assert(cs[w].relative_path@ != cs[i as int].relative_path@);
            }
            assert(lookup_change(cs.take(i as int), c.relative_path@) is None);
            assert(cs.take(i as int).push(cs[i as int]) =~= cs.take(i as int + 1));
            assert forall|p: Seq<char>| #[trigger] lookup_change(cs.take(i as int + 1), p)
                == (if lookup_change(cs.take(i as int), p) is Some {
                    lookup_change(cs.take(i as int), p)
                } else if cs[i as int].relative_path@ == p {
                    Some(cs[i as int])
                } else {
                    None::<DetectedChange>
                }) by {
                lemma_lookup_change_push(cs.take(i as int), cs[i as int], p);
            };
        }
        if matches!(d.change_type, ChangeType::New | ChangeType::Modified) {
            proof {
                lemma_lookup_change_none(transfers@, d.relative_path@);
                assert forall|p: Seq<char>| #[trigger] lookup_change(transfers@.push(d), p)
                    == (if lookup_change(transfers@, p) is Some {
                        lookup_change(transfers@, p)
                    } else if d.relative_path@ == p {
                        Some(d)
                    } else {
                        None::<DetectedChange>
                    }) by {
                    lemma_lookup_change_push(transfers@, d, p);
                };
                assert(change_paths_unique(transfers@.push(d))) by {
                    assert(forall|k: int| 0 <= k < transfers@.len()
                        ==> transfers@.push(d)[k] == transfers@[k]);
                    assert(transfers@.push(d)[transfers@.len() as int] == d);
                };
            }
            transfers.push(d);
        } else if matches!(d.change_type, ChangeType::Deleted) {
            if propagate {
                proof {
                    lemma_lookup_change_none(deletes@, d.relative_path@);
                    assert forall|p: Seq<char>| #[trigger] lookup_change(deletes@.push(d), p)
                        == (if lookup_change(deletes@, p) is Some {
                            lookup_change(deletes@, p)
                        } else if d.relative_path@ == p {
                            Some(d)
                        } else {
                            None::<DetectedChange>
                        }) by {
                        lemma_lookup_change_push(deletes@, d, p);
                    };
                    assert(change_paths_unique(deletes@.push(d))) by {
                        assert(forall|k: int| 0 <= k < deletes@.len()
                            ==> deletes@.push(d)[k] == deletes@[k]);
                        assert(deletes@.push(d)[deletes@.len() as int] == d);
                    };
                }
                deletes.push(d);
            } else {
                proof {
                    lemma_lookup_change_none(skipped@, d.relative_path@);
                    assert forall|p: Seq<char>| #[trigger] lookup_change(skipped@.push(d), p)
                        == (if lookup_change(skipped@, p) is Some {
                            lookup_change(skipped@, p)
                        } else if d.relative_path@ == p {
                            Some(d)
                        } else {
                            None::<DetectedChange>
                        }) by {
                        lemma_lookup_change_push(skipped@, d, p);
                    };
                    assert(change_paths_unique(skipped@.push(d))) by {
                        assert(forall|k: int| 0 <= k < skipped@.len()
                            ==> skipped@.push(d)[k] == skipped@[k]);
                        assert(skipped@.push(d)[skipped@.len() as int] == d);
                    };
                }
                skipped.push(d);
            }
        }
        i = i + 1;
    }
    proof {
        assert(cs.take(n as int) =~= cs);
    }
    (transfers, deletes, skipped)
}

/// Copy the whole scan as a queue of New entries, in scan order.
fn bootstrap_changes(current: &Vec<DetectedChange>) -> (r: Vec<DetectedChange>)
    ensures
        bootstrap_queue(current@, r@),
{
    let mut out: Vec<DetectedChange> = Vec::new();
    let n = current.len();
    let mut i: usize = 0;
    while i < n
        invariant
            n == current@.len(),
            i <= n,
            out@.len() == i,
            forall|k: int| 0 <= k < i ==> new_of(#[trigger] out@[k], current@[k]),
        decreases n - i,
    {
        let e = &current[i];
        let mut d = clone_change(e);
        d.change_type = ChangeType::New;
        out.push(d);
        i = i + 1;
    }
    out
}

/// Turn a queue computed by `split_changes` into the `selects` form.
proof fn lemma_split_selects(
    prev: Seq<TrackedFile>,
    cur: Seq<DetectedChange>,
    changes: Seq<DetectedChange>,
    q: Seq<DetectedChange>,
    new_mod: bool,
    del: bool,
)
    requires
        change_paths_unique(q),
        forall|k: int| 0 <= k < changes.len() ==> change_entry_ok(prev, cur, #[trigger] changes[k]),
        forall|p: Seq<char>| (#[trigger] lookup_change(changes, p)) is Some
            <==> change_listed(prev, cur, p),
        restricted(changes, q, new_mod, del),
    ensures
        selects(prev, cur, q, new_mod, del),
{
    assert forall|k: int| 0 <= k < q.len() implies change_entry_ok(prev, cur, #[trigger] q[k]) by {
        lemma_lookup_change_at(q, k);
        let p = q[k].relative_path@;
        lemma_lookup_change_some(changes, p);
        let w = choose|w: int| 0 <= w < changes.len() && changes[w] == lookup_change(changes, p).unwrap()
            && changes[w].relative_path@ == p;
        assert(change_entry_ok(prev, cur, changes[w]));
    };
    assert forall|p: Seq<char>| (#[trigger] lookup_change(q, p)) is Some
        <==> change_listed(prev, cur, p) && sel_type(listed_type(prev, cur, p), new_mod, del) by {
        if lookup_change(changes, p) is Some {
            lemma_lookup_change_some(changes, p);
            let w = choose|w: int| 0 <= w < changes.len()
                && changes[w] == lookup_change(changes, p).unwrap()
                && changes[w].relative_path@ == p;
            assert(change_entry_ok(prev, cur, changes[w]));
            assert(changes[w].change_type == listed_type(prev, cur, p));
        }
    };
}

/// The four action queues a correct planner produces: the authoritative
/// side's New/Modified changes feed the one transfer queue, its Deleted
/// changes feed the one destination delete queue when propagation is on, and
/// the non-authoritative side's queues stay empty. With `is_resync` or an
/// empty authoritative snapshot, the whole current scan is queued as New.
pub open spec fn planned_queues(
    direction: SyncDirection,
    delete_propagation: bool,
    is_resync: bool,
    local_previous: Seq<TrackedFile>,
    remote_previous: Seq<TrackedFile>,
    local_current: Seq<DetectedChange>,
    remote_current: Seq<DetectedChange>,
    to_upload: Seq<DetectedChange>,
    to_download: Seq<DetectedChange>,
    to_delete_local: Seq<DetectedChange>,
    to_delete_remote: Seq<DetectedChange>,
) -> bool {
    &&& direction == SyncDirection::UploadOnly ==> {
        &&& to_download.len() == 0
        &&& to_delete_local.len() == 0
        &&& if is_resync || local_previous.len() == 0 {
            bootstrap_queue(local_current, to_upload) && to_delete_remote.len() == 0
        } else {
            &&& selects(local_previous, local_current, to_upload, true, false)
            &&& if delete_propagation {
                selects(local_previous, local_current, to_delete_remote, false, true)
            } else {
                to_delete_remote.len() == 0
            }
        }
    }
    &&& direction == SyncDirection::DownloadOnly ==> {
        &&& to_upload.len() == 0
        &&& to_delete_remote.len() == 0
        &&& if is_resync || remote_previous.len() == 0 {
            bootstrap_queue(remote_current, to_download) && to_delete_local.len() == 0
        } else {
            &&& selects(remote_previous, remote_current, to_download, true, false)
            &&& if delete_propagation {
                selects(remote_previous, remote_current, to_delete_local, false, true)
            } else {
                to_delete_local.len() == 0
            }
        }
    }
}

/// The skipped-deletion lists a correct planner produces: with propagation
/// off, the authoritative side's Deleted changes land here (to be recorded in
/// the store with no destination action); otherwise both lists are empty.
pub open spec fn planned_skipped(
    direction: SyncDirection,
    delete_propagation: bool,
    is_resync: bool,
    local_previous: Seq<TrackedFile>,
    remote_previous: Seq<TrackedFile>,
    local_current: Seq<DetectedChange>,
    remote_current: Seq<DetectedChange>,
    skipped_local: Seq<DetectedChange>,
    skipped_remote: Seq<DetectedChange>,
) -> bool {
    &&& direction == SyncDirection::UploadOnly ==> {
        &&& skipped_remote.len() == 0
        &&& if is_resync || local_previous.len() == 0 || delete_propagation {
            skipped_local.len() == 0
        } else {
            selects(local_previous, local_current, skipped_local, false, true)
        }
    }
    &&& direction == SyncDirection::DownloadOnly ==> {
        &&& skipped_local.len() == 0
        &&& if is_resync || remote_previous.len() == 0 || delete_propagation {
            skipped_remote.len() == 0
        } else {
            selects(remote_previous, remote_current, skipped_remote, false, true)
        }
    }
}

/// Direction-driven decision table. With `is_resync`, or with an empty
/// previous snapshot on the authoritative side, every current file of that
/// side is queued as New (full-transfer bootstrap). Otherwise New/Modified
/// changes of the authoritative side are queued for transfer and Deleted
/// changes either propagate to the destination or are recorded as skipped.
/// The non-authoritative side is never acted on.
pub fn plan_sync(
    direction: SyncDirection,
    delete_propagation: bool,
    is_resync: bool,
    local_previous: &Vec<TrackedFile>,
    remote_previous: &Vec<TrackedFile>,
    local_current: &Vec<DetectedChange>,
    remote_current: &Vec<DetectedChange>,
) -> (r: SyncPlan)
    requires
        tracked_paths_unique(local_previous@),
        tracked_paths_unique(remote_previous@),
        change_paths_unique(local_current@),
        change_paths_unique(remote_current@),
    ensures
        planned_queues(direction, delete_propagation, is_resync, local_previous@, remote_previous@,
            local_current@, remote_current@, r.to_upload@, r.to_download@, r.to_delete_local@,
            r.to_delete_remote@),
        planned_skipped(direction, delete_propagation, is_resync, local_previous@, remote_previous@,
            local_current@, remote_current@, r.skipped_local_deletions@, r.skipped_remote_deletions@),
{
    let mut plan = SyncPlan {
        to_upload: Vec::new(),
        to_download: Vec::new(),
        to_delete_local: Vec::new(),
        to_delete_remote: Vec::new(),
        skipped_local_deletions: Vec::new(),
        skipped_remote_deletions: Vec::new(),
    };
    match direction {
        SyncDirection::UploadOnly => {
            if is_resync || local_previous.len() == 0 {
                plan.to_upload = bootstrap_changes(local_current);
            } else {
                let changes = detect_changes(local_previous, local_current);
                let (transfers, deletes, skipped) = split_changes(&changes, delete_propagation);
                proof {
                    lemma_split_selects(local_previous@, local_current@, changes@, transfers@, true, false);
                    if delete_propagation {
                        lemma_split_selects(local_previous@, local_current@, changes@, deletes@, false, true);
                    } else {
                        lemma_split_selects(local_previous@, local_current@, changes@, skipped@, false, true);
                    }
                }
                plan.to_upload = transfers;
                plan.to_delete_remote = deletes;
                plan.skipped_local_deletions = skipped;
            }
        },
        SyncDirection::DownloadOnly => {
            if is_resync || remote_previous.len() == 0 {
                plan.to_download = bootstrap_changes(remote_current);
            } else {
                let changes = detect_changes(remote_previous, remote_current);
                let (transfers, deletes, skipped) = split_changes(&changes, delete_propagation);
                proof {
                    lemma_split_selects(remote_previous@, remote_current@, changes@, transfers@, true, false);
                    if delete_propagation {
                        lemma_split_selects(remote_previous@, remote_current@, changes@, deletes@, false, true);
                    } else {
                        lemma_split_selects(remote_previous@, remote_current@, changes@, skipped@, false, true);
                    }
                }
                plan.to_download = transfers;
                plan.to_delete_local = deletes;
                plan.skipped_remote_deletions = skipped;
            }
        },
    }
    plan
}

} // verus!
