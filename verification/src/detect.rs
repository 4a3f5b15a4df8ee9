//! Change detector: diffs one side's previous snapshot against its current
//! scan, classifying each path as New, Modified, Deleted or Unchanged.

use vstd::prelude::*;
use crate::sync_types::{
    ChangeType, DetectedChange, TrackedFile, change_paths_unique, clone_opt_string, find_change,
    find_tracked, lemma_lookup_change_at, lemma_lookup_change_none, lemma_lookup_change_push,
    lemma_lookup_change_some, lemma_lookup_tracked_at, lemma_lookup_tracked_some, lookup_change,
    lookup_tracked, opt_i64_eq, tracked_paths_unique,
};

verus! {

/// Size of a current entry as the detector compares it; a missing size
/// counts as zero.
pub open spec fn entry_size(e: DetectedChange) -> i64 {
    match e.size {
        Some(s) => s,
        None => 0,
    }
}

/// Classification rule for a path present in the current scan, given the
/// previous tracked row for that path (if any). A previously deleted path
/// that reappears is New, never Modified.
pub open spec fn classify(prev: Option<TrackedFile>, cur: DetectedChange) -> ChangeType {
    match prev {
        None => ChangeType::New,
        Some(t) => if t.is_deleted {
            ChangeType::New
        } else if t.size != entry_size(cur) || t.mtime_ms != cur.mtime {
            ChangeType::Modified
        } else {
            ChangeType::Unchanged
        },
    }
}

/// Whether path `p` belongs in the detector's output: either it is current
/// and not Unchanged, or it is a tracked, not-yet-deleted path that has
/// vanished from the current scan.
pub open spec fn change_listed(prev: Seq<TrackedFile>, cur: Seq<DetectedChange>, p: Seq<char>) -> bool {
    match lookup_change(cur, p) {
        Some(e) => classify(lookup_tracked(prev, p), e) != ChangeType::Unchanged,
        None => match lookup_tracked(prev, p) {
            Some(t) => !t.is_deleted,
            None => false,
        },
    }
}

/// Field-level correctness of one output entry: a current path carries the
/// current observation and its classification; a vanished path carries the
/// previous observation and Deleted.
pub open spec fn change_entry_ok(prev: Seq<TrackedFile>, cur: Seq<DetectedChange>, d: DetectedChange) -> bool {
    let p = d.relative_path@;
    match lookup_change(cur, p) {
        Some(e) => d.change_type == classify(lookup_tracked(prev, p), e)
            && d.change_type != ChangeType::Unchanged && d.size == e.size && d.mtime == e.mtime
            && d.hash == e.hash,
        None => match lookup_tracked(prev, p) {
            Some(t) => d.change_type == ChangeType::Deleted && !t.is_deleted && d.size == Some(t.size)
                && d.mtime == t.mtime_ms && d.hash == t.content_hash,
            None => false,
        },
    }
}

/// An entry that is correct for its path is listed for its path.
proof fn lemma_entry_ok_listed(prev: Seq<TrackedFile>, cur: Seq<DetectedChange>, d: DetectedChange)
    requires
        change_entry_ok(prev, cur, d),
    ensures
        change_listed(prev, cur, d.relative_path@),
{
}

/// Diff the previous snapshot of one side against its current scan, returning
/// only the non-Unchanged classifications: New and Modified entries carry the
/// current observation; a tracked, not-deleted path absent from the scan
/// comes back as Deleted carrying the previous observation.
pub fn detect_changes(previous: &Vec<TrackedFile>, current: &Vec<DetectedChange>) -> (r: Vec<DetectedChange>)
    requires
        tracked_paths_unique(previous@),
        change_paths_unique(current@),
    ensures
        change_paths_unique(r@),
        forall|k: int| 0 <= k < r@.len() ==> change_entry_ok(previous@, current@, #[trigger] r@[k]),
        forall|p: Seq<char>| (#[trigger] lookup_change(r@, p)) is Some
            <==> change_listed(previous@, current@, p),
{
    let ghost prev = previous@;
    let ghost cur = current@;
    let mut out: Vec<DetectedChange> = Vec::new();

    // Current entries: classify each against its previous row.
    let n = current.len();
    let mut i: usize = 0;
    while i < n
        invariant
            n == cur.len(),
            i <= n,
            prev == previous@,
            cur == current@,
            tracked_paths_unique(prev),
            change_paths_unique(cur),
            change_paths_unique(out@),
            forall|k: int| 0 <= k < out@.len() ==> change_entry_ok(prev, cur, #[trigger] out@[k]),
            forall|p: Seq<char>| (#[trigger] lookup_change(out@, p)) is Some
                ==> exists|j: int| 0 <= j < i && cur[j].relative_path@ == p,
            forall|j: int| 0 <= j < i && change_listed(prev, cur, #[trigger] cur[j].relative_path@)
                ==> lookup_change(out@, cur[j].relative_path@) is Some,
        decreases n - i,
    {
        let e = &current[i];
        proof {
            lemma_lookup_change_at(cur, i as int);
        }
        let ct: ChangeType = match find_tracked(previous, e.relative_path.as_str()) {
            None => ChangeType::New,
            Some(j) => {
                let t = &previous[j];
                if t.is_deleted {
                    ChangeType::New
                } else {
                    let sz: i64 = match e.size {
                        Some(s) => s,
                        None => 0,
                    };
                    if t.size != sz || !opt_i64_eq(t.mtime_ms, e.mtime) {
                        ChangeType::Modified
                    } else {
                        ChangeType::Unchanged
                    }
                }
            },
        };
        if !(ct == ChangeType::Unchanged) {
            let d = DetectedChange {
                relative_path: e.relative_path.clone(),
                change_type: ct,
                size: e.size,
                mtime: e.mtime,
                hash: clone_opt_string(&e.hash),
            };
            proof {
                let ghost old_out = out@;
                // The path of `d` was not pushed before: everything in `out`
                // comes from an earlier, distinct current entry.
                if lookup_change(old_out, d.relative_path@) is Some {
                    let j = choose|j: int| 0 <= j < i && cur[j].relative_path@ == d.relative_path@;
                    assert(cur[j].relative_path@ != cur[i as int].relative_path@);
                }
                assert forall|p: Seq<char>| #[trigger] lookup_change(old_out.push(d), p)
                    == (if lookup_change(old_out, p) is Some {
                        lookup_change(old_out, p)
                    } else if d.relative_path@ == p {
                        Some(d)
                    } else {
                        None::<DetectedChange>
                    }) by {
                    lemma_lookup_change_push(old_out, d, p);
                };
                lemma_lookup_change_none(old_out, d.relative_path@);
                assert(change_paths_unique(old_out.push(d))) by {
                    assert(forall|k: int| 0 <= k < old_out.len() ==> old_out.push(d)[k] == old_out[k]);
                    assert(old_out.push(d)[old_out.len() as int] == d);
                };
            }
            out.push(d);
        }
        i = i + 1;
    }

    proof {
        // Every listed current path is in the output.
        assert forall|p: Seq<char>| lookup_change(cur, p) is Some && change_listed(prev, cur, p)
            implies (#[trigger] lookup_change(out@, p)) is Some by {
            lemma_lookup_change_some(cur, p);
            let jj = choose|jj: int| 0 <= jj < cur.len() && cur[jj] == lookup_change(cur, p).unwrap()
                && cur[jj].relative_path@ == p;
            assert(lookup_change(out@, cur[jj].relative_path@) is Some);
        };
        // So far the output holds current paths only.
        assert forall|p: Seq<char>| (#[trigger] lookup_change(out@, p)) is Some
            implies lookup_change(cur, p) is Some || exists|k: int| 0 <= k < 0 && prev[k].relative_path@ == p by {
            let j = choose|j: int| 0 <= j < n && cur[j].relative_path@ == p;
            lemma_lookup_change_at(cur, j);
        };
    }

    // Previous rows not yet deleted and absent from the current scan.
    let m = previous.len();
    let mut j: usize = 0;
    while j < m
        invariant
            m == prev.len(),
            j <= m,
            prev == previous@,
            cur == current@,
            tracked_paths_unique(prev),
            change_paths_unique(cur),
            change_paths_unique(out@),
            forall|k: int| 0 <= k < out@.len() ==> change_entry_ok(prev, cur, #[trigger] out@[k]),
            forall|p: Seq<char>| (#[trigger] lookup_change(out@, p)) is Some
                ==> lookup_change(cur, p) is Some
                    || exists|k: int| 0 <= k < j && prev[k].relative_path@ == p,
            forall|p: Seq<char>| lookup_change(cur, p) is Some && change_listed(prev, cur, p)
                ==> (#[trigger] lookup_change(out@, p)) is Some,
            forall|k: int| 0 <= k < j && lookup_change(cur, #[trigger] prev[k].relative_path@) is None
                && !prev[k].is_deleted ==> lookup_change(out@, prev[k].relative_path@) is Some,
        decreases m - j,
    {
        let t = &previous[j];
        proof {
            lemma_lookup_tracked_at(prev, j as int);
        }
        if !t.is_deleted {
            if find_change(current, t.relative_path.as_str()).is_none() {
                let d = DetectedChange {
                    relative_path: t.relative_path.clone(),
                    change_type: ChangeType::Deleted,
                    size: Some(t.size),
                    mtime: t.mtime_ms,
                    hash: clone_opt_string(&t.content_hash),
                };
                proof {
                    let ghost old_out = out@;
                    // `d`'s path is absent from the scan and previous rows are
                    // unique, so it is not in the output yet.
                    if lookup_change(old_out, d.relative_path@) is Some {
                        let k = choose|k: int| 0 <= k < j && prev[k].relative_path@ == d.relative_path@;
                        assert(prev[k].relative_path@ != prev[j as int].relative_path@);
                    }
                    assert forall|p: Seq<char>| #[trigger] lookup_change(old_out.push(d), p)
                        == (if lookup_change(old_out, p) is Some {
                            lookup_change(old_out, p)
                        } else if d.relative_path@ == p {
                            Some(d)
                        } else {
                            None::<DetectedChange>
                        }) by {
                        lemma_lookup_change_push(old_out, d, p);
                    };
                    lemma_lookup_change_none(old_out, d.relative_path@);
                    assert(change_paths_unique(old_out.push(d))) by {
                        assert(forall|k: int| 0 <= k < old_out.len() ==> old_out.push(d)[k] == old_out[k]);
                        assert(old_out.push(d)[old_out.len() as int] == d);
                    };
                }
                out.push(d);
            }
        }
        j = j + 1;
    }

    proof {
        assert forall|p: Seq<char>| (#[trigger] lookup_change(out@, p)) is Some
            <==> change_listed(prev, cur, p) by {
            if lookup_change(out@, p) is Some {
                lemma_lookup_change_some(out@, p);
                let k = choose|k: int| 0 <= k < out@.len() && out@[k] == lookup_change(out@, p).unwrap()
                    && out@[k].relative_path@ == p;
                lemma_entry_ok_listed(prev, cur, out@[k]);
            }
            if change_listed(prev, cur, p) {
                if lookup_change(cur, p) is Some {
                    assert(lookup_change(out@, p) is Some);
                } else {
                    lemma_lookup_tracked_some(prev, p);
                    let k = choose|k: int| 0 <= k < prev.len()
                        && prev[k] == lookup_tracked(prev, p).unwrap()
                        && prev[k].relative_path@ == p;
                    assert(lookup_change(out@, prev[k].relative_path@) is Some);
                }
            }
        };
    }
    out
}

} // verus!
