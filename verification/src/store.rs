//! State store: the registry of sync pairs, the per-side tracked-file
//! snapshots, and the append-only session records. This is the in-memory,
//! verified model of the persisted state; the host mirrors every mutation to
//! its durable storage.

use vstd::prelude::*;
use crate::clock::now_seconds;
use crate::errors::AppError;
use crate::sync_types::{
    NewSyncPair, SyncPair, SyncPairStatus, SyncSession, SyncSessionStatus, TrackedFile,
    clone_opt_string, clone_tracked,
};
use crate::text::{lemma_lex_le_total, lemma_lex_le_trans, lex_le, str_eq, str_le};

verus! {

// ---------------------------------------------------------------------------
// Lookups and filters over the three tables.
// ---------------------------------------------------------------------------

/// First pair with the given id, if any.
pub open spec fn lookup_pair(s: Seq<SyncPair>, id: i64) -> Option<SyncPair>
    decreases s.len(),
{
    if s.len() == 0 {
        None
    } else if s[0].id == id {
        Some(s[0])
    } else {
        lookup_pair(s.drop_first(), id)
    }
}

/// First session with the given id, if any.
pub open spec fn lookup_session(s: Seq<SyncSession>, id: i64) -> Option<SyncSession>
    decreases s.len(),
{
    if s.len() == 0 {
        None
    } else if s[0].id == id {
        Some(s[0])
    } else {
        lookup_session(s.drop_first(), id)
    }
}

/// First tracked row of the given pair and path, if any.
pub open spec fn lookup_row(s: Seq<TrackedFile>, pid: i64, p: Seq<char>) -> Option<TrackedFile>
    decreases s.len(),
{
    if s.len() == 0 {
        None
    } else if s[0].sync_pair_id == pid && s[0].relative_path@ == p {
        Some(s[0])
    } else {
        lookup_row(s.drop_first(), pid, p)
    }
}

pub open spec fn pair_ids_unique(s: Seq<SyncPair>) -> bool {
    forall|i: int, j: int| 0 <= i < j < s.len() ==> s[i].id != s[j].id
}

/// No two pairs bind the same (local path, account, bucket, prefix) tuple.
pub open spec fn endpoints_unique(s: Seq<SyncPair>) -> bool {
    forall|i: int, j: int| 0 <= i < j < s.len() ==> !(#[trigger] s[i].same_endpoints_view(&s[j]))
}

pub open spec fn session_ids_unique(s: Seq<SyncSession>) -> bool {
    forall|i: int, j: int| 0 <= i < j < s.len() ==> s[i].id != s[j].id
}

/// No two tracked rows share a (pair, path) key.
pub open spec fn row_keys_unique(s: Seq<TrackedFile>) -> bool {
    forall|i: int, j: int| 0 <= i < j < s.len()
        ==> !(s[i].sync_pair_id == s[j].sync_pair_id && s[i].relative_path@ == s[j].relative_path@)
}

/// The rows of one pair, in table order.
pub open spec fn rows_of_pair(s: Seq<TrackedFile>, pid: i64) -> Seq<TrackedFile>
    decreases s.len(),
{
    if s.len() == 0 {
        Seq::empty()
    } else if s[0].sync_pair_id == pid {
        seq![s[0]] + rows_of_pair(s.drop_first(), pid)
    } else {
        rows_of_pair(s.drop_first(), pid)
    }
}

/// The table with one pair's rows removed.
pub open spec fn rows_without_pair(s: Seq<TrackedFile>, pid: i64) -> Seq<TrackedFile>
    decreases s.len(),
{
    if s.len() == 0 {
        Seq::empty()
    } else if s[0].sync_pair_id != pid {
        seq![s[0]] + rows_without_pair(s.drop_first(), pid)
    } else {
        rows_without_pair(s.drop_first(), pid)
    }
}

/// The sessions of one pair, in creation order.
pub open spec fn sessions_of_pair(s: Seq<SyncSession>, pid: i64) -> Seq<SyncSession>
    decreases s.len(),
{
    if s.len() == 0 {
        Seq::empty()
    } else if s[0].sync_pair_id == pid {
        seq![s[0]] + sessions_of_pair(s.drop_first(), pid)
    } else {
        sessions_of_pair(s.drop_first(), pid)
    }
}

/// The session table with one pair's sessions removed.
pub open spec fn sessions_without_pair(s: Seq<SyncSession>, pid: i64) -> Seq<SyncSession>
    decreases s.len(),
{
    if s.len() == 0 {
        Seq::empty()
    } else if s[0].sync_pair_id != pid {
        seq![s[0]] + sessions_without_pair(s.drop_first(), pid)
    } else {
        sessions_without_pair(s.drop_first(), pid)
    }
}

/// The registry with one pair removed.
pub open spec fn pairs_without(s: Seq<SyncPair>, id: i64) -> Seq<SyncPair>
    decreases s.len(),
{
    if s.len() == 0 {
        Seq::empty()
    } else if s[0].id != id {
        seq![s[0]] + pairs_without(s.drop_first(), id)
    } else {
        pairs_without(s.drop_first(), id)
    }
}

/// The pairs of one account, in registry order.
pub open spec fn pairs_of_account(s: Seq<SyncPair>, account: Seq<char>) -> Seq<SyncPair>
    decreases s.len(),
{
    if s.len() == 0 {
        Seq::empty()
    } else if s[0].account_id@ == account {
        seq![s[0]] + pairs_of_account(s.drop_first(), account)
    } else {
        pairs_of_account(s.drop_first(), account)
    }
}

// ---------------------------------------------------------------------------
// Lookup lemmas, mirroring the path-keyed ones of `sync_types`.
// ---------------------------------------------------------------------------

/// Skipping pairs that do not match leaves the lookup unchanged.
pub proof fn lemma_lookup_pair_skip(s: Seq<SyncPair>, id: i64, i: int)
    requires
        0 <= i <= s.len(),
        forall|j: int| 0 <= j < i ==> s[j].id != id,
    ensures
        lookup_pair(s, id) == lookup_pair(s.skip(i), id),
    decreases i,
{
    if i > 0 {
        lemma_lookup_pair_skip(s.drop_first(), id, i - 1);
        assert(s.drop_first().skip(i - 1) =~= s.skip(i));
    } else {
        assert(s.skip(0) =~= s);
    }
}

/// With unique ids, looking up the id of pair `i` yields pair `i`.
pub proof fn lemma_lookup_pair_at(s: Seq<SyncPair>, i: int)
    requires
        pair_ids_unique(s),
        0 <= i < s.len(),
    ensures
        lookup_pair(s, s[i].id) == Some(s[i]),
{
    lemma_lookup_pair_skip(s, s[i].id, i);
    assert(s.skip(i)[0] == s[i]);
}


/// A successful pair lookup returns a pair of the registry with that id.
pub proof fn lemma_lookup_pair_some(s: Seq<SyncPair>, id: i64)
    requires
        lookup_pair(s, id) is Some,
    ensures
        exists|i: int| 0 <= i < s.len() && s[i] == lookup_pair(s, id).unwrap() && s[i].id == id,
    decreases s.len(),
{
    if s.len() > 0 && s[0].id != id {
        lemma_lookup_pair_some(s.drop_first(), id);
        let i = choose|i: int| 0 <= i < s.drop_first().len()
            && s.drop_first()[i] == lookup_pair(s.drop_first(), id).unwrap()
            && s.drop_first()[i].id == id;
        assert(s[i + 1] == s.drop_first()[i]);
    }
}

/// Updating pair `i` in place (same id) changes only that id's lookup.
pub proof fn lemma_lookup_pair_update(s: Seq<SyncPair>, i: int, x: SyncPair, id: i64)
    requires
        0 <= i < s.len(),
        pair_ids_unique(s),
        x.id == s[i].id,
    ensures
        lookup_pair(s.update(i, x), id) == (if s[i].id == id {
            Some(x)
        } else {
            lookup_pair(s, id)
        }),
    decreases s.len(),
{
    if i == 0 {
        assert(s.update(0, x)[0] == x);
        if x.id != id {
            assert(s.update(0, x).drop_first() =~= s.drop_first());
        }
    } else {
        assert(s.update(i, x)[0] == s[0]);
        assert(s.update(i, x).drop_first() =~= s.drop_first().update(i - 1, x));
        assert(pair_ids_unique(s.drop_first())) by {
            assert(forall|a: int, b: int| 0 <= a < b < s.drop_first().len()
                ==> s.drop_first()[a] == s[a + 1] && s.drop_first()[b] == s[b + 1]);
        };
        lemma_lookup_pair_update(s.drop_first(), i - 1, x, id);
    }
}

/// Appending a pair only affects the lookup of an id the registry lacked.
pub proof fn lemma_lookup_pair_push(s: Seq<SyncPair>, x: SyncPair, id: i64)
    ensures
        lookup_pair(s.push(x), id) == (if lookup_pair(s, id) is Some {
            lookup_pair(s, id)
        } else if x.id == id {
            Some(x)
        } else {
            None::<SyncPair>
        }),
    decreases s.len(),
{
    if s.len() == 0 {
        assert(s.push(x).len() == 1);
        assert(s.push(x)[0] == x);
        assert(s.push(x).drop_first() =~= Seq::<SyncPair>::empty());
        assert(lookup_pair(s, id) is None);
        if x.id == id {
            assert(lookup_pair(s.push(x), id) == Some(x));
        } else {
            assert(lookup_pair(s.push(x), id) == lookup_pair(s.push(x).drop_first(), id));
            assert(lookup_pair(s.push(x), id) is None);
        }
    } else {
        assert(s.push(x)[0] == s[0]);
        assert(s.push(x).drop_first() =~= s.drop_first().push(x));
        lemma_lookup_pair_push(s.drop_first(), x, id);
        if s[0].id == id {
            assert(lookup_pair(s.push(x), id) == Some(s[0]));
            assert(lookup_pair(s, id) == Some(s[0]));
        } else {
            assert(lookup_pair(s.push(x), id) == lookup_pair(s.drop_first().push(x), id));
            assert(lookup_pair(s, id) == lookup_pair(s.drop_first(), id));
        }
    }
}

/// Skipping sessions that do not match leaves the lookup unchanged.
pub proof fn lemma_lookup_session_skip(s: Seq<SyncSession>, id: i64, i: int)
    requires
        0 <= i <= s.len(),
        forall|j: int| 0 <= j < i ==> s[j].id != id,
    ensures
        lookup_session(s, id) == lookup_session(s.skip(i), id),
    decreases i,
{
    if i > 0 {
        lemma_lookup_session_skip(s.drop_first(), id, i - 1);
        assert(s.drop_first().skip(i - 1) =~= s.skip(i));
    } else {
        assert(s.skip(0) =~= s);
    }
}

/// With unique ids, looking up the id of session `i` yields session `i`.
pub proof fn lemma_lookup_session_at(s: Seq<SyncSession>, i: int)
    requires
        session_ids_unique(s),
        0 <= i < s.len(),
    ensures
        lookup_session(s, s[i].id) == Some(s[i]),
{
    lemma_lookup_session_skip(s, s[i].id, i);
    assert(s.skip(i)[0] == s[i]);
}


/// A successful session lookup returns a session of the table with that id.
pub proof fn lemma_lookup_session_some(s: Seq<SyncSession>, id: i64)
    requires
        lookup_session(s, id) is Some,
    ensures
        exists|i: int| 0 <= i < s.len() && s[i] == lookup_session(s, id).unwrap() && s[i].id == id,
    decreases s.len(),
{
    if s.len() > 0 && s[0].id != id {
        lemma_lookup_session_some(s.drop_first(), id);
        let i = choose|i: int| 0 <= i < s.drop_first().len()
            && s.drop_first()[i] == lookup_session(s.drop_first(), id).unwrap()
            && s.drop_first()[i].id == id;
        assert(s[i + 1] == s.drop_first()[i]);
    }
}

/// Updating session `i` in place (same id) changes only that id's lookup.
pub proof fn lemma_lookup_session_update(s: Seq<SyncSession>, i: int, x: SyncSession, id: i64)
    requires
        0 <= i < s.len(),
        session_ids_unique(s),
        x.id == s[i].id,
    ensures
        lookup_session(s.update(i, x), id) == (if s[i].id == id {
            Some(x)
        } else {
            lookup_session(s, id)
        }),
    decreases s.len(),
{
    if i == 0 {
        assert(s.update(0, x)[0] == x);
        if x.id != id {
            assert(s.update(0, x).drop_first() =~= s.drop_first());
        }
    } else {
        assert(s.update(i, x)[0] == s[0]);
        assert(s.update(i, x).drop_first() =~= s.drop_first().update(i - 1, x));
        assert(session_ids_unique(s.drop_first())) by {
            assert(forall|a: int, b: int| 0 <= a < b < s.drop_first().len()
                ==> s.drop_first()[a] == s[a + 1] && s.drop_first()[b] == s[b + 1]);
        };
        lemma_lookup_session_update(s.drop_first(), i - 1, x, id);
    }
}

/// Appending a session only affects the lookup of an id the table lacked.
#[verifier::rlimit(50)]
pub proof fn lemma_lookup_session_push(s: Seq<SyncSession>, x: SyncSession, id: i64)
    ensures
        lookup_session(s.push(x), id) == (if lookup_session(s, id) is Some {
            lookup_session(s, id)
        } else if x.id == id {
            Some(x)
        } else {
            None::<SyncSession>
        }),
    decreases s.len(),
{
    if s.len() == 0 {
        assert(s.push(x).len() == 1);
        assert(s.push(x)[0] == x);
        assert(s.push(x).drop_first() =~= Seq::<SyncSession>::empty());
        assert(lookup_session(s, id) is None);
        if x.id == id {
            assert(lookup_session(s.push(x), id) == Some(x));
        } else {
            assert(lookup_session(s.push(x), id) == lookup_session(s.push(x).drop_first(), id));
            assert(lookup_session(s.push(x), id) is None);
        }
    } else {
        assert(s.push(x)[0] == s[0]);
        assert(s.push(x).drop_first() =~= s.drop_first().push(x));
        lemma_lookup_session_push(s.drop_first(), x, id);
        if s[0].id == id {
            assert(lookup_session(s.push(x), id) == Some(s[0]));
            assert(lookup_session(s, id) == Some(s[0]));
        } else {
            assert(lookup_session(s.push(x), id) == lookup_session(s.drop_first().push(x), id));
            assert(lookup_session(s, id) == lookup_session(s.drop_first(), id));
        }
    }
}

/// Skipping rows that do not match leaves the lookup unchanged.
pub proof fn lemma_lookup_row_skip(s: Seq<TrackedFile>, pid: i64, p: Seq<char>, i: int)
    requires
        0 <= i <= s.len(),
        forall|j: int| 0 <= j < i
            ==> !(s[j].sync_pair_id == pid && s[j].relative_path@ == p),
    ensures
        lookup_row(s, pid, p) == lookup_row(s.skip(i), pid, p),
    decreases i,
{
    if i > 0 {
        lemma_lookup_row_skip(s.drop_first(), pid, p, i - 1);
        assert(s.drop_first().skip(i - 1) =~= s.skip(i));
    } else {
        assert(s.skip(0) =~= s);
    }
}

/// With unique keys, looking up the key of row `i` yields row `i`.
pub proof fn lemma_lookup_row_at(s: Seq<TrackedFile>, i: int)
    requires
        row_keys_unique(s),
        0 <= i < s.len(),
    ensures
        lookup_row(s, s[i].sync_pair_id, s[i].relative_path@) == Some(s[i]),
{
    lemma_lookup_row_skip(s, s[i].sync_pair_id, s[i].relative_path@, i);
    assert(s.skip(i)[0] == s[i]);
}

/// A failed row lookup means no row has that key.
pub proof fn lemma_lookup_row_none(s: Seq<TrackedFile>, pid: i64, p: Seq<char>)
    requires
        lookup_row(s, pid, p) is None,
    ensures
        forall|i: int| 0 <= i < s.len()
            ==> !(s[i].sync_pair_id == pid && s[i].relative_path@ == p),
    decreases s.len(),
{
    if s.len() > 0 {
        lemma_lookup_row_none(s.drop_first(), pid, p);
        assert(forall|i: int| 1 <= i < s.len() ==> s[i] == s.drop_first()[i - 1]);
    }
}

/// Updating row `i` in place (same key) changes only that key's lookup.
pub proof fn lemma_lookup_row_update(
    s: Seq<TrackedFile>,
    i: int,
    x: TrackedFile,
    pid: i64,
    p: Seq<char>,
)
    requires
        0 <= i < s.len(),
        row_keys_unique(s),
        x.sync_pair_id == s[i].sync_pair_id,
        x.relative_path@ == s[i].relative_path@,
    ensures
        lookup_row(s.update(i, x), pid, p) == (if s[i].sync_pair_id == pid && s[i].relative_path@ == p {
            Some(x)
        } else {
            lookup_row(s, pid, p)
        }),
    decreases s.len(),
{
    if i == 0 {
        assert(s.update(0, x)[0] == x);
        if !(x.sync_pair_id == pid && x.relative_path@ == p) {
            assert(s.update(0, x).drop_first() =~= s.drop_first());
        }
    } else {
        assert(s.update(i, x)[0] == s[0]);
        assert(s.update(i, x).drop_first() =~= s.drop_first().update(i - 1, x));
        assert(row_keys_unique(s.drop_first())) by {
            assert(forall|a: int, b: int| 0 <= a < b < s.drop_first().len()
                ==> s.drop_first()[a] == s[a + 1] && s.drop_first()[b] == s[b + 1]);
        };
        lemma_lookup_row_update(s.drop_first(), i - 1, x, pid, p);
    }
}

/// Appending a row only affects the lookup of a key the table lacked.
pub proof fn lemma_lookup_row_push(s: Seq<TrackedFile>, x: TrackedFile, pid: i64, p: Seq<char>)
    ensures
        lookup_row(s.push(x), pid, p) == (if lookup_row(s, pid, p) is Some {
            lookup_row(s, pid, p)
        } else if x.sync_pair_id == pid && x.relative_path@ == p {
            Some(x)
        } else {
            None::<TrackedFile>
        }),
    decreases s.len(),
{
    if s.len() == 0 {
        assert(s.push(x).len() == 1);
        assert(s.push(x)[0] == x);
        assert(s.push(x).drop_first() =~= Seq::<TrackedFile>::empty());
        assert(lookup_row(s, pid, p) is None);
        if x.sync_pair_id == pid && x.relative_path@ == p {
            assert(lookup_row(s.push(x), pid, p) == Some(x));
        } else {
            assert(lookup_row(s.push(x), pid, p)
                == lookup_row(s.push(x).drop_first(), pid, p));
            assert(lookup_row(s.push(x), pid, p) is None);
        }
    } else {
        assert(s.push(x)[0] == s[0]);
        assert(s.push(x).drop_first() =~= s.drop_first().push(x));
        lemma_lookup_row_push(s.drop_first(), x, pid, p);
    }
}

// ---------------------------------------------------------------------------
// Filter lemmas: membership, uniqueness, lookup correspondence.
// ---------------------------------------------------------------------------

/// Every filtered row comes from the table and belongs to the pair.
pub proof fn lemma_rows_of_pair_elems(s: Seq<TrackedFile>, pid: i64)
    ensures
        forall|k: int| 0 <= k < rows_of_pair(s, pid).len()
            ==> (exists|j: int| 0 <= j < s.len() && s[j] == #[trigger] rows_of_pair(s, pid)[k])
                && rows_of_pair(s, pid)[k].sync_pair_id == pid,
    decreases s.len(),
{
    if s.len() > 0 {
        lemma_rows_of_pair_elems(s.drop_first(), pid);
        assert forall|k: int| 0 <= k < rows_of_pair(s, pid).len()
            implies (exists|j: int| 0 <= j < s.len() && s[j] == #[trigger] rows_of_pair(s, pid)[k])
                && rows_of_pair(s, pid)[k].sync_pair_id == pid by {
            if s[0].sync_pair_id == pid {
                if k == 0 {
                    assert(rows_of_pair(s, pid)[0] == s[0]);
                } else {
                    assert(rows_of_pair(s, pid)[k] == rows_of_pair(s.drop_first(), pid)[k - 1]);
                    let j = choose|j: int| 0 <= j < s.drop_first().len()
                        && s.drop_first()[j] == rows_of_pair(s.drop_first(), pid)[k - 1];
                    assert(s[j + 1] == s.drop_first()[j]);
                }
            } else {
                assert(rows_of_pair(s, pid)[k] == rows_of_pair(s.drop_first(), pid)[k]);
                let j = choose|j: int| 0 <= j < s.drop_first().len()
                    && s.drop_first()[j] == rows_of_pair(s.drop_first(), pid)[k];
                assert(s[j + 1] == s.drop_first()[j]);
            }
        };
    }
}


/// One pair's rows keep paths unique when the table's keys are unique.
pub proof fn lemma_rows_of_pair_unique(s: Seq<TrackedFile>, pid: i64)
    requires
        row_keys_unique(s),
    ensures
        crate::sync_types::tracked_paths_unique(rows_of_pair(s, pid)),
    decreases s.len(),
{
    if s.len() > 0 {
        assert(row_keys_unique(s.drop_first())) by {
            assert(forall|a: int, b: int| 0 <= a < b < s.drop_first().len()
                ==> s.drop_first()[a] == s[a + 1] && s.drop_first()[b] == s[b + 1]);
        };
        lemma_rows_of_pair_unique(s.drop_first(), pid);
        if s[0].sync_pair_id == pid {
            lemma_rows_of_pair_elems(s.drop_first(), pid);
            let f = rows_of_pair(s, pid);
            assert forall|a: int, b: int| 0 <= a < b < f.len()
                implies f[a].relative_path@ != f[b].relative_path@ by {
                if a == 0 {
                    assert(f[0] == s[0]);
                    assert(f[b] == rows_of_pair(s.drop_first(), pid)[b - 1]);
                    let j = choose|j: int| 0 <= j < s.drop_first().len()
                        && s.drop_first()[j] == rows_of_pair(s.drop_first(), pid)[b - 1];
                    assert(s[j + 1] == s.drop_first()[j]);
                } else {
                    assert(f[a] == rows_of_pair(s.drop_first(), pid)[a - 1]);
                    assert(f[b] == rows_of_pair(s.drop_first(), pid)[b - 1]);
                }
            };
        }
    }
}

/// Removing one pair's rows: every survivor comes from the table and belongs
/// to another pair.
pub proof fn lemma_rows_without_pair_elems(s: Seq<TrackedFile>, pid: i64)
    ensures
        forall|k: int| 0 <= k < rows_without_pair(s, pid).len()
            ==> (exists|j: int| 0 <= j < s.len() && s[j] == #[trigger] rows_without_pair(s, pid)[k])
                && rows_without_pair(s, pid)[k].sync_pair_id != pid,
    decreases s.len(),
{
    if s.len() > 0 {
        lemma_rows_without_pair_elems(s.drop_first(), pid);
        assert forall|k: int| 0 <= k < rows_without_pair(s, pid).len()
            implies (exists|j: int| 0 <= j < s.len()
                && s[j] == #[trigger] rows_without_pair(s, pid)[k])
                && rows_without_pair(s, pid)[k].sync_pair_id != pid by {
            if s[0].sync_pair_id != pid {
                if k == 0 {
                    assert(rows_without_pair(s, pid)[0] == s[0]);
                } else {
                    assert(rows_without_pair(s, pid)[k] == rows_without_pair(s.drop_first(), pid)[k - 1]);
                    let j = choose|j: int| 0 <= j < s.drop_first().len()
                        && s.drop_first()[j] == rows_without_pair(s.drop_first(), pid)[k - 1];
                    assert(s[j + 1] == s.drop_first()[j]);
                }
            } else {
                assert(rows_without_pair(s, pid)[k] == rows_without_pair(s.drop_first(), pid)[k]);
                let j = choose|j: int| 0 <= j < s.drop_first().len()
                    && s.drop_first()[j] == rows_without_pair(s.drop_first(), pid)[k];
                assert(s[j + 1] == s.drop_first()[j]);
            }
        };
    }
}

/// Removing one pair's rows keeps the remaining keys unique and leaves other
/// pairs' lookups unchanged.
pub proof fn lemma_rows_without_pair_ok(s: Seq<TrackedFile>, pid: i64, q: i64, p: Seq<char>)
    requires
        row_keys_unique(s),
    ensures
        row_keys_unique(rows_without_pair(s, pid)),
        lookup_row(rows_without_pair(s, pid), q, p) == (if q == pid {
            None::<TrackedFile>
        } else {
            lookup_row(s, q, p)
        }),
    decreases s.len(),
{
    if s.len() > 0 {
        assert(row_keys_unique(s.drop_first())) by {
            assert(forall|a: int, b: int| 0 <= a < b < s.drop_first().len()
                ==> s.drop_first()[a] == s[a + 1] && s.drop_first()[b] == s[b + 1]);
        };
        lemma_rows_without_pair_ok(s.drop_first(), pid, q, p);
        if s[0].sync_pair_id != pid {
            lemma_rows_without_pair_elems(s.drop_first(), pid);
            let f = rows_without_pair(s, pid);
            assert(f[0] == s[0]);
            assert(f.drop_first() =~= rows_without_pair(s.drop_first(), pid));
            assert(row_keys_unique(f)) by {
                assert forall|a: int, b: int| 0 <= a < b < f.len()
                    implies !(f[a].sync_pair_id == f[b].sync_pair_id
                        && f[a].relative_path@ == f[b].relative_path@) by {
                    if a == 0 {
                        let j = choose|j: int| 0 <= j < s.drop_first().len()
                            && s.drop_first()[j] == rows_without_pair(s.drop_first(), pid)[b - 1];
                        assert(s[j + 1] == s.drop_first()[j]);
                    } else {
                        assert(f[a] == rows_without_pair(s.drop_first(), pid)[a - 1]);
                        assert(f[b] == rows_without_pair(s.drop_first(), pid)[b - 1]);
                    }
                };
            };
        }
    }
}

/// Every filtered session comes from the table and belongs to the pair.
pub proof fn lemma_sessions_of_pair_elems(s: Seq<SyncSession>, pid: i64)
    ensures
        forall|k: int| 0 <= k < sessions_of_pair(s, pid).len()
            ==> (exists|j: int| 0 <= j < s.len() && s[j] == #[trigger] sessions_of_pair(s, pid)[k])
                && sessions_of_pair(s, pid)[k].sync_pair_id == pid,
    decreases s.len(),
{
    if s.len() > 0 {
        lemma_sessions_of_pair_elems(s.drop_first(), pid);
        assert forall|k: int| 0 <= k < sessions_of_pair(s, pid).len()
            implies (exists|j: int| 0 <= j < s.len() && s[j] == #[trigger] sessions_of_pair(s, pid)[k])
                && sessions_of_pair(s, pid)[k].sync_pair_id == pid by {
            if s[0].sync_pair_id == pid {
                if k == 0 {
                    assert(sessions_of_pair(s, pid)[0] == s[0]);
                } else {
                    assert(sessions_of_pair(s, pid)[k] == sessions_of_pair(s.drop_first(), pid)[k - 1]);
                    let j = choose|j: int| 0 <= j < s.drop_first().len()
                        && s.drop_first()[j] == sessions_of_pair(s.drop_first(), pid)[k - 1];
                    assert(s[j + 1] == s.drop_first()[j]);
                }
            } else {
                assert(sessions_of_pair(s, pid)[k] == sessions_of_pair(s.drop_first(), pid)[k]);
                let j = choose|j: int| 0 <= j < s.drop_first().len()
                    && s.drop_first()[j] == sessions_of_pair(s.drop_first(), pid)[k];
                assert(s[j + 1] == s.drop_first()[j]);
            }
        };
    }
}

/// Removing one pair's sessions: survivors come from the table and belong to
/// other pairs; their ids stay unique.
pub proof fn lemma_sessions_without_pair_ok(s: Seq<SyncSession>, pid: i64)
    requires
        session_ids_unique(s),
    ensures
        session_ids_unique(sessions_without_pair(s, pid)),
        forall|k: int| 0 <= k < sessions_without_pair(s, pid).len()
            ==> (exists|j: int| 0 <= j < s.len()
                && s[j] == #[trigger] sessions_without_pair(s, pid)[k])
                && sessions_without_pair(s, pid)[k].sync_pair_id != pid,
    decreases s.len(),
{
    if s.len() > 0 {
        assert(session_ids_unique(s.drop_first())) by {
            assert(forall|a: int, b: int| 0 <= a < b < s.drop_first().len()
                ==> s.drop_first()[a] == s[a + 1] && s.drop_first()[b] == s[b + 1]);
        };
        lemma_sessions_without_pair_ok(s.drop_first(), pid);
        if s[0].sync_pair_id != pid {
            let f = sessions_without_pair(s, pid);
            assert(f[0] == s[0]);
            assert(f.drop_first() =~= sessions_without_pair(s.drop_first(), pid));
            assert forall|k: int| 0 <= k < f.len()
                implies (exists|j: int| 0 <= j < s.len() && s[j] == #[trigger] f[k])
                    && f[k].sync_pair_id != pid by {
                if k == 0 {
                } else {
                    assert(f[k] == sessions_without_pair(s.drop_first(), pid)[k - 1]);
                    let j = choose|j: int| 0 <= j < s.drop_first().len()
                        && s.drop_first()[j] == sessions_without_pair(s.drop_first(), pid)[k - 1];
                    assert(s[j + 1] == s.drop_first()[j]);
                }
            };
            assert(session_ids_unique(f)) by {
                assert forall|a: int, b: int| 0 <= a < b < f.len() implies f[a].id != f[b].id by {
                    if a == 0 {
                        let j = choose|j: int| 0 <= j < s.drop_first().len()
                            && s.drop_first()[j] == sessions_without_pair(s.drop_first(), pid)[b - 1];
                        assert(s[j + 1] == s.drop_first()[j]);
                    } else {
                        assert(f[a] == sessions_without_pair(s.drop_first(), pid)[a - 1]);
                        assert(f[b] == sessions_without_pair(s.drop_first(), pid)[b - 1]);
                    }
                };
            };
        } else {
            assert forall|k: int| 0 <= k < sessions_without_pair(s, pid).len()
                implies (exists|j: int| 0 <= j < s.len()
                    && s[j] == #[trigger] sessions_without_pair(s, pid)[k])
                    && sessions_without_pair(s, pid)[k].sync_pair_id != pid by {
                let j = choose|j: int| 0 <= j < s.drop_first().len()
                    && s.drop_first()[j] == sessions_without_pair(s.drop_first(), pid)[k];
                assert(s[j + 1] == s.drop_first()[j]);
            };
        }
    }
}

/// Removing one pair: survivors come from the registry and have other ids;
/// ids and endpoints stay unique; other ids' lookups are unchanged.
pub proof fn lemma_pairs_without_ok(s: Seq<SyncPair>, id: i64, q: i64)
    requires
        pair_ids_unique(s),
        endpoints_unique(s),
    ensures
        pair_ids_unique(pairs_without(s, id)),
        endpoints_unique(pairs_without(s, id)),
        forall|k: int| 0 <= k < pairs_without(s, id).len()
            ==> (exists|j: int| 0 <= j < s.len() && s[j] == #[trigger] pairs_without(s, id)[k])
                && pairs_without(s, id)[k].id != id,
        lookup_pair(pairs_without(s, id), q) == (if q == id {
            None::<SyncPair>
        } else {
            lookup_pair(s, q)
        }),
    decreases s.len(),
{
    if s.len() > 0 {
        assert(pair_ids_unique(s.drop_first()) && endpoints_unique(s.drop_first())) by {
            assert(forall|a: int, b: int| 0 <= a < b < s.drop_first().len()
                ==> s.drop_first()[a] == s[a + 1] && s.drop_first()[b] == s[b + 1]);
        };
        lemma_pairs_without_ok(s.drop_first(), id, q);
        if s[0].id != id {
            let f = pairs_without(s, id);
            assert(f[0] == s[0]);
            assert(f.drop_first() =~= pairs_without(s.drop_first(), id));
            assert forall|k: int| 0 <= k < f.len()
                implies (exists|j: int| 0 <= j < s.len() && s[j] == #[trigger] f[k])
                    && f[k].id != id by {
                if k == 0 {
                } else {
                    assert(f[k] == pairs_without(s.drop_first(), id)[k - 1]);
                    let j = choose|j: int| 0 <= j < s.drop_first().len()
                        && s.drop_first()[j] == pairs_without(s.drop_first(), id)[k - 1];
                    assert(s[j + 1] == s.drop_first()[j]);
                }
            };
            assert(pair_ids_unique(f) && endpoints_unique(f)) by {
                assert forall|a: int, b: int| 0 <= a < b < f.len()
                    implies f[a].id != f[b].id && !(#[trigger] f[a].same_endpoints_view(&f[b])) by {
                    if a == 0 {
                        let j = choose|j: int| 0 <= j < s.drop_first().len()
                            && s.drop_first()[j] == pairs_without(s.drop_first(), id)[b - 1];
                        assert(s[j + 1] == s.drop_first()[j]);
                    } else {
                        assert(f[a] == pairs_without(s.drop_first(), id)[a - 1]);
                        assert(f[b] == pairs_without(s.drop_first(), id)[b - 1]);
                    }
                };
            };
        } else {
            assert forall|k: int| 0 <= k < pairs_without(s, id).len()
                implies (exists|j: int| 0 <= j < s.len()
                    && s[j] == #[trigger] pairs_without(s, id)[k])
                    && pairs_without(s, id)[k].id != id by {
                let j = choose|j: int| 0 <= j < s.drop_first().len()
                    && s.drop_first()[j] == pairs_without(s.drop_first(), id)[k];
                assert(s[j + 1] == s.drop_first()[j]);
            };
        }
    }
}

// ---------------------------------------------------------------------------
// The store itself.
// ---------------------------------------------------------------------------

/// Exact copy of a pair record.
pub fn clone_pair(p: &SyncPair) -> (r: SyncPair)
    ensures
        r == *p,
{
    SyncPair {
        id: p.id,
        name: p.name.clone(),
        local_path: p.local_path.clone(),
        account_id: p.account_id.clone(),
        bucket: p.bucket.clone(),
        remote_prefix: p.remote_prefix.clone(),
        sync_direction: p.sync_direction,
        delete_propagation: p.delete_propagation,
        status: p.status,
        last_sync_at: p.last_sync_at,
        last_error: clone_opt_string(&p.last_error),
        created_at: p.created_at,
    }
}

/// Exact copy of a session record.
pub fn clone_session(s: &SyncSession) -> (r: SyncSession)
    ensures
        r == *s,
{
    SyncSession {
        id: s.id,
        sync_pair_id: s.sync_pair_id,
        started_at: s.started_at,
        completed_at: s.completed_at,
        status: s.status,
        files_uploaded: s.files_uploaded,
        files_downloaded: s.files_downloaded,
        files_deleted_local: s.files_deleted_local,
        files_deleted_remote: s.files_deleted_remote,
        bytes_transferred: s.bytes_transferred,
        error_message: clone_opt_string(&s.error_message),
    }
}

/// The row stored by an upsert: the given observation, not deleted.
pub open spec fn saved_row(
    r: TrackedFile,
    pair_id: i64,
    path: Seq<char>,
    size: i64,
    mtime_ms: Option<i64>,
    etag: Option<String>,
    content_hash: Option<String>,
) -> bool {
    r.sync_pair_id == pair_id && r.relative_path@ == path && r.size == size
        && r.mtime_ms == mtime_ms && r.etag == etag && r.content_hash == content_hash
        && !r.is_deleted
}

/// In-memory model of the persisted state: the pair registry, one tracked
/// snapshot per side, and the session history. Identifiers are handed out by
/// the monotone `next_*` counters, as a database's row ids would be.
pub struct StateStore {
    pub pairs: Vec<SyncPair>,
    pub local_files: Vec<TrackedFile>,
    pub remote_files: Vec<TrackedFile>,
    pub sessions: Vec<SyncSession>,
    pub next_pair_id: i64,
    pub next_file_id: i64,
    pub next_session_id: i64,
}

impl StateStore {
    /// Well-formedness: unique pair ids and endpoint tuples, unique
    /// (pair, path) keys per side, unique session ids, and every id below its
    /// counter.
    pub open spec fn wf(&self) -> bool {
        &&& pair_ids_unique(self.pairs@)
        &&& endpoints_unique(self.pairs@)
        &&& row_keys_unique(self.local_files@)
        &&& row_keys_unique(self.remote_files@)
        &&& session_ids_unique(self.sessions@)
        &&& 1 <= self.next_pair_id
        &&& 1 <= self.next_file_id
        &&& 1 <= self.next_session_id
        &&& forall|i: int| 0 <= i < self.pairs@.len() ==> self.pairs@[i].id < self.next_pair_id
        &&& forall|i: int| 0 <= i < self.local_files@.len()
            ==> self.local_files@[i].id < self.next_file_id
        &&& forall|i: int| 0 <= i < self.remote_files@.len()
            ==> self.remote_files@[i].id < self.next_file_id
        &&& forall|i: int| 0 <= i < self.sessions@.len()
            ==> self.sessions@[i].id < self.next_session_id
    }

    /// An empty store.
    pub fn new() -> (r: StateStore)
        ensures
            r.wf(),
            r.pairs@.len() == 0,
            r.local_files@.len() == 0,
            r.remote_files@.len() == 0,
            r.sessions@.len() == 0,
            r.next_pair_id == 1,
            r.next_file_id == 1,
            r.next_session_id == 1,
    {
        StateStore {
            pairs: Vec::new(),
            local_files: Vec::new(),
            remote_files: Vec::new(),
            sessions: Vec::new(),
            next_pair_id: 1,
            next_file_id: 1,
            next_session_id: 1,
        }
    }

    /// Index of the pair with the given id.
    fn find_pair_index(&self, pair_id: i64) -> (r: Option<usize>)
        ensures
            match r {
                Some(i) => i < self.pairs@.len() && self.pairs@[i as int].id == pair_id
                    && lookup_pair(self.pairs@, pair_id) == Some(self.pairs@[i as int]),
                None => lookup_pair(self.pairs@, pair_id) is None,
            },
    {
        let n = self.pairs.len();
        let mut i: usize = 0;
        while i < n
            invariant
                n == self.pairs@.len(),
                i <= n,
                forall|j: int| 0 <= j < i ==> self.pairs@[j].id != pair_id,
            decreases n - i,
        {
            if self.pairs[i].id == pair_id {
                proof {
                    lemma_lookup_pair_skip(self.pairs@, pair_id, i as int);
                }
                return Some(i);
            }
            i = i + 1;
        }
        proof {
            lemma_lookup_pair_skip(self.pairs@, pair_id, n as int);
        }
        None
    }

    /// Does the registry already bind these endpoints?
    fn has_same_endpoints(&self, pair: &NewSyncPair) -> (r: bool)
        ensures
            r == exists|i: int| 0 <= i < self.pairs@.len()
                && (#[trigger] self.pairs@[i].local_path@) == pair.local_path@
                && self.pairs@[i].account_id@ == pair.account_id@
                && self.pairs@[i].bucket@ == pair.bucket@
                && self.pairs@[i].remote_prefix@ == pair.remote_prefix@,
    {
        let n = self.pairs.len();
        let mut i: usize = 0;
        while i < n
            invariant
                n == self.pairs@.len(),
                i <= n,
                forall|j: int| 0 <= j < i ==> !((#[trigger] self.pairs@[j].local_path@) == pair.local_path@
                    && self.pairs@[j].account_id@ == pair.account_id@
                    && self.pairs@[j].bucket@ == pair.bucket@
                    && self.pairs@[j].remote_prefix@ == pair.remote_prefix@),
            decreases n - i,
        {
            let p = &self.pairs[i];
            if str_eq(p.local_path.as_str(), pair.local_path.as_str())
                && str_eq(p.account_id.as_str(), pair.account_id.as_str())
                && str_eq(p.bucket.as_str(), pair.bucket.as_str())
                && str_eq(p.remote_prefix.as_str(), pair.remote_prefix.as_str()) {
                return true;
            }
            i = i + 1;
        }
        false
    }

    /// Register a new sync pair, in Idle status. The (local path, account,
    /// bucket, prefix) tuple must be new: a second binding of the same
    /// endpoints is rejected. Succeeds exactly on fresh endpoints while ids
    /// remain available.
    pub fn create_sync_pair(&mut self, pair: &NewSyncPair) -> (r: Result<i64, AppError>)
        requires
            old(self).wf(),
        ensures
            final(self).wf(),
            final(self).local_files == old(self).local_files,
            final(self).remote_files == old(self).remote_files,
            final(self).sessions == old(self).sessions,
            final(self).next_session_id == old(self).next_session_id,
            final(self).next_file_id == old(self).next_file_id,
            match r {
                Ok(id) => {
                    &&& id == old(self).next_pair_id
                    &&& final(self).next_pair_id == id + 1
                    &&& final(self).pairs@.len() == old(self).pairs@.len() + 1
                    &&& final(self).pairs@.take(old(self).pairs@.len() as int) == old(self).pairs@
                    &&& ({
                        let p = final(self).pairs@.last();
                        &&& p.id == id
                        &&& p.name@ == pair.name@
                        &&& p.local_path@ == pair.local_path@
                        &&& p.account_id@ == pair.account_id@
                        &&& p.bucket@ == pair.bucket@
                        &&& p.remote_prefix@ == pair.remote_prefix@
                        &&& p.sync_direction == pair.sync_direction
                        &&& p.delete_propagation == pair.delete_propagation
                        &&& p.status == SyncPairStatus::Idle
                        &&& p.last_sync_at is None
                        &&& p.last_error is None
                    })
                    &&& lookup_pair(final(self).pairs@, id) == Some(final(self).pairs@.last())
                    &&& forall|q: i64| q != id
                        ==> lookup_pair(final(self).pairs@, q) == lookup_pair(old(self).pairs@, q)
                },
                Err(e) => {
                    &&& *final(self) == *old(self)
                    &&& (e matches AppError::InvalidInput(_) || e matches AppError::Storage(_))
                    &&& (e matches AppError::InvalidInput(_) <==> exists|i: int|
                        0 <= i < old(self).pairs@.len()
                            && (#[trigger] old(self).pairs@[i].local_path@) == pair.local_path@
                            && old(self).pairs@[i].account_id@ == pair.account_id@
                            && old(self).pairs@[i].bucket@ == pair.bucket@
                            && old(self).pairs@[i].remote_prefix@ == pair.remote_prefix@)
                },
            },
            // Success is owed on fresh endpoints while ids remain.
            (!(exists|i: int| 0 <= i < old(self).pairs@.len()
                && (#[trigger] old(self).pairs@[i].local_path@) == pair.local_path@
                && old(self).pairs@[i].account_id@ == pair.account_id@
                && old(self).pairs@[i].bucket@ == pair.bucket@
                && old(self).pairs@[i].remote_prefix@ == pair.remote_prefix@)
                && old(self).next_pair_id < i64::MAX) <==> r is Ok,
    {
        if self.has_same_endpoints(pair) {
            return Err(AppError::InvalidInput(String::from_str(
                "A sync pair with the same endpoints already exists",
            )));
        }
        if self.next_pair_id == i64::MAX {
            return Err(AppError::Storage(String::from_str("Sync pair ids exhausted")));
        }
        let id = self.next_pair_id;
        let rec = SyncPair {
            id,
            name: pair.name.clone(),
            local_path: pair.local_path.clone(),
            account_id: pair.account_id.clone(),
            bucket: pair.bucket.clone(),
            remote_prefix: pair.remote_prefix.clone(),
            sync_direction: pair.sync_direction,
            delete_propagation: pair.delete_propagation,
            status: SyncPairStatus::Idle,
            last_sync_at: None,
            last_error: None,
            created_at: now_seconds(),
        };
        proof {
            assert forall|q: i64| true implies lookup_pair(self.pairs@.push(rec), q)
                == (if lookup_pair(self.pairs@, q) is Some {
                    lookup_pair(self.pairs@, q)
                } else if rec.id == q {
                    Some(rec)
                } else {
                    None::<SyncPair>
                }) by {
                lemma_lookup_pair_push(self.pairs@, rec, q);
            };
            assert(lookup_pair(self.pairs@, rec.id) is None) by {
                if lookup_pair(self.pairs@, rec.id) is Some {
                    lemma_lookup_pair_some(self.pairs@, rec.id);
                }
            };
            assert(self.pairs@.push(rec).take(self.pairs@.len() as int) =~= self.pairs@);
            assert(pair_ids_unique(self.pairs@.push(rec))) by {
                assert(forall|k: int| 0 <= k < self.pairs@.len()
                    ==> self.pairs@.push(rec)[k] == self.pairs@[k]);
                assert(self.pairs@.push(rec)[self.pairs@.len() as int] == rec);
            };
            assert(endpoints_unique(self.pairs@.push(rec))) by {
                assert(forall|k: int| 0 <= k < self.pairs@.len()
                    ==> self.pairs@.push(rec)[k] == self.pairs@[k]);
                assert(self.pairs@.push(rec)[self.pairs@.len() as int] == rec);
            };
        }
        self.pairs.push(rec);
        self.next_pair_id = id + 1;
        Ok(id)
    }

    /// The pair with the given id, if registered.
    pub fn get_sync_pair(&self, pair_id: i64) -> (r: Option<SyncPair>)
        ensures
            r == lookup_pair(self.pairs@, pair_id),
    {
        match self.find_pair_index(pair_id) {
            Some(i) => Some(clone_pair(&self.pairs[i])),
            None => None,
        }
    }

    /// All pairs of one account, ordered by name ascending (ties keep
    /// registry order).
    pub fn list_sync_pairs(&self, account_id: &str) -> (r: Vec<SyncPair>)
        ensures
            r@.to_multiset() == pairs_of_account(self.pairs@, account_id@).to_multiset(),
            forall|a: int, b: int| #![trigger r@[a], r@[b]] 0 <= a < b < r@.len()
                ==> lex_le(r@[a].name@, r@[b].name@),
    {
        let ghost s = self.pairs@;
        let mut f: Vec<SyncPair> = Vec::new();
        proof {
            assert(s.skip(0) =~= s);
            assert(Seq::<SyncPair>::empty() + pairs_of_account(s, account_id@)
                =~= pairs_of_account(s, account_id@));
        }
        let n = self.pairs.len();
        let mut i: usize = 0;
        while i < n
            invariant
                n == s.len(),
                s == self.pairs@,
                i <= n,
                pairs_of_account(s, account_id@) == f@ + pairs_of_account(s.skip(i as int), account_id@),
            decreases n - i,
        {
            let p = &self.pairs[i];
            proof {
                assert(s.skip(i as int)[0] == s[i as int]);
                assert(s.skip(i as int).drop_first() =~= s.skip(i as int + 1));
            }
            if str_eq(p.account_id.as_str(), account_id) {
                let c = clone_pair(p);
                proof {
                    assert(pairs_of_account(s.skip(i as int), account_id@)
                        =~= seq![s[i as int]] + pairs_of_account(s.skip(i as int + 1), account_id@));
                    assert((f@ + seq![c]) + pairs_of_account(s.skip(i as int + 1), account_id@)
                        =~= f@ + pairs_of_account(s.skip(i as int), account_id@));
                }
                f.push(c);
            }
            i = i + 1;
        }
        proof {
            assert(s.skip(n as int) =~= Seq::<SyncPair>::empty());
            assert(f@ + pairs_of_account(s.skip(n as int), account_id@) =~= f@);
        }

        // Insertion sort by name.
        let ghost fseq = f@;
        let mut out: Vec<SyncPair> = Vec::new();
        proof {
            broadcast use vstd::seq_lib::group_to_multiset_ensures;
            assert(fseq.take(0) =~= Seq::<SyncPair>::empty());
            assert(out@.to_multiset() =~= fseq.take(0).to_multiset());
        }
        let nf = f.len();
        let mut i: usize = 0;
        while i < nf
            invariant
                nf == fseq.len(),
                fseq == f@,
                i <= nf,
                out@.len() == i,
                out@.to_multiset() == fseq.take(i as int).to_multiset(),
                forall|a: int, b: int| #![trigger out@[a], out@[b]] 0 <= a < b < out@.len()
                    ==> lex_le(out@[a].name@, out@[b].name@),
            decreases nf - i,
        {
            let v = clone_pair(&f[i]);
            let m = out.len();
            let mut pos: usize = 0;
            while pos < m && str_le(out[pos].name.as_str(), v.name.as_str())
                invariant
                    m == out@.len(),
                    pos <= m,
                    forall|j: int| 0 <= j < pos ==> lex_le((#[trigger] out@[j]).name@, v.name@),
                decreases m - pos,
            {
                pos = pos + 1;
            }
            proof {
                broadcast use vstd::seq_lib::group_to_multiset_ensures;
                let u = out@.insert(pos as int, v);
                out@.insert_ensures(pos as int, v);
                if pos < m {
                    lemma_lex_le_total(out@[pos as int].name@, v.name@);
                }
                assert forall|a: int, b: int| #![trigger u[a], u[b]] 0 <= a < b < u.len()
                    implies lex_le(u[a].name@, u[b].name@) by {
                    if b < pos {
                        assert(u[a] == out@[a] && u[b] == out@[b]);
                    } else if a < pos && b == pos {
                        assert(u[a] == out@[a] && u[b] == v);
                    } else if a < pos && b > pos {
                        assert(u[a] == out@[a] && u[b] == out@[b - 1]);
                        if a < b - 1 {
                            assert(lex_le(out@[a].name@, out@[b - 1].name@));
                        }
                    } else if a == pos && b > pos {
                        assert(u[a] == v && u[b] == out@[b - 1]);
                        assert(lex_le(v.name@, out@[pos as int].name@));
                        if b - 1 > pos {
                            lemma_lex_le_trans(v.name@, out@[pos as int].name@,
                                out@[b - 1].name@);
                        }
                    } else {
                        assert(u[a] == out@[a - 1] && u[b] == out@[b - 1]);
                    }
                };
                assert(fseq.take(i as int + 1) =~= fseq.take(i as int).push(fseq[i as int]));
                assert(fseq.take(i as int + 1).to_multiset()
                    =~= fseq.take(i as int).to_multiset().insert(fseq[i as int]));
                assert(u.to_multiset() =~= out@.to_multiset().insert(v));
            }
            out.insert(pos, v);
            i = i + 1;
        }
        proof {
            assert(fseq.take(nf as int) =~= fseq);
        }
        out
    }

    /// Set one pair's status, leaving every other field and record unchanged.
    /// An unknown id is a no-op, as an UPDATE matching no row would be.
    pub fn update_sync_pair_status(&mut self, pair_id: i64, status: SyncPairStatus)
        requires
            old(self).wf(),
        ensures
            final(self).wf(),
            final(self).local_files == old(self).local_files,
            final(self).remote_files == old(self).remote_files,
            final(self).sessions == old(self).sessions,
            final(self).next_pair_id == old(self).next_pair_id,
            final(self).next_file_id == old(self).next_file_id,
            final(self).next_session_id == old(self).next_session_id,
            final(self).pairs@.len() == old(self).pairs@.len(),
            forall|q: i64| q != pair_id ==> lookup_pair(final(self).pairs@, q) == lookup_pair(old(self).pairs@, q),
            match lookup_pair(old(self).pairs@, pair_id) {
                Some(t) => lookup_pair(final(self).pairs@, pair_id) matches Some(r)
                    && r == SyncPair { status, ..t },
                None => final(self).pairs@ == old(self).pairs@,
            },
    {
        match self.find_pair_index(pair_id) {
            Some(i) => {
                let mut rec = clone_pair(&self.pairs[i]);
                rec.status = status;
                proof {
                    let s = self.pairs@;
                    assert forall|q: i64| true implies lookup_pair(s.update(i as int, rec), q)
                        == (if s[i as int].id == q {
                            Some(rec)
                        } else {
                            lookup_pair(s, q)
                        }) by {
                        lemma_lookup_pair_update(s, i as int, rec, q);
                    };
                    assert(pair_ids_unique(s.update(i as int, rec))) by {
                        assert(forall|k: int| 0 <= k < s.len() && k != i
                            ==> s.update(i as int, rec)[k] == s[k]);
                        assert(s.update(i as int, rec)[i as int] == rec);
                    };
                    assert forall|a: int, b: int| 0 <= a < b < s.update(i as int, rec).len()
                        implies !(#[trigger] s.update(i as int, rec)[a].same_endpoints_view(
                            &s.update(i as int, rec)[b])) by {
                        assert(!s[a].same_endpoints_view(&s[b]));
                        if a == i {
                            assert(s.update(i as int, rec)[a] == rec);
                            assert(s.update(i as int, rec)[b] == s[b]);
                        } else if b == i {
                            assert(s.update(i as int, rec)[a] == s[a]);
                            assert(s.update(i as int, rec)[b] == rec);
                        } else {
                            assert(s.update(i as int, rec)[a] == s[a]);
                            assert(s.update(i as int, rec)[b] == s[b]);
                        }
                    };
                }
                self.pairs.set(i, rec);
            },
            None => {},
        }
    }

    /// Record a successful run: Idle status, fresh last-sync timestamp, no
    /// error. An unknown id is a no-op.
    pub fn mark_sync_completed(&mut self, pair_id: i64)
        requires
            old(self).wf(),
        ensures
            final(self).wf(),
            final(self).local_files == old(self).local_files,
            final(self).remote_files == old(self).remote_files,
            final(self).sessions == old(self).sessions,
            final(self).next_pair_id == old(self).next_pair_id,
            final(self).next_file_id == old(self).next_file_id,
            final(self).next_session_id == old(self).next_session_id,
            final(self).pairs@.len() == old(self).pairs@.len(),
            forall|q: i64| q != pair_id ==> lookup_pair(final(self).pairs@, q) == lookup_pair(old(self).pairs@, q),
            match lookup_pair(old(self).pairs@, pair_id) {
                Some(t) => lookup_pair(final(self).pairs@, pair_id) matches Some(r)
                    && r.status == SyncPairStatus::Idle && r.last_sync_at is Some
                    && r.last_error is None
                    && r == SyncPair {
                        status: SyncPairStatus::Idle,
                        last_sync_at: r.last_sync_at,
                        last_error: None,
                        ..t
                    },
                None => final(self).pairs@ == old(self).pairs@,
            },
    {
        match self.find_pair_index(pair_id) {
            Some(i) => {
                let mut rec = clone_pair(&self.pairs[i]);
                rec.status = SyncPairStatus::Idle;
                rec.last_sync_at = Some(now_seconds());
                rec.last_error = None;
                proof {
                    let s = self.pairs@;
                    assert forall|q: i64| true implies lookup_pair(s.update(i as int, rec), q)
                        == (if s[i as int].id == q {
                            Some(rec)
                        } else {
                            lookup_pair(s, q)
                        }) by {
                        lemma_lookup_pair_update(s, i as int, rec, q);
                    };
                    assert(pair_ids_unique(s.update(i as int, rec))) by {
                        assert(forall|k: int| 0 <= k < s.len() && k != i
                            ==> s.update(i as int, rec)[k] == s[k]);
                        assert(s.update(i as int, rec)[i as int] == rec);
                    };
                    assert forall|a: int, b: int| 0 <= a < b < s.update(i as int, rec).len()
                        implies !(#[trigger] s.update(i as int, rec)[a].same_endpoints_view(
                            &s.update(i as int, rec)[b])) by {
                        assert(!s[a].same_endpoints_view(&s[b]));
                        if a == i {
                            assert(s.update(i as int, rec)[a] == rec);
                            assert(s.update(i as int, rec)[b] == s[b]);
                        } else if b == i {
                            assert(s.update(i as int, rec)[a] == s[a]);
                            assert(s.update(i as int, rec)[b] == rec);
                        } else {
                            assert(s.update(i as int, rec)[a] == s[a]);
                            assert(s.update(i as int, rec)[b] == s[b]);
                        }
                    };
                }
                self.pairs.set(i, rec);
            },
            None => {},
        }
    }

    /// Record a failed run: Error status and the failure message. An unknown
    /// id is a no-op.
    pub fn mark_sync_failed(&mut self, pair_id: i64, error: &str)
        requires
            old(self).wf(),
        ensures
            final(self).wf(),
            final(self).local_files == old(self).local_files,
            final(self).remote_files == old(self).remote_files,
            final(self).sessions == old(self).sessions,
            final(self).next_pair_id == old(self).next_pair_id,
            final(self).next_file_id == old(self).next_file_id,
            final(self).next_session_id == old(self).next_session_id,
            final(self).pairs@.len() == old(self).pairs@.len(),
            forall|q: i64| q != pair_id ==> lookup_pair(final(self).pairs@, q) == lookup_pair(old(self).pairs@, q),
            match lookup_pair(old(self).pairs@, pair_id) {
                Some(t) => lookup_pair(final(self).pairs@, pair_id) matches Some(r)
                    && r.status == SyncPairStatus::Error
                    && (r.last_error matches Some(m) && m@ == error@)
                    && r == SyncPair {
                        status: SyncPairStatus::Error,
                        last_error: r.last_error,
                        ..t
                    },
                None => final(self).pairs@ == old(self).pairs@,
            },
    {
        match self.find_pair_index(pair_id) {
            Some(i) => {
                let mut rec = clone_pair(&self.pairs[i]);
                rec.status = SyncPairStatus::Error;
                rec.last_error = Some(String::from_str(error));
                proof {
                    let s = self.pairs@;
                    assert forall|q: i64| true implies lookup_pair(s.update(i as int, rec), q)
                        == (if s[i as int].id == q {
                            Some(rec)
                        } else {
                            lookup_pair(s, q)
                        }) by {
                        lemma_lookup_pair_update(s, i as int, rec, q);
                    };
                    assert(pair_ids_unique(s.update(i as int, rec))) by {
                        assert(forall|k: int| 0 <= k < s.len() && k != i
                            ==> s.update(i as int, rec)[k] == s[k]);
                        assert(s.update(i as int, rec)[i as int] == rec);
                    };
                    assert forall|a: int, b: int| 0 <= a < b < s.update(i as int, rec).len()
                        implies !(#[trigger] s.update(i as int, rec)[a].same_endpoints_view(
                            &s.update(i as int, rec)[b])) by {
                        assert(!s[a].same_endpoints_view(&s[b]));
                        if a == i {
                            assert(s.update(i as int, rec)[a] == rec);
                            assert(s.update(i as int, rec)[b] == s[b]);
                        } else if b == i {
                            assert(s.update(i as int, rec)[a] == s[a]);
                            assert(s.update(i as int, rec)[b] == rec);
                        } else {
                            assert(s.update(i as int, rec)[a] == s[a]);
                            assert(s.update(i as int, rec)[b] == s[b]);
                        }
                    };
                }
                self.pairs.set(i, rec);
            },
            None => {},
        }
    }

    /// Delete a pair and everything scoped to it: both sides' tracked rows
    /// and its sessions (cascade).
    pub fn delete_sync_pair(&mut self, pair_id: i64)
        requires
            old(self).wf(),
        ensures
            final(self).wf(),
            final(self).pairs@ == pairs_without(old(self).pairs@, pair_id),
            final(self).local_files@ == rows_without_pair(old(self).local_files@, pair_id),
            final(self).remote_files@ == rows_without_pair(old(self).remote_files@, pair_id),
            final(self).sessions@ == sessions_without_pair(old(self).sessions@, pair_id),
            final(self).next_pair_id == old(self).next_pair_id,
            final(self).next_file_id == old(self).next_file_id,
            final(self).next_session_id == old(self).next_session_id,
            forall|q: i64| q != pair_id ==> lookup_pair(final(self).pairs@, q) == lookup_pair(old(self).pairs@, q),
            lookup_pair(final(self).pairs@, pair_id) is None,
            forall|q: i64, p: Seq<char>| q != pair_id
                ==> lookup_row(final(self).local_files@, q, p) == lookup_row(old(self).local_files@, q, p)
                    && lookup_row(final(self).remote_files@, q, p) == lookup_row(old(self).remote_files@, q, p),
            forall|p: Seq<char>| lookup_row(final(self).local_files@, pair_id, p) is None
                && lookup_row(final(self).remote_files@, pair_id, p) is None,
    {
        let ghost old_store = *self;
        let mut pairs: Vec<SyncPair> = Vec::new();
        proof {
            assert(self.pairs@.skip(0) =~= self.pairs@);
            assert(Seq::<SyncPair>::empty() + pairs_without(self.pairs@, pair_id)
                =~= pairs_without(self.pairs@, pair_id));
        }
        let n = self.pairs.len();
        let mut i: usize = 0;
        while i < n
            invariant
                n == self.pairs@.len(),
                i <= n,
                pairs_without(self.pairs@, pair_id) == pairs@ + pairs_without(self.pairs@.skip(i as int), pair_id),
            decreases n - i,
        {
            let p = &self.pairs[i];
            proof {
                assert(self.pairs@.skip(i as int)[0] == self.pairs@[i as int]);
                assert(self.pairs@.skip(i as int).drop_first() =~= self.pairs@.skip(i as int + 1));
            }
            if p.id != pair_id {
                let c = clone_pair(p);
                proof {
                    assert(pairs_without(self.pairs@.skip(i as int), pair_id)
                        =~= seq![self.pairs@[i as int]]
                            + pairs_without(self.pairs@.skip(i as int + 1), pair_id));
                    assert((pairs@ + seq![c]) + pairs_without(self.pairs@.skip(i as int + 1), pair_id)
                        =~= pairs@ + pairs_without(self.pairs@.skip(i as int), pair_id));
                }
                pairs.push(c);
            }
            i = i + 1;
        }
        proof {
            assert(self.pairs@.skip(n as int) =~= Seq::<SyncPair>::empty());
            assert(pairs@ + pairs_without(self.pairs@.skip(n as int), pair_id) =~= pairs@);
        }
        self.pairs = pairs;

        let mut local: Vec<TrackedFile> = Vec::new();
        proof {
            assert(self.local_files@.skip(0) =~= self.local_files@);
            assert(Seq::<TrackedFile>::empty() + rows_without_pair(self.local_files@, pair_id)
                =~= rows_without_pair(self.local_files@, pair_id));
        }
        let nl = self.local_files.len();
        let mut i: usize = 0;
        while i < nl
            invariant
                nl == self.local_files@.len(),
                i <= nl,
                rows_without_pair(self.local_files@, pair_id)
                    == local@ + rows_without_pair(self.local_files@.skip(i as int), pair_id),
            decreases nl - i,
        {
            let t = &self.local_files[i];
            proof {
                assert(self.local_files@.skip(i as int)[0] == self.local_files@[i as int]);
                assert(self.local_files@.skip(i as int).drop_first()
                    =~= self.local_files@.skip(i as int + 1));
            }
            if t.sync_pair_id != pair_id {
                let c = clone_tracked(t);
                proof {
                    assert(rows_without_pair(self.local_files@.skip(i as int), pair_id)
                        =~= seq![self.local_files@[i as int]]
                            + rows_without_pair(self.local_files@.skip(i as int + 1), pair_id));
                    assert((local@ + seq![c])
                        + rows_without_pair(self.local_files@.skip(i as int + 1), pair_id)
                        =~= local@ + rows_without_pair(self.local_files@.skip(i as int), pair_id));
                }
                local.push(c);
            }
            i = i + 1;
        }
        proof {
            assert(self.local_files@.skip(nl as int) =~= Seq::<TrackedFile>::empty());
            assert(local@ + rows_without_pair(self.local_files@.skip(nl as int), pair_id) =~= local@);
        }
        self.local_files = local;

        let mut remote: Vec<TrackedFile> = Vec::new();
        proof {
            assert(self.remote_files@.skip(0) =~= self.remote_files@);
            assert(Seq::<TrackedFile>::empty() + rows_without_pair(self.remote_files@, pair_id)
                =~= rows_without_pair(self.remote_files@, pair_id));
        }
        let nr = self.remote_files.len();
        let mut i: usize = 0;
        while i < nr
            invariant
                nr == self.remote_files@.len(),
                i <= nr,
                rows_without_pair(self.remote_files@, pair_id)
                    == remote@ + rows_without_pair(self.remote_files@.skip(i as int), pair_id),
            decreases nr - i,
        {
            let t = &self.remote_files[i];
            proof {
                assert(self.remote_files@.skip(i as int)[0] == self.remote_files@[i as int]);
                assert(self.remote_files@.skip(i as int).drop_first()
                    =~= self.remote_files@.skip(i as int + 1));
            }
            if t.sync_pair_id != pair_id {
                let c = clone_tracked(t);
                proof {
                    assert(rows_without_pair(self.remote_files@.skip(i as int), pair_id)
                        =~= seq![self.remote_files@[i as int]]
                            + rows_without_pair(self.remote_files@.skip(i as int + 1), pair_id));
                    assert((remote@ + seq![c])
                        + rows_without_pair(self.remote_files@.skip(i as int + 1), pair_id)
                        =~= remote@ + rows_without_pair(self.remote_files@.skip(i as int), pair_id));
                }
                remote.push(c);
            }
            i = i + 1;
        }
        proof {
            assert(self.remote_files@.skip(nr as int) =~= Seq::<TrackedFile>::empty());
            assert(remote@ + rows_without_pair(self.remote_files@.skip(nr as int), pair_id) =~= remote@);
        }
        self.remote_files = remote;

        let mut sessions: Vec<SyncSession> = Vec::new();
        proof {
            assert(self.sessions@.skip(0) =~= self.sessions@);
            assert(Seq::<SyncSession>::empty() + sessions_without_pair(self.sessions@, pair_id)
                =~= sessions_without_pair(self.sessions@, pair_id));
        }
        let ns = self.sessions.len();
        let mut i: usize = 0;
        while i < ns
            invariant
                ns == self.sessions@.len(),
                i <= ns,
                sessions_without_pair(self.sessions@, pair_id)
                    == sessions@ + sessions_without_pair(self.sessions@.skip(i as int), pair_id),
            decreases ns - i,
        {
            let t = &self.sessions[i];
            proof {
                assert(self.sessions@.skip(i as int)[0] == self.sessions@[i as int]);
                assert(self.sessions@.skip(i as int).drop_first()
                    =~= self.sessions@.skip(i as int + 1));
            }
            if t.sync_pair_id != pair_id {
                let c = clone_session(t);
                proof {
                    assert(sessions_without_pair(self.sessions@.skip(i as int), pair_id)
                        =~= seq![self.sessions@[i as int]]
                            + sessions_without_pair(self.sessions@.skip(i as int + 1), pair_id));
                    assert((sessions@ + seq![c])
                        + sessions_without_pair(self.sessions@.skip(i as int + 1), pair_id)
                        =~= sessions@ + sessions_without_pair(self.sessions@.skip(i as int), pair_id));
                }
                sessions.push(c);
            }
            i = i + 1;
        }
        proof {
            assert(self.sessions@.skip(ns as int) =~= Seq::<SyncSession>::empty());
            assert(sessions@ + sessions_without_pair(self.sessions@.skip(ns as int), pair_id)
                =~= sessions@);
        }
        self.sessions = sessions;

        proof {
            lemma_pairs_without_ok(old_store.pairs@, pair_id, pair_id);
            assert forall|q: i64| q != pair_id implies lookup_pair(self.pairs@, q)
                == lookup_pair(old_store.pairs@, q) by {
                lemma_pairs_without_ok(old_store.pairs@, pair_id, q);
            };
            assert forall|q: i64, p: Seq<char>| q != pair_id
                implies lookup_row(self.local_files@, q, p) == lookup_row(old_store.local_files@, q, p)
                    && lookup_row(self.remote_files@, q, p) == lookup_row(old_store.remote_files@, q, p) by {
                lemma_rows_without_pair_ok(old_store.local_files@, pair_id, q, p);
                lemma_rows_without_pair_ok(old_store.remote_files@, pair_id, q, p);
            };
            assert forall|p: Seq<char>| lookup_row(self.local_files@, pair_id, p) is None
                && lookup_row(self.remote_files@, pair_id, p) is None by {
                lemma_rows_without_pair_ok(old_store.local_files@, pair_id, pair_id, p);
                lemma_rows_without_pair_ok(old_store.remote_files@, pair_id, pair_id, p);
            };
            lemma_sessions_without_pair_ok(old_store.sessions@, pair_id);
            lemma_rows_without_pair_ok(old_store.local_files@, pair_id, pair_id, Seq::empty());
            lemma_rows_without_pair_ok(old_store.remote_files@, pair_id, pair_id, Seq::empty());
            lemma_rows_without_pair_elems(old_store.local_files@, pair_id);
            lemma_rows_without_pair_elems(old_store.remote_files@, pair_id);
            assert forall|k: int| 0 <= k < self.pairs@.len()
                implies self.pairs@[k].id < self.next_pair_id by {
                assert(pairs_without(old_store.pairs@, pair_id)[k] == self.pairs@[k]);
                let j = choose|j: int| 0 <= j < old_store.pairs@.len()
                    && old_store.pairs@[j] == pairs_without(old_store.pairs@, pair_id)[k];
            };
            assert forall|k: int| 0 <= k < self.local_files@.len()
                implies self.local_files@[k].id < self.next_file_id by {
                assert(rows_without_pair(old_store.local_files@, pair_id)[k] == self.local_files@[k]);
                let j = choose|j: int| 0 <= j < old_store.local_files@.len()
                    && old_store.local_files@[j] == rows_without_pair(old_store.local_files@, pair_id)[k];
            };
            assert forall|k: int| 0 <= k < self.remote_files@.len()
                implies self.remote_files@[k].id < self.next_file_id by {
                assert(rows_without_pair(old_store.remote_files@, pair_id)[k] == self.remote_files@[k]);
                let j = choose|j: int| 0 <= j < old_store.remote_files@.len()
                    && old_store.remote_files@[j] == rows_without_pair(old_store.remote_files@, pair_id)[k];
            };
            assert forall|k: int| 0 <= k < self.sessions@.len()
                implies self.sessions@[k].id < self.next_session_id by {
                assert(sessions_without_pair(old_store.sessions@, pair_id)[k] == self.sessions@[k]);
                let j = choose|j: int| 0 <= j < old_store.sessions@.len()
                    && old_store.sessions@[j] == sessions_without_pair(old_store.sessions@, pair_id)[k];
            };
        }
    }

    // ----------------------------------------------------------------------
    // Tracked file state, one collection per side.
    // ----------------------------------------------------------------------

    /// Index of the row with the given key in a side's table.
    fn find_row_index(table: &Vec<TrackedFile>, pair_id: i64, relative_path: &str) -> (r: Option<usize>)
        ensures
            match r {
                Some(i) => i < table@.len() && table@[i as int].sync_pair_id == pair_id
                    && table@[i as int].relative_path@ == relative_path@
                    && lookup_row(table@, pair_id, relative_path@) == Some(table@[i as int]),
                None => lookup_row(table@, pair_id, relative_path@) is None,
            },
    {
        let n = table.len();
        let mut i: usize = 0;
        while i < n
            invariant
                n == table@.len(),
                i <= n,
                forall|j: int| 0 <= j < i
                    ==> !(table@[j].sync_pair_id == pair_id && table@[j].relative_path@ == relative_path@),
            decreases n - i,
        {
            let t = &table[i];
            if t.sync_pair_id == pair_id && str_eq(t.relative_path.as_str(), relative_path) {
                proof {
                    lemma_lookup_row_skip(table@, pair_id, relative_path@, i as int);
                }
                return Some(i);
            }
            i = i + 1;
        }
        proof {
            lemma_lookup_row_skip(table@, pair_id, relative_path@, n as int);
        }
        None
    }

    /// Idempotent upsert keyed by (pair, path): the existing row keeps its id
    /// and takes the new observation with the deleted flag cleared; a new key
    /// appends a fresh row. Fails only when row ids are exhausted.
    fn upsert_row(
        table: &mut Vec<TrackedFile>,
        next_id: &mut i64,
        pair_id: i64,
        relative_path: &str,
        size: i64,
        mtime_ms: Option<i64>,
        etag: &Option<String>,
        content_hash: &Option<String>,
    ) -> (r: Result<(), AppError>)
        requires
            row_keys_unique(old(table)@),
            1 <= *old(next_id),
            forall|i: int| 0 <= i < old(table)@.len() ==> old(table)@[i].id < *old(next_id),
        ensures
            row_keys_unique(final(table)@),
            *old(next_id) <= *final(next_id) <= *old(next_id) + 1,
            forall|i: int| 0 <= i < final(table)@.len() ==> final(table)@[i].id < *final(next_id),
            match r {
                Ok(_) => {
                    &&& (lookup_row(final(table)@, pair_id, relative_path@) matches Some(n)
                        && saved_row(n, pair_id, relative_path@, size, mtime_ms, *etag, *content_hash)
                        && (match lookup_row(old(table)@, pair_id, relative_path@) {
                            Some(t) => n.id == t.id && final(table)@.len() == old(table)@.len()
                                && *final(next_id) == *old(next_id),
                            None => n.id == *old(next_id) && final(table)@.len() == old(table)@.len() + 1
                                && *final(next_id) == *old(next_id) + 1,
                        }))
                    &&& forall|q: i64, p: Seq<char>| !(q == pair_id && p == relative_path@)
                        ==> lookup_row(final(table)@, q, p) == lookup_row(old(table)@, q, p)
                },
                Err(e) => *final(table) == *old(table) && *final(next_id) == *old(next_id)
                    && e matches AppError::Storage(_),
            },
            r is Ok <==> !(lookup_row(old(table)@, pair_id, relative_path@) is None
                && *old(next_id) == i64::MAX),
    {
        match Self::find_row_index(table, pair_id, relative_path) {
            Some(i) => {
                let old_row = clone_tracked(&table[i]);
                let rec = TrackedFile {
                    id: old_row.id,
                    sync_pair_id: pair_id,
                    relative_path: String::from_str(relative_path),
                    size,
                    mtime_ms,
                    etag: clone_opt_string(etag),
                    content_hash: clone_opt_string(content_hash),
                    is_deleted: false,
                    last_seen_at: now_seconds(),
                };
                proof {
                    let s = table@;
                    assert forall|q: i64, p: Seq<char>| true implies lookup_row(s.update(i as int, rec), q, p)
                        == (if s[i as int].sync_pair_id == q && s[i as int].relative_path@ == p {
                            Some(rec)
                        } else {
                            lookup_row(s, q, p)
                        }) by {
                        lemma_lookup_row_update(s, i as int, rec, q, p);
                    };
                    assert(row_keys_unique(s.update(i as int, rec))) by {
                        assert(forall|k: int| 0 <= k < s.len() && k != i
                            ==> s.update(i as int, rec)[k] == s[k]);
                        assert(s.update(i as int, rec)[i as int] == rec);
                    };
                }
                table.set(i, rec);
                Ok(())
            },
            None => {
                if *next_id == i64::MAX {
                    return Err(AppError::Storage(String::from_str("Tracked file ids exhausted")));
                }
                let rec = TrackedFile {
                    id: *next_id,
                    sync_pair_id: pair_id,
                    relative_path: String::from_str(relative_path),
                    size,
                    mtime_ms,
                    etag: clone_opt_string(etag),
                    content_hash: clone_opt_string(content_hash),
                    is_deleted: false,
                    last_seen_at: now_seconds(),
                };
                proof {
                    let s = table@;
                    assert forall|q: i64, p: Seq<char>| true implies lookup_row(s.push(rec), q, p)
                        == (if lookup_row(s, q, p) is Some {
                            lookup_row(s, q, p)
                        } else if rec.sync_pair_id == q && rec.relative_path@ == p {
                            Some(rec)
                        } else {
                            None::<TrackedFile>
                        }) by {
                        lemma_lookup_row_push(s, rec, q, p);
                    };
                    lemma_lookup_row_none(s, pair_id, relative_path@);
                    assert(row_keys_unique(s.push(rec))) by {
                        assert(forall|k: int| 0 <= k < s.len() ==> s.push(rec)[k] == s[k]);
                        assert(s.push(rec)[s.len() as int] == rec);
                    };
                }
                table.push(rec);
                *next_id = *next_id + 1;
                Ok(())
            },
        }
    }

    /// Set the deleted flag of the row with the given key, retaining the row.
    /// A missing key is a no-op, as an UPDATE matching no row would be.
    fn mark_row_deleted(table: &mut Vec<TrackedFile>, pair_id: i64, relative_path: &str)
        requires
            row_keys_unique(old(table)@),
        ensures
            row_keys_unique(final(table)@),
            final(table)@.len() == old(table)@.len(),
            forall|i: int| 0 <= i < final(table)@.len()
                ==> final(table)@[i].id == old(table)@[i].id,
            forall|q: i64, p: Seq<char>| !(q == pair_id && p == relative_path@)
                ==> lookup_row(final(table)@, q, p) == lookup_row(old(table)@, q, p),
            match lookup_row(old(table)@, pair_id, relative_path@) {
                Some(t) => lookup_row(final(table)@, pair_id, relative_path@) matches Some(r)
                    && r == TrackedFile { is_deleted: true, last_seen_at: r.last_seen_at, ..t },
                None => final(table)@ == old(table)@,
            },
    {
        match Self::find_row_index(table, pair_id, relative_path) {
            Some(i) => {
                let mut rec = clone_tracked(&table[i]);
                rec.is_deleted = true;
                rec.last_seen_at = now_seconds();
                proof {
                    let s = table@;
                    assert forall|q: i64, p: Seq<char>| true implies lookup_row(s.update(i as int, rec), q, p)
                        == (if s[i as int].sync_pair_id == q && s[i as int].relative_path@ == p {
                            Some(rec)
                        } else {
                            lookup_row(s, q, p)
                        }) by {
                        lemma_lookup_row_update(s, i as int, rec, q, p);
                    };
                    assert(row_keys_unique(s.update(i as int, rec))) by {
                        assert(forall|k: int| 0 <= k < s.len() && k != i
                            ==> s.update(i as int, rec)[k] == s[k]);
                        assert(s.update(i as int, rec)[i as int] == rec);
                    };
                }
                table.set(i, rec);
            },
            None => {},
        }
    }

    /// Clones of one side's rows for a pair, in table order.
    fn rows_for_pair(table: &Vec<TrackedFile>, pair_id: i64) -> (r: Vec<TrackedFile>)
        ensures
            r@ == rows_of_pair(table@, pair_id),
    {
        let ghost s = table@;
        let mut out: Vec<TrackedFile> = Vec::new();
        proof {
            assert(s.skip(0) =~= s);
            assert(Seq::<TrackedFile>::empty() + rows_of_pair(s, pair_id) =~= rows_of_pair(s, pair_id));
        }
        let n = table.len();
        let mut i: usize = 0;
        while i < n
            invariant
                n == s.len(),
                s == table@,
                i <= n,
                rows_of_pair(s, pair_id) == out@ + rows_of_pair(s.skip(i as int), pair_id),
            decreases n - i,
        {
            let t = &table[i];
            proof {
                assert(s.skip(i as int)[0] == s[i as int]);
                assert(s.skip(i as int).drop_first() =~= s.skip(i as int + 1));
            }
            if t.sync_pair_id == pair_id {
                let c = clone_tracked(t);
                proof {
                    assert(rows_of_pair(s.skip(i as int), pair_id)
                        =~= seq![s[i as int]] + rows_of_pair(s.skip(i as int + 1), pair_id));
                    assert((out@ + seq![c]) + rows_of_pair(s.skip(i as int + 1), pair_id)
                        =~= out@ + rows_of_pair(s.skip(i as int), pair_id));
                }
                out.push(c);
            }
            i = i + 1;
        }
        proof {
            assert(s.skip(n as int) =~= Seq::<TrackedFile>::empty());
            assert(out@ + rows_of_pair(s.skip(n as int), pair_id) =~= out@);
        }
        out
    }

    /// Upsert the last committed local observation for a path.
    pub fn save_local_file_state(
        &mut self,
        pair_id: i64,
        relative_path: &str,
        size: i64,
        mtime_ms: i64,
        content_hash: &Option<String>,
    ) -> (r: Result<(), AppError>)
        requires
            old(self).wf(),
        ensures
            final(self).wf(),
            final(self).pairs == old(self).pairs,
            final(self).remote_files == old(self).remote_files,
            final(self).sessions == old(self).sessions,
            final(self).next_pair_id == old(self).next_pair_id,
            final(self).next_session_id == old(self).next_session_id,
            r is Ok ==> (lookup_row(final(self).local_files@, pair_id, relative_path@) matches Some(n)
                && saved_row(n, pair_id, relative_path@, size, Some(mtime_ms), None, *content_hash)),
            r is Ok ==> forall|q: i64, p: Seq<char>| !(q == pair_id && p == relative_path@)
                ==> lookup_row(final(self).local_files@, q, p) == lookup_row(old(self).local_files@, q, p),
            r is Err ==> *final(self) == *old(self) && (r matches Err(e) && e matches AppError::Storage(_)),
            r is Ok <==> !(lookup_row(old(self).local_files@, pair_id, relative_path@) is None
                && old(self).next_file_id == i64::MAX),
            old(self).next_file_id <= final(self).next_file_id <= old(self).next_file_id + 1,
    {
        Self::upsert_row(
            &mut self.local_files,
            &mut self.next_file_id,
            pair_id,
            relative_path,
            size,
            Some(mtime_ms),
            &None,
            content_hash,
        )
    }

    /// Upsert the last committed remote observation for a path. The remote
    /// modification time is stored in the row's `mtime_ms` field.
    pub fn save_remote_file_state(
        &mut self,
        pair_id: i64,
        relative_path: &str,
        size: i64,
        etag: &Option<String>,
        last_modified: Option<i64>,
        content_hash: &Option<String>,
    ) -> (r: Result<(), AppError>)
        requires
            old(self).wf(),
        ensures
            final(self).wf(),
            final(self).pairs == old(self).pairs,
            final(self).local_files == old(self).local_files,
            final(self).sessions == old(self).sessions,
            final(self).next_pair_id == old(self).next_pair_id,
            final(self).next_session_id == old(self).next_session_id,
            r is Ok ==> (lookup_row(final(self).remote_files@, pair_id, relative_path@) matches Some(n)
                && saved_row(n, pair_id, relative_path@, size, last_modified, *etag, *content_hash)),
            r is Ok ==> forall|q: i64, p: Seq<char>| !(q == pair_id && p == relative_path@)
                ==> lookup_row(final(self).remote_files@, q, p) == lookup_row(old(self).remote_files@, q, p),
            r is Err ==> *final(self) == *old(self) && (r matches Err(e) && e matches AppError::Storage(_)),
            r is Ok <==> !(lookup_row(old(self).remote_files@, pair_id, relative_path@) is None
                && old(self).next_file_id == i64::MAX),
            old(self).next_file_id <= final(self).next_file_id <= old(self).next_file_id + 1,
    {
        Self::upsert_row(
            &mut self.remote_files,
            &mut self.next_file_id,
            pair_id,
            relative_path,
            size,
            last_modified,
            etag,
            content_hash,
        )
    }

    /// Mark a local row deleted; the row is retained so a reappearance can be
    /// told apart from a never-deleted path. A missing key is a no-op.
    pub fn mark_local_file_deleted(&mut self, pair_id: i64, relative_path: &str)
        requires
            old(self).wf(),
        ensures
            final(self).wf(),
            final(self).pairs == old(self).pairs,
            final(self).remote_files == old(self).remote_files,
            final(self).sessions == old(self).sessions,
            final(self).next_pair_id == old(self).next_pair_id,
            final(self).next_file_id == old(self).next_file_id,
            final(self).next_session_id == old(self).next_session_id,
            forall|q: i64, p: Seq<char>| !(q == pair_id && p == relative_path@)
                ==> lookup_row(final(self).local_files@, q, p) == lookup_row(old(self).local_files@, q, p),
            match lookup_row(old(self).local_files@, pair_id, relative_path@) {
                Some(t) => lookup_row(final(self).local_files@, pair_id, relative_path@) matches Some(r)
                    && r == TrackedFile { is_deleted: true, last_seen_at: r.last_seen_at, ..t },
                None => final(self).local_files@ == old(self).local_files@,
            },
    {
        Self::mark_row_deleted(&mut self.local_files, pair_id, relative_path);
        proof {
            assert forall|i: int| 0 <= i < self.local_files@.len()
                implies self.local_files@[i].id < self.next_file_id by {
                assert(self.local_files@[i].id == old(self).local_files@[i].id);
            };
        }
    }

    /// Mark a remote row deleted. A missing key is a no-op.
    pub fn mark_remote_file_deleted(&mut self, pair_id: i64, relative_path: &str)
        requires
            old(self).wf(),
        ensures
            final(self).wf(),
            final(self).pairs == old(self).pairs,
            final(self).local_files == old(self).local_files,
            final(self).sessions == old(self).sessions,
            final(self).next_pair_id == old(self).next_pair_id,
            final(self).next_file_id == old(self).next_file_id,
            final(self).next_session_id == old(self).next_session_id,
            forall|q: i64, p: Seq<char>| !(q == pair_id && p == relative_path@)
                ==> lookup_row(final(self).remote_files@, q, p) == lookup_row(old(self).remote_files@, q, p),
            match lookup_row(old(self).remote_files@, pair_id, relative_path@) {
                Some(t) => lookup_row(final(self).remote_files@, pair_id, relative_path@) matches Some(r)
                    && r == TrackedFile { is_deleted: true, last_seen_at: r.last_seen_at, ..t },
                None => final(self).remote_files@ == old(self).remote_files@,
            },
    {
        Self::mark_row_deleted(&mut self.remote_files, pair_id, relative_path);
        proof {
            assert forall|i: int| 0 <= i < self.remote_files@.len()
                implies self.remote_files@[i].id < self.next_file_id by {
                assert(self.remote_files@[i].id == old(self).remote_files@[i].id);
            };
        }
    }

    /// All tracked local rows of a pair, in table order.
    pub fn get_local_file_states(&self, pair_id: i64) -> (r: Vec<TrackedFile>)
        ensures
            r@ == rows_of_pair(self.local_files@, pair_id),
    {
        Self::rows_for_pair(&self.local_files, pair_id)
    }

    /// All tracked remote rows of a pair, in table order.
    pub fn get_remote_file_states(&self, pair_id: i64) -> (r: Vec<TrackedFile>)
        ensures
            r@ == rows_of_pair(self.remote_files@, pair_id),
    {
        Self::rows_for_pair(&self.remote_files, pair_id)
    }

    /// Erase both sides' tracked rows for a pair (used by resync).
    pub fn clear_tracked_files(&mut self, pair_id: i64)
        requires
            old(self).wf(),
        ensures
            final(self).wf(),
            final(self).pairs == old(self).pairs,
            final(self).sessions == old(self).sessions,
            final(self).next_pair_id == old(self).next_pair_id,
            final(self).next_file_id == old(self).next_file_id,
            final(self).next_session_id == old(self).next_session_id,
            final(self).local_files@ == rows_without_pair(old(self).local_files@, pair_id),
            final(self).remote_files@ == rows_without_pair(old(self).remote_files@, pair_id),
            rows_of_pair(final(self).local_files@, pair_id) == Seq::<TrackedFile>::empty(),
            rows_of_pair(final(self).remote_files@, pair_id) == Seq::<TrackedFile>::empty(),
            forall|q: i64, p: Seq<char>| q != pair_id
                ==> lookup_row(final(self).local_files@, q, p) == lookup_row(old(self).local_files@, q, p)
                    && lookup_row(final(self).remote_files@, q, p) == lookup_row(old(self).remote_files@, q, p),
    {
        let ghost old_store = *self;
        let mut local: Vec<TrackedFile> = Vec::new();
        proof {
            assert(self.local_files@.skip(0) =~= self.local_files@);
            assert(Seq::<TrackedFile>::empty() + rows_without_pair(self.local_files@, pair_id)
                =~= rows_without_pair(self.local_files@, pair_id));
        }
        let nl = self.local_files.len();
        let mut i: usize = 0;
        while i < nl
            invariant
                nl == self.local_files@.len(),
                i <= nl,
                rows_without_pair(self.local_files@, pair_id)
                    == local@ + rows_without_pair(self.local_files@.skip(i as int), pair_id),
            decreases nl - i,
        {
            let t = &self.local_files[i];
            proof {
                assert(self.local_files@.skip(i as int)[0] == self.local_files@[i as int]);
                assert(self.local_files@.skip(i as int).drop_first()
                    =~= self.local_files@.skip(i as int + 1));
            }
            if t.sync_pair_id != pair_id {
                let c = clone_tracked(t);
                proof {
                    assert(rows_without_pair(self.local_files@.skip(i as int), pair_id)
                        =~= seq![self.local_files@[i as int]]
                            + rows_without_pair(self.local_files@.skip(i as int + 1), pair_id));
                    assert((local@ + seq![c])
                        + rows_without_pair(self.local_files@.skip(i as int + 1), pair_id)
                        =~= local@ + rows_without_pair(self.local_files@.skip(i as int), pair_id));
                }
                local.push(c);
            }
            i = i + 1;
        }
        proof {
            assert(self.local_files@.skip(nl as int) =~= Seq::<TrackedFile>::empty());
            assert(local@ + rows_without_pair(self.local_files@.skip(nl as int), pair_id) =~= local@);
        }
        self.local_files = local;

        let mut remote: Vec<TrackedFile> = Vec::new();
        proof {
            assert(self.remote_files@.skip(0) =~= self.remote_files@);
            assert(Seq::<TrackedFile>::empty() + rows_without_pair(self.remote_files@, pair_id)
                =~= rows_without_pair(self.remote_files@, pair_id));
        }
        let nr = self.remote_files.len();
        let mut i: usize = 0;
        while i < nr
            invariant
                nr == self.remote_files@.len(),
                i <= nr,
                rows_without_pair(self.remote_files@, pair_id)
                    == remote@ + rows_without_pair(self.remote_files@.skip(i as int), pair_id),
            decreases nr - i,
        {
            let t = &self.remote_files[i];
            proof {
                assert(self.remote_files@.skip(i as int)[0] == self.remote_files@[i as int]);
                assert(self.remote_files@.skip(i as int).drop_first()
                    =~= self.remote_files@.skip(i as int + 1));
            }
            if t.sync_pair_id != pair_id {
                let c = clone_tracked(t);
                proof {
                    assert(rows_without_pair(self.remote_files@.skip(i as int), pair_id)
                        =~= seq![self.remote_files@[i as int]]
                            + rows_without_pair(self.remote_files@.skip(i as int + 1), pair_id));
                    assert((remote@ + seq![c])
                        + rows_without_pair(self.remote_files@.skip(i as int + 1), pair_id)
                        =~= remote@ + rows_without_pair(self.remote_files@.skip(i as int), pair_id));
                }
                remote.push(c);
            }
            i = i + 1;
        }
        proof {
            assert(self.remote_files@.skip(nr as int) =~= Seq::<TrackedFile>::empty());
            assert(remote@ + rows_without_pair(self.remote_files@.skip(nr as int), pair_id) =~= remote@);
        }
        self.remote_files = remote;

        proof {
            lemma_rows_without_pair_ok(old_store.local_files@, pair_id, pair_id, Seq::empty());
            lemma_rows_without_pair_ok(old_store.remote_files@, pair_id, pair_id, Seq::empty());
            lemma_rows_without_pair_elems(old_store.local_files@, pair_id);
            lemma_rows_without_pair_elems(old_store.remote_files@, pair_id);
            assert forall|q: i64, p: Seq<char>| q != pair_id
                implies lookup_row(self.local_files@, q, p) == lookup_row(old_store.local_files@, q, p)
                    && lookup_row(self.remote_files@, q, p) == lookup_row(old_store.remote_files@, q, p) by {
                lemma_rows_without_pair_ok(old_store.local_files@, pair_id, q, p);
                lemma_rows_without_pair_ok(old_store.remote_files@, pair_id, q, p);
            };
            assert forall|k: int| 0 <= k < self.local_files@.len()
                implies self.local_files@[k].id < self.next_file_id by {
                assert(rows_without_pair(old_store.local_files@, pair_id)[k] == self.local_files@[k]);
                let j = choose|j: int| 0 <= j < old_store.local_files@.len()
                    && old_store.local_files@[j] == rows_without_pair(old_store.local_files@, pair_id)[k];
            };
            assert forall|k: int| 0 <= k < self.remote_files@.len()
                implies self.remote_files@[k].id < self.next_file_id by {
                assert(rows_without_pair(old_store.remote_files@, pair_id)[k] == self.remote_files@[k]);
                let j = choose|j: int| 0 <= j < old_store.remote_files@.len()
                    && old_store.remote_files@[j] == rows_without_pair(old_store.remote_files@, pair_id)[k];
            };
            lemma_rows_of_pair_of_without(old_store.local_files@, pair_id);
            lemma_rows_of_pair_of_without(old_store.remote_files@, pair_id);
        }
    }
}

impl StateStore {
    // ----------------------------------------------------------------------
    // Sync sessions: one append-only record per run. A record that has
    // reached a terminal status is never mutated again; the update methods
    // act only on Running sessions.
    // ----------------------------------------------------------------------

    /// Index of the session with the given id.
    fn find_session_index(&self, session_id: i64) -> (r: Option<usize>)
        ensures
            match r {
                Some(i) => i < self.sessions@.len() && self.sessions@[i as int].id == session_id
                    && lookup_session(self.sessions@, session_id) == Some(self.sessions@[i as int]),
                None => lookup_session(self.sessions@, session_id) is None,
            },
    {
        let n = self.sessions.len();
        let mut i: usize = 0;
        while i < n
            invariant
                n == self.sessions@.len(),
                i <= n,
                forall|j: int| 0 <= j < i ==> self.sessions@[j].id != session_id,
            decreases n - i,
        {
            if self.sessions[i].id == session_id {
                proof {
                    lemma_lookup_session_skip(self.sessions@, session_id, i as int);
                }
                return Some(i);
            }
            i = i + 1;
        }
        proof {
            lemma_lookup_session_skip(self.sessions@, session_id, n as int);
        }
        None
    }

    /// Open a session in Running state with zeroed counters. Fails only when
    /// session ids are exhausted.
    pub fn create_sync_session(&mut self, pair_id: i64) -> (r: Result<i64, AppError>)
        requires
            old(self).wf(),
        ensures
            final(self).wf(),
            final(self).pairs == old(self).pairs,
            final(self).local_files == old(self).local_files,
            final(self).remote_files == old(self).remote_files,
            final(self).next_pair_id == old(self).next_pair_id,
            final(self).next_file_id == old(self).next_file_id,
            match r {
                Ok(id) => {
                    &&& id == old(self).next_session_id
                    &&& final(self).next_session_id == id + 1
                    &&& final(self).sessions@.len() == old(self).sessions@.len() + 1
                    &&& final(self).sessions@.take(old(self).sessions@.len() as int) == old(self).sessions@
                    &&& ({
                        let n = final(self).sessions@.last();
                        &&& n.id == id
                        &&& n.sync_pair_id == pair_id
                        &&& n.status == SyncSessionStatus::Running
                        &&& n.completed_at is None
                        &&& n.files_uploaded == 0
                        &&& n.files_downloaded == 0
                        &&& n.files_deleted_local == 0
                        &&& n.files_deleted_remote == 0
                        &&& n.bytes_transferred == 0
                        &&& n.error_message is None
                    })
                    &&& lookup_session(final(self).sessions@, id) == Some(final(self).sessions@.last())
                    &&& forall|q: i64| q != id
                        ==> lookup_session(final(self).sessions@, q) == lookup_session(old(self).sessions@, q)
                },
                Err(e) => *final(self) == *old(self) && e matches AppError::Storage(_),
            },
            r is Ok <==> old(self).next_session_id < i64::MAX,
    {
        if self.next_session_id == i64::MAX {
            return Err(AppError::Storage(String::from_str("Session ids exhausted")));
        }
        let id = self.next_session_id;
        let rec = SyncSession {
            id,
            sync_pair_id: pair_id,
            started_at: now_seconds(),
            completed_at: None,
            status: SyncSessionStatus::Running,
            files_uploaded: 0,
            files_downloaded: 0,
            files_deleted_local: 0,
            files_deleted_remote: 0,
            bytes_transferred: 0,
            error_message: None,
        };
        proof {
            assert forall|q: i64| true implies lookup_session(self.sessions@.push(rec), q)
                == (if lookup_session(self.sessions@, q) is Some {
                    lookup_session(self.sessions@, q)
                } else if rec.id == q {
                    Some(rec)
                } else {
                    None::<SyncSession>
                }) by {
                lemma_lookup_session_push(self.sessions@, rec, q);
            };
            assert(lookup_session(self.sessions@, rec.id) is None) by {
                if lookup_session(self.sessions@, rec.id) is Some {
                    lemma_lookup_session_some(self.sessions@, rec.id);
                }
            };
            assert(self.sessions@.push(rec).take(self.sessions@.len() as int) =~= self.sessions@);
            assert(session_ids_unique(self.sessions@.push(rec))) by {
                assert(forall|k: int| 0 <= k < self.sessions@.len()
                    ==> self.sessions@.push(rec)[k] == self.sessions@[k]);
                assert(self.sessions@.push(rec)[self.sessions@.len() as int] == rec);
            };
        }
        self.sessions.push(rec);
        self.next_session_id = id + 1;
        Ok(id)
    }

    /// Write the running counters of a Running session. A missing id, or a
    /// session already in a terminal status, is a no-op.
    pub fn update_sync_session_progress(
        &mut self,
        session_id: i64,
        files_uploaded: i64,
        files_downloaded: i64,
        files_deleted_local: i64,
        files_deleted_remote: i64,
        bytes_transferred: i64,
    )
        requires
            old(self).wf(),
        ensures
            final(self).wf(),
            final(self).pairs == old(self).pairs,
            final(self).local_files == old(self).local_files,
            final(self).remote_files == old(self).remote_files,
            final(self).next_pair_id == old(self).next_pair_id,
            final(self).next_file_id == old(self).next_file_id,
            final(self).next_session_id == old(self).next_session_id,
            final(self).sessions@.len() == old(self).sessions@.len(),
            forall|q: i64| q != session_id
                ==> lookup_session(final(self).sessions@, q) == lookup_session(old(self).sessions@, q),
            match lookup_session(old(self).sessions@, session_id) {
                Some(t) => if t.status == SyncSessionStatus::Running {
                    lookup_session(final(self).sessions@, session_id) matches Some(r)
                        && r == SyncSession {
                            files_uploaded,
                            files_downloaded,
                            files_deleted_local,
                            files_deleted_remote,
                            bytes_transferred,
                            ..t
                        }
                } else {
                    final(self).sessions@ == old(self).sessions@
                },
                None => final(self).sessions@ == old(self).sessions@,
            },
    {
        match self.find_session_index(session_id) {
            Some(i) => {
                if matches!(self.sessions[i].status, SyncSessionStatus::Running) {
                    let mut rec = clone_session(&self.sessions[i]);
                    rec.files_uploaded = files_uploaded;
                    rec.files_downloaded = files_downloaded;
                    rec.files_deleted_local = files_deleted_local;
                    rec.files_deleted_remote = files_deleted_remote;
                    rec.bytes_transferred = bytes_transferred;
                    proof {
                        self.lemma_session_set(i as int, rec);
                    }
                    self.sessions.set(i, rec);
                }
            },
            None => {},
        }
    }

    /// Close a Running session as Completed. A missing id, or a session
    /// already terminal, is a no-op.
    pub fn complete_sync_session(&mut self, session_id: i64)
        requires
            old(self).wf(),
        ensures
            final(self).wf(),
            final(self).pairs == old(self).pairs,
            final(self).local_files == old(self).local_files,
            final(self).remote_files == old(self).remote_files,
            final(self).next_pair_id == old(self).next_pair_id,
            final(self).next_file_id == old(self).next_file_id,
            final(self).next_session_id == old(self).next_session_id,
            final(self).sessions@.len() == old(self).sessions@.len(),
            forall|q: i64| q != session_id
                ==> lookup_session(final(self).sessions@, q) == lookup_session(old(self).sessions@, q),
            match lookup_session(old(self).sessions@, session_id) {
                Some(t) => if t.status == SyncSessionStatus::Running {
                    lookup_session(final(self).sessions@, session_id) matches Some(r)
                        && r.status == SyncSessionStatus::Completed && r.completed_at is Some
                        && r == SyncSession {
                            status: SyncSessionStatus::Completed,
                            completed_at: r.completed_at,
                            ..t
                        }
                } else {
                    final(self).sessions@ == old(self).sessions@
                },
                None => final(self).sessions@ == old(self).sessions@,
            },
    {
        match self.find_session_index(session_id) {
            Some(i) => {
                if matches!(self.sessions[i].status, SyncSessionStatus::Running) {
                    let mut rec = clone_session(&self.sessions[i]);
                    rec.status = SyncSessionStatus::Completed;
                    rec.completed_at = Some(now_seconds());
                    proof {
                        self.lemma_session_set(i as int, rec);
                    }
                    self.sessions.set(i, rec);
                }
            },
            None => {},
        }
    }

    /// Close a Running session as Failed, recording the message. A missing
    /// id, or a session already terminal, is a no-op.
    pub fn fail_sync_session(&mut self, session_id: i64, error: &str)
        requires
            old(self).wf(),
        ensures
            final(self).wf(),
            final(self).pairs == old(self).pairs,
            final(self).local_files == old(self).local_files,
            final(self).remote_files == old(self).remote_files,
            final(self).next_pair_id == old(self).next_pair_id,
            final(self).next_file_id == old(self).next_file_id,
            final(self).next_session_id == old(self).next_session_id,
            final(self).sessions@.len() == old(self).sessions@.len(),
            forall|q: i64| q != session_id
                ==> lookup_session(final(self).sessions@, q) == lookup_session(old(self).sessions@, q),
            match lookup_session(old(self).sessions@, session_id) {
                Some(t) => if t.status == SyncSessionStatus::Running {
                    lookup_session(final(self).sessions@, session_id) matches Some(r)
                        && r.status == SyncSessionStatus::Failed && r.completed_at is Some
                        && (r.error_message matches Some(m) && m@ == error@)
                        && r == SyncSession {
                            status: SyncSessionStatus::Failed,
                            completed_at: r.completed_at,
                            error_message: r.error_message,
                            ..t
                        }
                } else {
                    final(self).sessions@ == old(self).sessions@
                },
                None => final(self).sessions@ == old(self).sessions@,
            },
    {
        match self.find_session_index(session_id) {
            Some(i) => {
                if matches!(self.sessions[i].status, SyncSessionStatus::Running) {
                    let mut rec = clone_session(&self.sessions[i]);
                    rec.status = SyncSessionStatus::Failed;
                    rec.completed_at = Some(now_seconds());
                    rec.error_message = Some(String::from_str(error));
                    proof {
                        self.lemma_session_set(i as int, rec);
                    }
                    self.sessions.set(i, rec);
                }
            },
            None => {},
        }
    }

    /// Close a Running session as Cancelled. Cancellation could instead leave
    /// the record Running forever; closing it is the deliberate choice here,
    /// so that no record stays non-terminal once its run has ended. A missing
    /// id, or a session already terminal, is a no-op.
    pub fn cancel_sync_session(&mut self, session_id: i64)
        requires
            old(self).wf(),
        ensures
            final(self).wf(),
            final(self).pairs == old(self).pairs,
            final(self).local_files == old(self).local_files,
            final(self).remote_files == old(self).remote_files,
            final(self).next_pair_id == old(self).next_pair_id,
            final(self).next_file_id == old(self).next_file_id,
            final(self).next_session_id == old(self).next_session_id,
            final(self).sessions@.len() == old(self).sessions@.len(),
            forall|q: i64| q != session_id
                ==> lookup_session(final(self).sessions@, q) == lookup_session(old(self).sessions@, q),
            match lookup_session(old(self).sessions@, session_id) {
                Some(t) => if t.status == SyncSessionStatus::Running {
                    lookup_session(final(self).sessions@, session_id) matches Some(r)
                        && r.status == SyncSessionStatus::Cancelled && r.completed_at is Some
                        && r == SyncSession {
                            status: SyncSessionStatus::Cancelled,
                            completed_at: r.completed_at,
                            ..t
                        }
                } else {
                    final(self).sessions@ == old(self).sessions@
                },
                None => final(self).sessions@ == old(self).sessions@,
            },
    {
        match self.find_session_index(session_id) {
            Some(i) => {
                if matches!(self.sessions[i].status, SyncSessionStatus::Running) {
                    let mut rec = clone_session(&self.sessions[i]);
                    rec.status = SyncSessionStatus::Cancelled;
                    rec.completed_at = Some(now_seconds());
                    proof {
                        self.lemma_session_set(i as int, rec);
                    }
                    self.sessions.set(i, rec);
                }
            },
            None => {},
        }
    }

    /// Facts for replacing session `i` by a record with the same id.
    proof fn lemma_session_set(&self, i: int, rec: SyncSession)
        requires
            self.wf(),
            0 <= i < self.sessions@.len(),
            rec.id == self.sessions@[i].id,
            rec.id < self.next_session_id,
        ensures
            forall|q: i64| lookup_session(self.sessions@.update(i, rec), q)
                == (if self.sessions@[i].id == q {
                    Some(rec)
                } else {
                    lookup_session(self.sessions@, q)
                }),
            session_ids_unique(self.sessions@.update(i, rec)),
            forall|k: int| 0 <= k < self.sessions@.update(i, rec).len()
                ==> self.sessions@.update(i, rec)[k].id < self.next_session_id,
    {
        let s = self.sessions@;
        assert forall|q: i64| true implies lookup_session(s.update(i, rec), q)
            == (if s[i].id == q {
                Some(rec)
            } else {
                lookup_session(s, q)
            }) by {
            lemma_lookup_session_update(s, i, rec, q);
        };
        assert(session_ids_unique(s.update(i, rec))) by {
            assert(forall|k: int| 0 <= k < s.len() && k != i ==> s.update(i, rec)[k] == s[k]);
            assert(s.update(i, rec)[i] == rec);
        };
        assert(forall|k: int| 0 <= k < s.update(i, rec).len() && k != i
            ==> s.update(i, rec)[k] == s[k]);
    }

    /// The most recent sessions of a pair: newest first, at most `limit`.
    pub fn get_sync_sessions(&self, pair_id: i64, limit: usize) -> (r: Vec<SyncSession>)
        ensures
            ({
                let f = sessions_of_pair(self.sessions@, pair_id);
                &&& r@.len() == (if limit <= f.len() {
                    limit as int
                } else {
                    f.len() as int
                })
                &&& forall|k: int| 0 <= k < r@.len() ==> r@[k] == f[f.len() - 1 - k]
            }),
    {
        let ghost s = self.sessions@;
        let mut f: Vec<SyncSession> = Vec::new();
        proof {
            assert(s.skip(0) =~= s);
            assert(Seq::<SyncSession>::empty() + sessions_of_pair(s, pair_id)
                =~= sessions_of_pair(s, pair_id));
        }
        let n = self.sessions.len();
        let mut i: usize = 0;
        while i < n
            invariant
                n == s.len(),
                s == self.sessions@,
                i <= n,
                sessions_of_pair(s, pair_id) == f@ + sessions_of_pair(s.skip(i as int), pair_id),
            decreases n - i,
        {
            let t = &self.sessions[i];
            proof {
                assert(s.skip(i as int)[0] == s[i as int]);
                assert(s.skip(i as int).drop_first() =~= s.skip(i as int + 1));
            }
            if t.sync_pair_id == pair_id {
                let c = clone_session(t);
                proof {
                    assert(sessions_of_pair(s.skip(i as int), pair_id)
                        =~= seq![s[i as int]] + sessions_of_pair(s.skip(i as int + 1), pair_id));
                    assert((f@ + seq![c]) + sessions_of_pair(s.skip(i as int + 1), pair_id)
                        =~= f@ + sessions_of_pair(s.skip(i as int), pair_id));
                }
                f.push(c);
            }
            i = i + 1;
        }
        proof {
            assert(s.skip(n as int) =~= Seq::<SyncSession>::empty());
            assert(f@ + sessions_of_pair(s.skip(n as int), pair_id) =~= f@);
        }

        let mut out: Vec<SyncSession> = Vec::new();
        let m = f.len();
        let mut j: usize = m;
        while j > 0 && out.len() < limit
            invariant
                m == f@.len(),
                f@ == sessions_of_pair(s, pair_id),
                j <= m,
                out@.len() == m - j,
                out@.len() <= limit,
                forall|k: int| 0 <= k < out@.len() ==> out@[k] == f@[m - 1 - k],
            decreases j,
        {
            j = j - 1;
            out.push(clone_session(&f[j]));
        }
        out
    }
}

/// Removing a pair's rows leaves nothing of that pair to list.
proof fn lemma_rows_of_pair_of_without(s: Seq<TrackedFile>, pid: i64)
    ensures
        rows_of_pair(rows_without_pair(s, pid), pid) == Seq::<TrackedFile>::empty(),
{
    lemma_rows_without_pair_elems(s, pid);
    let f = rows_without_pair(s, pid);
    lemma_rows_of_pair_elems(f, pid);
    if rows_of_pair(f, pid).len() > 0 {
        assert(rows_of_pair(f, pid)[0].sync_pair_id == pid);
        let j = choose|j: int| 0 <= j < f.len() && f[j] == rows_of_pair(f, pid)[0];
    }
    assert(rows_of_pair(f, pid) =~= Seq::<TrackedFile>::empty());
}

} // verus!

