//! Scanner: building the current-state map of each side from plain
//! observations. The host walks the directory tree and pages through the
//! bucket listing; this module turns what it found into the unique-path scan
//! map that both preview and run diff against.

use vstd::prelude::*;
use crate::sync_types::{
    ChangeType, DetectedChange, change_paths_unique, clone_opt_string, find_change,
    lemma_lookup_change_none, lemma_lookup_change_push, lemma_lookup_change_update, lookup_change,
};

verus! {

/// One object of a remote listing page, as plain values.
pub struct RemoteEntry {
    pub key: String,
    pub size: Option<i64>,
    pub last_modified_ms: Option<i64>,
    pub etag: Option<String>,
}

/// `s` without its leading slashes.
pub open spec fn trim_leading_slashes(s: Seq<char>) -> Seq<char>
    decreases s.len(),
{
    if s.len() > 0 && s[0] == '/' {
        trim_leading_slashes(s.drop_first())
    } else {
        s
    }
}

/// `s` without leading and trailing double quotes.
pub open spec fn trim_quotes(s: Seq<char>) -> Seq<char>
    decreases s.len(),
{
    if s.len() > 0 && s[0] == '"' {
        trim_quotes(s.drop_first())
    } else if s.len() > 0 && s.last() == '"' {
        trim_quotes(s.drop_last())
    } else {
        s
    }
}

/// The relative path a listed key contributes under a prefix: None for a
/// folder marker (trailing separator); otherwise the key with the prefix and
/// its separator cut off and any leading separators stripped.
pub open spec fn remote_rel_key(prefix: Seq<char>, key: Seq<char>) -> Option<Seq<char>> {
    if key.len() > 0 && key.last() == '/' {
        None
    } else {
        let plen: int = if prefix.len() == 0 {
            0
        } else {
            prefix.len() as int + 1
        };
        if plen > 0 && key.len() > plen {
            Some(trim_leading_slashes(key.skip(plen)))
        } else {
            Some(trim_leading_slashes(key))
        }
    }
}

/// Strip the leading slashes off a slice.
fn strip_leading_slashes<'a>(s: &'a str) -> (r: &'a str)
    ensures
        r@ == trim_leading_slashes(s@),
{
    let n = s.unicode_len();
    let mut i: usize = 0;
    proof {
        assert(s@.skip(0) =~= s@);
    }
    while i < n && s.get_char(i) == '/'
        invariant
            n == s@.len(),
            i <= n,
            trim_leading_slashes(s@) == trim_leading_slashes(s@.skip(i as int)),
        decreases n - i,
    {
        proof {
            assert(s@.skip(i as int)[0] == s@[i as int]);
            assert(s@.skip(i as int).drop_first() =~= s@.skip(i as int + 1));
        }
        i = i + 1;
    }
    let r = s.substring_char(i, n);
    proof {
        assert(r@ =~= s@.skip(i as int));
        if i < n {
            assert(s@.skip(i as int)[0] == s@[i as int]);
        }
    }
    r
}

/// Strip leading and trailing double quotes off an ETag.
pub fn strip_quotes(s: &str) -> (r: String)
    ensures
        r@ == trim_quotes(s@),
{
    let n = s.unicode_len();
    let mut lo: usize = 0;
    proof {
        assert(s@.subrange(0, n as int) =~= s@);
    }
    while lo < n && s.get_char(lo) == '"'
        invariant
            n == s@.len(),
            lo <= n,
            trim_quotes(s@) == trim_quotes(s@.subrange(lo as int, n as int)),
        decreases n - lo,
    {
        proof {
            let cur = s@.subrange(lo as int, n as int);
            assert(cur[0] == s@[lo as int]);
            assert(cur.drop_first() =~= s@.subrange(lo as int + 1, n as int));
        }
        lo = lo + 1;
    }
    let mut hi: usize = n;
    while hi > lo && s.get_char(hi - 1) == '"'
        invariant
            n == s@.len(),
            lo <= hi <= n,
            lo < n ==> s@[lo as int] != '"',
            trim_quotes(s@) == trim_quotes(s@.subrange(lo as int, hi as int)),
        decreases hi,
    {
        proof {
            let cur = s@.subrange(lo as int, hi as int);
            assert(cur.last() == s@[hi - 1]);
            if cur.len() > 0 && cur[0] == '"' {
                assert(s@[lo as int] == '"');
            }
            assert(cur.drop_last() =~= s@.subrange(lo as int, hi as int - 1));
        }
        hi = hi - 1;
    }
    proof {
        let cur = s@.subrange(lo as int, hi as int);
        if cur.len() > 0 {
            assert(cur[0] == s@[lo as int]);
            assert(cur.last() == s@[hi - 1]);
        }
        assert(trim_quotes(cur) =~= cur);
    }
    String::from_str(s.substring_char(lo, hi))
}

/// What an upserted scan entry holds.
pub open spec fn scan_entry_saved(
    d: DetectedChange,
    path: Seq<char>,
    size: Option<i64>,
    mtime: Option<i64>,
    hash: Option<String>,
) -> bool {
    d.relative_path@ == path && d.change_type == ChangeType::Unchanged && d.size == size
        && d.mtime == mtime && d.hash == hash
}

/// Upsert one observation into a scan map, keyed by relative path.
fn upsert_scan_entry(
    map: &mut Vec<DetectedChange>,
    path: String,
    size: Option<i64>,
    mtime: Option<i64>,
    hash: Option<String>,
)
    requires
        change_paths_unique(old(map)@),
    ensures
        change_paths_unique(final(map)@),
        lookup_change(final(map)@, path@) matches Some(d)
            && scan_entry_saved(d, path@, size, mtime, hash),
        forall|p: Seq<char>| p != path@
            ==> lookup_change(final(map)@, p) == lookup_change(old(map)@, p),
{
    let d = DetectedChange {
        relative_path: path,
        change_type: ChangeType::Unchanged,
        size,
        mtime,
        hash,
    };
    match find_change(map, d.relative_path.as_str()) {
        Some(i) => {
            proof {
                let s = map@;
                assert forall|p: Seq<char>| true implies lookup_change(s.update(i as int, d), p)
                    == (if s[i as int].relative_path@ == p {
                        Some(d)
                    } else {
                        lookup_change(s, p)
                    }) by {
                    lemma_lookup_change_update(s, i as int, d, p);
                };
                assert(change_paths_unique(s.update(i as int, d))) by {
                    assert(forall|k: int| 0 <= k < s.len() && k != i
                        ==> s.update(i as int, d)[k] == s[k]);
                    assert(s.update(i as int, d)[i as int] == d);
                };
            }
            map.set(i, d);
        },
        None => {
            proof {
                let s = map@;
                assert forall|p: Seq<char>| true implies lookup_change(s.push(d), p)
                    == (if lookup_change(s, p) is Some {
                        lookup_change(s, p)
                    } else if d.relative_path@ == p {
                        Some(d)
                    } else {
                        None::<DetectedChange>
                    }) by {
                    lemma_lookup_change_push(s, d, p);
                };
                lemma_lookup_change_none(s, d.relative_path@);
                assert(change_paths_unique(s.push(d))) by {
                    assert(forall|k: int| 0 <= k < s.len() ==> s.push(d)[k] == s[k]);
                    assert(s.push(d)[s.len() as int] == d);
                };
            }
            map.push(d);
        },
    }
}

/// Record one locally walked file in the local scan map. The path is the
/// walk's path relative to the pair's root.
pub fn add_local_entry(
    map: &mut Vec<DetectedChange>,
    relative_path: String,
    size: i64,
    mtime_ms: Option<i64>,
)
    requires
        change_paths_unique(old(map)@),
    ensures
        change_paths_unique(final(map)@),
        lookup_change(final(map)@, relative_path@) matches Some(d)
            && scan_entry_saved(d, relative_path@, Some(size), mtime_ms, None),
        forall|p: Seq<char>| p != relative_path@
            ==> lookup_change(final(map)@, p) == lookup_change(old(map)@, p),
{
    upsert_scan_entry(map, relative_path, Some(size), mtime_ms, None);
}

/// Record one listed remote object in the remote scan map: folder markers
/// (trailing separator) are excluded, the prefix and its separator are cut
/// off, leading separators are stripped, and the ETag loses its surrounding
/// quotes.
pub fn add_remote_entry(map: &mut Vec<DetectedChange>, prefix: &str, entry: RemoteEntry)
    requires
        change_paths_unique(old(map)@),
    ensures
        change_paths_unique(final(map)@),
        match remote_rel_key(prefix@, entry.key@) {
            Some(rel) => (lookup_change(final(map)@, rel) matches Some(d)
                && d.relative_path@ == rel && d.change_type == ChangeType::Unchanged
                && d.size == entry.size && d.mtime == entry.last_modified_ms
                && (match entry.etag {
                    Some(e) => d.hash matches Some(h) && h@ == trim_quotes(e@),
                    None => d.hash is None,
                }))
                && forall|p: Seq<char>| p != rel
                    ==> lookup_change(final(map)@, p) == lookup_change(old(map)@, p),
            None => final(map)@ == old(map)@,
        },
{
    let klen = entry.key.unicode_len();
    if klen > 0 && entry.key.as_str().get_char(klen - 1) == '/' {
        return;
    }
    let pl = prefix.unicode_len();
    let cut: &str = if pl > 0 && klen > pl && klen - pl > 1 {
        let c = entry.key.as_str().substring_char(pl + 1, klen);
        proof {
            assert(c@ =~= entry.key@.skip(pl as int + 1));
        }
        c
    } else {
        entry.key.as_str()
    };
    let rel = String::from_str(strip_leading_slashes(cut));
    proof {
        assert(remote_rel_key(prefix@, entry.key@) == Some(rel@));
    }
    let hash: Option<String> = match &entry.etag {
        Some(e) => Some(strip_quotes(e.as_str())),
        None => None,
    };
    upsert_scan_entry(map, rel, entry.size, entry.last_modified_ms, hash);
}

} // verus!
