//! Verified helpers over strings: equality, substring search, slicing.

use vstd::prelude::*;

verus! {

/// True when `pat` occurs in `s` starting at character position `i`.
pub open spec fn matches_at(s: Seq<char>, pat: Seq<char>, i: int) -> bool {
    0 <= i && i + pat.len() <= s.len() && s.subrange(i, i + pat.len()) == pat
}

/// True when `pat` occurs somewhere in `s`.
pub open spec fn contains_seq(s: Seq<char>, pat: Seq<char>) -> bool {
    exists|i: int| matches_at(s, pat, i)
}

/// Position of the first occurrence of `pat` in `s` at or after `i`.
pub open spec fn first_match_from(s: Seq<char>, pat: Seq<char>, i: int) -> Option<int>
    decreases s.len() - i + 1,
{
    if i + pat.len() > s.len() {
        None
    } else if matches_at(s, pat, i) {
        Some(i)
    } else {
        first_match_from(s, pat, i + 1)
    }
}

/// Character-position of the first occurrence of `pat` in `s`, if any.
pub open spec fn first_match(s: Seq<char>, pat: Seq<char>) -> Option<int> {
    first_match_from(s, pat, 0)
}

/// What a successful or failed search means, position by position.
pub proof fn lemma_first_match_from_props(s: Seq<char>, pat: Seq<char>, i: int)
    ensures
        match first_match_from(s, pat, i) {
            Some(w) => i <= w && matches_at(s, pat, w)
                && forall|j: int| i <= j < w ==> !matches_at(s, pat, j),
            None => forall|j: int| j >= i ==> !matches_at(s, pat, j),
        },
    decreases s.len() - i + 1,
{
    if !(i + pat.len() > s.len()) && !matches_at(s, pat, i) {
        lemma_first_match_from_props(s, pat, i + 1);
    }
}

/// Character equality of two string slices.
pub fn str_eq(a: &str, b: &str) -> (r: bool)
    ensures
        r == (a@ == b@),
{
    let n = a.unicode_len();
    if n != b.unicode_len() {
        return false;
    }
    let mut i: usize = 0;
    while i < n
        invariant
            n == a@.len(),
            n == b@.len(),
            i <= n,
            forall|j: int| 0 <= j < i ==> a@[j] == b@[j],
        decreases n - i,
    {
        if a.get_char(i) != b.get_char(i) {
            return false;
        }
        i = i + 1;
    }
    proof {
        assert(a@ =~= b@);
    }
    true
}


/// Does `pat` occur in `s` starting at position `i`?
fn matches_here(s: &str, pat: &str, i: usize) -> (r: bool)
    requires
        i + pat@.len() <= s@.len(),
    ensures
        r == matches_at(s@, pat@, i as int),
{
    let n = s.unicode_len();
    let m = pat.unicode_len();
    let mut k: usize = 0;
    while k < m
        invariant
            n == s@.len(),
            m == pat@.len(),
            i + m <= n,
            k <= m,
            forall|j: int| 0 <= j < k ==> s@[i + j] == pat@[j],
        decreases m - k,
    {
        if s.get_char(i + k) != pat.get_char(k) {
            proof {
                assert(s@.subrange(i as int, i + pat@.len())[k as int] == s@[i + k]);
            }
            return false;
        }
        k = k + 1;
    }
    proof {
        assert(s@.subrange(i as int, i + pat@.len()) =~= pat@);
    }
    true
}

/// Character position of the first occurrence of `pat` in `s`.
pub fn find_sub(s: &str, pat: &str) -> (r: Option<usize>)
    ensures
        match r {
            Some(i) => first_match(s@, pat@) == Some(i as int) && matches_at(s@, pat@, i as int)
                && i + pat@.len() <= s@.len()
                && forall|j: int| 0 <= j < i ==> !matches_at(s@, pat@, j),
            None => !contains_seq(s@, pat@) && first_match(s@, pat@) is None,
        },
{
    let n = s.unicode_len();
    let m = pat.unicode_len();
    if m > n {
        proof {
            assert(forall|i: int| !matches_at(s@, pat@, i));
            lemma_first_match_from_props(s@, pat@, 0);
            if first_match(s@, pat@) is Some {
                let w = first_match_from(s@, pat@, 0).unwrap();
                assert(matches_at(s@, pat@, w));
            }
        }
        return None;
    }
    if m == 0 {
        proof {
            assert(s@.subrange(0, 0) =~= pat@);
            lemma_first_match_is(s@, pat@, 0);
        }
        return Some(0);
    }
    let mut i: usize = 0;
    while i <= n - m
        invariant
            n == s@.len(),
            m == pat@.len(),
            1 <= m <= n,
            i <= n - m + 1,
            forall|j: int| 0 <= j < i ==> !matches_at(s@, pat@, j),
        decreases n - i,
    {
        if matches_here(s, pat, i) {
            proof {
                lemma_first_match_is(s@, pat@, i as int);
            }
            return Some(i);
        }
        i = i + 1;
    }
    proof {
        assert(forall|j: int| j >= i ==> !matches_at(s@, pat@, j)) by {
            assert(forall|j: int| j + pat@.len() > s@.len() ==> !matches_at(s@, pat@, j));
        };
        assert(forall|j: int| !matches_at(s@, pat@, j));
        lemma_first_match_from_props(s@, pat@, 0);
        if first_match(s@, pat@) is Some {
            let w = first_match_from(s@, pat@, 0).unwrap();
            assert(matches_at(s@, pat@, w));
        }
    }
    None
}

/// The first occurrence is the least position at which the pattern matches.
proof fn lemma_first_match_is(s: Seq<char>, pat: Seq<char>, i: int)
    requires
        matches_at(s, pat, i),
        forall|j: int| 0 <= j < i ==> !matches_at(s, pat, j),
    ensures
        first_match(s, pat) == Some(i),
{
    lemma_first_match_from_props(s, pat, 0);
    match first_match_from(s, pat, 0) {
        Some(w) => {
            if w < i {
                assert(!matches_at(s, pat, w));
            }
            if w > i {
                assert(!matches_at(s, pat, i));
            }
        },
        None => {
            assert(!matches_at(s, pat, i));
        },
    }
}

/// Does `pat` occur anywhere in `s`?
pub fn contains_sub(s: &str, pat: &str) -> (r: bool)
    ensures
        r == contains_seq(s@, pat@),
{
    find_sub(s, pat).is_some()
}

/// Lexicographic order on code points; matches byte order on UTF-8 text.
pub open spec fn lex_le(a: Seq<char>, b: Seq<char>) -> bool
    decreases a.len(),
{
    if a.len() == 0 {
        true
    } else if b.len() == 0 {
        false
    } else if (a[0] as u32) < (b[0] as u32) {
        true
    } else if (a[0] as u32) > (b[0] as u32) {
        false
    } else {
        lex_le(a.drop_first(), b.drop_first())
    }
}

/// The order is total.
pub proof fn lemma_lex_le_total(a: Seq<char>, b: Seq<char>)
    ensures
        lex_le(a, b) || lex_le(b, a),
    decreases a.len(),
{
    if a.len() > 0 && b.len() > 0 && a[0] as u32 == b[0] as u32 {
        lemma_lex_le_total(a.drop_first(), b.drop_first());
    }
}

/// The order is transitive.
pub proof fn lemma_lex_le_trans(a: Seq<char>, b: Seq<char>, c: Seq<char>)
    requires
        lex_le(a, b),
        lex_le(b, c),
    ensures
        lex_le(a, c),
    decreases a.len(),
{
    if a.len() > 0 && b.len() > 0 && c.len() > 0 && a[0] as u32 == b[0] as u32
        && b[0] as u32 == c[0] as u32 {
        lemma_lex_le_trans(a.drop_first(), b.drop_first(), c.drop_first());
    }
}

/// Equal prefixes do not decide the order.
proof fn lemma_lex_le_skip(a: Seq<char>, b: Seq<char>, i: int)
    requires
        0 <= i <= a.len(),
        i <= b.len(),
        forall|j: int| 0 <= j < i ==> a[j] == b[j],
    ensures
        lex_le(a, b) == lex_le(a.skip(i), b.skip(i)),
    decreases i,
{
    if i > 0 {
        assert(a[0] == b[0]);
        if a.len() > 0 && b.len() > 0 {
            assert(forall|j: int| 0 <= j < i - 1
                ==> a.drop_first()[j] == a[j + 1] && b.drop_first()[j] == b[j + 1]);
            lemma_lex_le_skip(a.drop_first(), b.drop_first(), i - 1);
            assert(a.drop_first().skip(i - 1) =~= a.skip(i));
            assert(b.drop_first().skip(i - 1) =~= b.skip(i));
        }
    } else {
        assert(a.skip(0) =~= a);
        assert(b.skip(0) =~= b);
    }
}

/// Lexicographic comparison of two string slices.
pub fn str_le(a: &str, b: &str) -> (r: bool)
    ensures
        r == lex_le(a@, b@),
{
    let n = a.unicode_len();
    let m = b.unicode_len();
    let mut i: usize = 0;
    while i < n && i < m
        invariant
            n == a@.len(),
            m == b@.len(),
            i <= n,
            i <= m,
            forall|j: int| 0 <= j < i ==> a@[j] == b@[j],
        decreases n - i,
    {
        let ca = a.get_char(i) as u32;
        let cb = b.get_char(i) as u32;
        if ca < cb {
            proof {
                lemma_lex_le_skip(a@, b@, i as int);
                assert(a@.skip(i as int)[0] == a@[i as int]);
                assert(b@.skip(i as int)[0] == b@[i as int]);
            }
            return true;
        }
        if ca > cb {
            proof {
                lemma_lex_le_skip(a@, b@, i as int);
                assert(a@.skip(i as int)[0] == a@[i as int]);
                assert(b@.skip(i as int)[0] == b@[i as int]);
            }
            return false;
        }
        i = i + 1;
    }
    proof {
        lemma_lex_le_skip(a@, b@, i as int);
        if i < n {
            assert(a@.skip(i as int)[0] == a@[i as int]);
        }
    }
    n <= m
}

/// The extension of a file name: what follows the last dot, or the whole
/// name when it has no dot.
pub open spec fn ext_of(s: Seq<char>) -> Seq<char>
    decreases s.len(),
{
    if s.len() == 0 {
        s
    } else if s.last() == '.' {
        Seq::empty()
    } else {
        ext_of(s.drop_last()).push(s.last())
    }
}

/// ASCII-lowercased code point.
pub open spec fn lower_u(c: char) -> u32 {
    if 65 <= c as u32 <= 90 {
        (c as u32 + 32) as u32
    } else {
        c as u32
    }
}

/// ASCII-case-insensitive equality of `a` against a lowercase pattern `b`.
pub open spec fn lower_eq(a: Seq<char>, b: Seq<char>) -> bool {
    a.len() == b.len() && forall|i: int| 0 <= i < a.len() ==> lower_u(a[i]) == b[i] as u32
}

/// Character position where the extension of `s` starts.
pub fn ext_start(s: &str) -> (r: usize)
    ensures
        r <= s@.len(),
        ext_of(s@) == s@.subrange(r as int, s@.len() as int),
{
    let n = s.unicode_len();
    let mut j: usize = n;
    proof {
        assert(s@.take(n as int) =~= s@);
        assert(s@.skip(n as int) =~= Seq::<char>::empty());
        assert(ext_of(s@.take(j as int)) + s@.skip(j as int) =~= ext_of(s@));
    }
    while j > 0
        invariant
            n == s@.len(),
            j <= n,
            ext_of(s@) == ext_of(s@.take(j as int)) + s@.skip(j as int),
        decreases j,
    {
        if s.get_char(j - 1) == '.' {
            proof {
                assert(s@.take(j as int).last() == s@[j - 1]);
                assert(ext_of(s@.take(j as int)) =~= Seq::<char>::empty());
                assert(ext_of(s@) =~= s@.skip(j as int));
                assert(s@.skip(j as int) =~= s@.subrange(j as int, s@.len() as int));
            }
            return j;
        }
        proof {
            assert(s@.take(j as int).last() == s@[j - 1]);
            assert(s@.take(j as int).drop_last() =~= s@.take(j as int - 1));
            assert(ext_of(s@.take(j as int))
                == ext_of(s@.take(j as int - 1)).push(s@[j - 1]));
            assert(ext_of(s@.take(j as int - 1)).push(s@[j - 1]) + s@.skip(j as int)
                =~= ext_of(s@.take(j as int - 1)) + s@.skip(j as int - 1));
        }
        j = j - 1;
    }
    proof {
        assert(s@.take(0) =~= Seq::<char>::empty());
        assert(ext_of(s@) =~= s@.skip(0));
        assert(s@.skip(0) =~= s@.subrange(0, s@.len() as int));
    }
    0
}

/// Does the tail of `s` from `start`, lowercased, equal the lowercase
/// pattern?
pub fn tail_lower_eq(s: &str, start: usize, pat: &str) -> (r: bool)
    requires
        start <= s@.len(),
    ensures
        r == lower_eq(s@.subrange(start as int, s@.len() as int), pat@),
{
    let n = s.unicode_len();
    let m = pat.unicode_len();
    if n - start != m {
        return false;
    }
    let mut k: usize = 0;
    while k < m
        invariant
            n == s@.len(),
            m == pat@.len(),
            start + m == n,
            k <= m,
            forall|j: int| 0 <= j < k ==> lower_u(s@[start + j]) == pat@[j] as u32,
        decreases m - k,
    {
        let c = s.get_char(start + k) as u32;
        let lc: u32 = if 65 <= c && c <= 90 {
            c + 32
        } else {
            c
        };
        if lc != pat.get_char(k) as u32 {
            proof {
                assert(s@.subrange(start as int, s@.len() as int)[k as int] == s@[start + k]);
            }
            return false;
        }
        k = k + 1;
    }
    proof {
        assert(forall|j: int| 0 <= j < m
            ==> s@.subrange(start as int, s@.len() as int)[j] == s@[start + j]);
    }
    true
}

/// Does `s` start with `pat`?
pub fn starts_with_sub(s: &str, pat: &str) -> (r: bool)
    ensures
        r == matches_at(s@, pat@, 0),
{
    let n = s.unicode_len();
    let m = pat.unicode_len();
    if m > n {
        return false;
    }
    matches_here(s, pat, 0)
}

/// The dot-separated segments of a hostname.
pub open spec fn split_dots(s: Seq<char>) -> Seq<Seq<char>>
    decreases s.len(),
    via split_dots_dec
{
    match first_match(s, "."@) {
        Some(i) => seq![s.subrange(0, i)] + split_dots(s.skip(i + 1)),
        None => seq![s],
    }
}

#[via_fn]
proof fn split_dots_dec(s: Seq<char>) {
    lemma_first_match_from_props(s, "."@, 0);
    reveal_strlit(".");
    match first_match(s, "."@) {
        Some(i) => {
            assert(matches_at(s, "."@, i));
            assert("."@.len() == 1);
            assert(s.skip(i + 1).len() < s.len());
        },
        None => {},
    }
}

/// Cut a hostname at its dots.
pub fn split_segments(s: &str) -> (r: Vec<String>)
    ensures
        r@.len() == split_dots(s@).len(),
        forall|k: int| 0 <= k < r@.len() ==> r@[k]@ == split_dots(s@)[k],
{
    let mut out: Vec<String> = Vec::new();
    let mut rest = s;
    let ghost full = s@;
    proof {
        assert(Seq::<Seq<char>>::empty() + split_dots(s@) =~= split_dots(s@));
    }
    loop
        invariant
            split_dots(full) == out@.map(|k: int, v: String| v@) + split_dots(rest@),
        ensures
            split_dots(full) == out@.map(|k: int, v: String| v@) + split_dots(rest@),
            first_match(rest@, "."@) is None,
        decreases rest@.len(),
    {
        let n = rest.unicode_len();
        match find_sub(rest, ".") {
            Some(i) => {
                let head = rest.substring_char(0, i);
                proof {
                    assert(matches_at(rest@, "."@, i as int));
                    reveal_strlit(".");
                    assert("."@.len() == 1);
                    assert(head@ =~= rest@.subrange(0, i as int));
                }
                let ghost old_out = out@;
                let ghost old_rest = rest@;
                out.push(String::from_str(head));
                rest = rest.substring_char(i + 1, n);
                proof {
                    assert(rest@ =~= old_rest.skip(i + 1));
                    assert(split_dots(old_rest)
                        == seq![old_rest.subrange(0, i as int)] + split_dots(old_rest.skip(i + 1)));
                    assert(out@.map(|k: int, v: String| v@)
                        =~= old_out.map(|k: int, v: String| v@) + seq![head@]);
                    assert(out@.map(|k: int, v: String| v@) + split_dots(rest@)
                        =~= old_out.map(|k: int, v: String| v@) + split_dots(old_rest));
                }
            },
            None => {
                break;
            },
        }
    }
    proof {
        assert(split_dots(rest@) =~= seq![rest@]);
    }
    let ghost old_out = out@;
    out.push(String::from_str(rest));
    proof {
        assert(out@.map(|k: int, v: String| v@)
            =~= old_out.map(|k: int, v: String| v@) + seq![rest@]);
        assert(out@.map(|k: int, v: String| v@) =~= split_dots(full));
        assert forall|k: int| 0 <= k < out@.len()
            implies out@[k]@ == split_dots(full)[k] by {
            assert(out@.map(|k2: int, v: String| v@)[k] == out@[k]@);
        };
    }
    out
}

} // verus!
