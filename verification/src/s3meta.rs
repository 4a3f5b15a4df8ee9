//! Reading the bucket region out of a provider's permanent-redirect error
//! text: first from the `x-amz-bucket-region` header dump, then from the
//! `<Endpoint>` element of the error XML.

use vstd::prelude::*;
use crate::text::{contains_seq, contains_sub, find_sub, first_match, matches_at, split_dots, split_segments, str_eq};

verus! {

/// Is this error a PermanentRedirect (wrong region)?
pub fn is_redirect_error(error_str: &str) -> (r: bool)
    ensures
        r == (contains_seq(error_str@, "PermanentRedirect"@) || (contains_seq(error_str@, "301"@)
            && contains_seq(error_str@, "x-amz-bucket-region"@))),
{
    contains_sub(error_str, "PermanentRedirect")
        || (contains_sub(error_str, "301") && contains_sub(error_str, "x-amz-bucket-region"))
}

/// The region the header dump names: the text between `H1("` and `")` after
/// the first `x-amz-bucket-region`.
pub open spec fn header_region(s: Seq<char>) -> Option<Seq<char>> {
    match first_match(s, "x-amz-bucket-region"@) {
        Some(st) => match first_match(s.skip(st), "H1(\""@) {
            Some(rs) => {
                let begin = st + rs + 4;
                match first_match(s.skip(begin), "\")"@) {
                    Some(re) => Some(s.subrange(begin, begin + re)),
                    None => None,
                }
            },
            None => None,
        },
        None => None,
    }
}

/// The text of the first `<Endpoint>...</Endpoint>` element.
pub open spec fn endpoint_text(s: Seq<char>) -> Option<Seq<char>> {
    match first_match(s, "<Endpoint>"@) {
        Some(st) => {
            let es = st + 10;
            match first_match(s.skip(es), "</Endpoint>"@) {
                Some(en) => Some(s.subrange(es, es + en)),
                None => None,
            }
        },
        None => None,
    }
}

/// The first `{region}` in a `s3.{region}.amazonaws` segment run, scanning
/// from segment `i`.
pub open spec fn region_from_parts(parts: Seq<Seq<char>>, i: int) -> Option<Seq<char>>
    decreases parts.len() - i,
{
    if i < 0 || i >= parts.len() {
        None
    } else if parts[i] == "s3"@ && i + 2 < parts.len() && parts[i + 2] == "amazonaws"@ {
        Some(parts[i + 1])
    } else {
        region_from_parts(parts, i + 1)
    }
}

/// What `extract_region_from_redirect_error` returns: the header's region if
/// the header dump parses, else the region read from the endpoint hostname.
pub open spec fn extracted_region(s: Seq<char>) -> Option<Seq<char>> {
    match header_region(s) {
        Some(r) => Some(r),
        None => match endpoint_text(s) {
            Some(e) => region_from_parts(split_dots(e), 0),
            None => None,
        },
    }
}

/// Extract the bucket region from a PermanentRedirect error text. The region
/// is typically in the `x-amz-bucket-region` header or in the error XML's
/// `<Endpoint>` hostname (`bucket.s3.{region}.amazonaws.com`).
pub fn extract_region_from_redirect_error(error_str: &str) -> (r: Option<String>)
    ensures
        match r {
            Some(v) => extracted_region(error_str@) == Some(v@),
            None => extracted_region(error_str@) is None,
        },
{
    let n = error_str.unicode_len();
    // Header dump: x-amz-bucket-region": HeaderValue { _private: H1("eu-north-1") }
    if let Some(start) = find_sub(error_str, "x-amz-bucket-region") {
        let tail = error_str.substring_char(start, n);
        proof {
            assert(tail@ =~= error_str@.skip(start as int));
        }
        if let Some(region_start) = find_sub(tail, "H1(\"") {
            proof {
                let w = choose|w: int| matches_at(tail@, "H1(\""@, w)
                    && forall|j: int| 0 <= j < w ==> !matches_at(tail@, "H1(\""@, j);
                assert(region_start + 4 <= tail@.len()) by {
                    assert(matches_at(tail@, "H1(\""@, region_start as int));
                    reveal_strlit("H1(\"");
                    assert("H1(\""@.len() == 4);
                };
            }
            let region_begin = start + region_start + 4;
            let tail2 = error_str.substring_char(region_begin, n);
            proof {
                assert(tail2@ =~= error_str@.skip(region_begin as int));
            }
            if let Some(region_end) = find_sub(tail2, "\")") {
                proof {
                    assert(matches_at(tail2@, "\")"@, region_end as int));
                }
                let region = error_str.substring_char(region_begin, region_begin + region_end);
                return Some(String::from_str(region));
            }
        }
    }
    // Error XML: <Endpoint>bucket-name.s3.eu-north-1.amazonaws.com</Endpoint>
    if let Some(start) = find_sub(error_str, "<Endpoint>") {
        proof {
            assert(matches_at(error_str@, "<Endpoint>"@, start as int));
            reveal_strlit("<Endpoint>");
            assert("<Endpoint>"@.len() == 10);
        }
        let endpoint_start = start + 10;
        let tail = error_str.substring_char(endpoint_start, n);
        proof {
            assert(tail@ =~= error_str@.skip(endpoint_start as int));
        }
        if let Some(end) = find_sub(tail, "</Endpoint>") {
            let endpoint = error_str.substring_char(endpoint_start, endpoint_start + end);
            proof {
                assert(matches_at(tail@, "</Endpoint>"@, end as int));
                assert(endpoint@ =~= tail@.subrange(0, end as int));
                assert(endpoint@ =~= endpoint_text(error_str@).unwrap());
            }
            let parts = split_segments(endpoint);
            let ghost gparts = split_dots(endpoint@);
            let m = parts.len();
            let mut i: usize = 0;
            while i < m
                invariant
                    m == gparts.len(),
                    m == parts@.len(),
                    i <= m,
                    header_region(error_str@) is None,
                    endpoint_text(error_str@) matches Some(e) && gparts == split_dots(e),
                    forall|k: int| 0 <= k < m ==> parts@[k]@ == gparts[k],
                    region_from_parts(gparts, 0) == region_from_parts(gparts, i as int),
                decreases m - i,
            {
                if str_eq(parts[i].as_str(), "s3") && m - i > 2
                    && str_eq(parts[i + 2].as_str(), "amazonaws") {
                    proof {
                        assert(region_from_parts(gparts, i as int) == Some(gparts[i as int + 1]));
                    }
                    return Some(parts[i + 1].clone());
                }
                i = i + 1;
            }
        }
    }
    None
}

} // verus!
