//! Bucket model: listing and configuration record shapes, and the S3 bucket
//! naming rules.

use vstd::prelude::*;
use crate::errors::AppError;
use crate::text::{split_dots, split_segments};

verus! {

/// One bucket of an account.
pub struct Bucket {
    pub name: String,
    pub creation_date: Option<String>,
}

/// Versioning state of a bucket.
pub struct BucketVersioningConfig {
    /// "Enabled", "Suspended", or "Disabled" (never enabled)
    pub status: String,
    /// "Enabled" or "Disabled"
    pub mfa_delete: Option<String>,
}

/// One CORS rule.
pub struct CorsRuleConfig {
    pub allowed_headers: Vec<String>,
    pub allowed_methods: Vec<String>,
    pub allowed_origins: Vec<String>,
    pub expose_headers: Vec<String>,
    pub max_age_seconds: Option<i32>,
}

/// CORS configuration of a bucket.
pub struct BucketCorsConfig {
    pub rules: Vec<CorsRuleConfig>,
}

/// One lifecycle rule.
pub struct LifecycleRuleConfig {
    pub id: Option<String>,
    /// "Enabled" or "Disabled"
    pub status: String,
    pub prefix: Option<String>,
    pub expiration_days: Option<i32>,
    pub noncurrent_version_expiration_days: Option<i32>,
    pub abort_incomplete_multipart_upload_days: Option<i32>,
    pub transitions: Vec<LifecycleTransition>,
}

/// One lifecycle storage-class transition.
pub struct LifecycleTransition {
    pub days: Option<i32>,
    pub storage_class: Option<String>,
}

/// Lifecycle configuration of a bucket.
pub struct BucketLifecycleConfig {
    pub rules: Vec<LifecycleRuleConfig>,
}

/// Default-encryption configuration of a bucket.
pub struct BucketEncryptionConfig {
    /// "AES256" or "aws:kms"
    pub sse_algorithm: Option<String>,
    pub kms_master_key_id: Option<String>,
    pub bucket_key_enabled: Option<bool>,
}

/// Access-logging configuration of a bucket.
pub struct BucketLoggingConfig {
    pub enabled: bool,
    pub target_bucket: Option<String>,
    pub target_prefix: Option<String>,
}

/// Everything the configuration page shows at once.
pub struct BucketConfigSummary {
    pub versioning: BucketVersioningConfig,
    pub encryption: BucketEncryptionConfig,
    pub logging: BucketLoggingConfig,
}

/// A character S3 accepts in a bucket name.
pub open spec fn bucket_char_ok(c: char) -> bool {
    (97 <= c as u32 <= 122) || (48 <= c as u32 <= 57) || c == '-' || c == '.'
}

/// Every character is acceptable.
pub open spec fn bucket_chars_ok(s: Seq<char>) -> bool {
    forall|i: int| 0 <= i < s.len() ==> bucket_char_ok(#[trigger] s[i])
}

/// The name neither starts nor ends with a hyphen.
pub open spec fn bucket_hyphen_edges_ok(s: Seq<char>) -> bool {
    s.len() > 0 ==> s[0] != '-' && s.last() != '-'
}

/// The name neither starts nor ends with a period.
pub open spec fn bucket_period_edges_ok(s: Seq<char>) -> bool {
    s.len() > 0 ==> s[0] != '.' && s.last() != '.'
}

/// Numeric value of a digit string.
pub open spec fn numeral_val(s: Seq<char>) -> int
    decreases s.len(),
{
    if s.len() == 0 {
        0
    } else {
        numeral_val(s.drop_last()) * 10 + (s.last() as u32 - 48)
    }
}

/// All characters are ASCII digits.
pub open spec fn all_digits(s: Seq<char>) -> bool {
    forall|i: int| 0 <= i < s.len() ==> 48 <= (#[trigger] s[i]) as u32 <= 57
}

/// Would `u8::from_str` accept this (sign-free) segment?
pub open spec fn is_u8_numeral(s: Seq<char>) -> bool {
    s.len() > 0 && all_digits(s) && numeral_val(s) <= 255
}

/// The name is shaped like a dotted-quad IP address.
pub open spec fn bucket_ip_like(s: Seq<char>) -> bool {
    split_dots(s).len() == 4 && forall|k: int| 0 <= k < 4
        ==> is_u8_numeral(#[trigger] split_dots(s)[k])
}

/// A digit string's value only grows as it extends.
proof fn lemma_numeral_monotone(s: Seq<char>, i: int)
    requires
        0 <= i <= s.len(),
        all_digits(s),
    ensures
        numeral_val(s) >= numeral_val(s.take(i)),
        numeral_val(s) >= 0,
    decreases s.len() - i,
{
    if i == s.len() {
        assert(s.take(i) =~= s);
        lemma_numeral_nonneg(s);
    } else {
        lemma_numeral_monotone(s, i + 1);
        assert(s.take(i + 1).drop_last() =~= s.take(i));
        assert(s.take(i + 1).last() == s[i]);
        lemma_numeral_nonneg(s.take(i));
    }
}

/// A digit string's value is not negative.
proof fn lemma_numeral_nonneg(s: Seq<char>)
    requires
        all_digits(s),
    ensures
        numeral_val(s) >= 0,
    decreases s.len(),
{
    if s.len() > 0 {
        assert(all_digits(s.drop_last())) by {
            assert(forall|i: int| 0 <= i < s.drop_last().len() ==> s.drop_last()[i] == s[i]);
        };
        lemma_numeral_nonneg(s.drop_last());
    }
}

/// Does `u8::from_str` accept this segment (no sign, digits only, at most
/// 255)?
fn u8_numeral(p: &str) -> (r: bool)
    ensures
        r == is_u8_numeral(p@),
{
    let n = p.unicode_len();
    if n == 0 {
        return false;
    }
    let mut val: u32 = 0;
    let mut i: usize = 0;
    while i < n
        invariant
            n == p@.len(),
            i <= n,
            all_digits(p@.take(i as int)),
            val == 256 || (val <= 255 && val == numeral_val(p@.take(i as int))),
            val == 256 ==> numeral_val(p@.take(i as int)) > 255,
        decreases n - i,
    {
        let c = p.get_char(i) as u32;
        if !(48 <= c && c <= 57) {
            proof {
                assert(p@[i as int] as u32 == c);
                assert(!all_digits(p@));
            }
            return false;
        }
        proof {
            assert(p@.take(i as int + 1).drop_last() =~= p@.take(i as int));
            assert(p@.take(i as int + 1).last() == p@[i as int]);
            assert(all_digits(p@.take(i as int + 1))) by {
                assert(forall|j: int| 0 <= j < i ==> p@.take(i as int + 1)[j] == p@.take(i as int)[j]);
                assert(p@.take(i as int + 1)[i as int] == p@[i as int]);
            };
        }
        if val <= 255 {
            let next = val * 10 + (c - 48);
            if next > 255 {
                val = 256;
            } else {
                val = next;
            }
        } else {
            proof {
                lemma_numeral_nonneg(p@.take(i as int));
            }
        }
        i = i + 1;
    }
    proof {
        assert(p@.take(n as int) =~= p@);
        if val == 256 {
            assert(!is_u8_numeral(p@));
        }
    }
    val <= 255
}

/// Hold a name to the S3 bucket naming rules: 3-63 characters, lowercase
/// letters, digits, hyphens and periods only, no hyphen or period at either
/// end, and not shaped like an IP address. Succeeds exactly on acceptable
/// names, and reports the first broken rule.
pub fn validate_bucket_name(name: &str) -> (r: Result<(), AppError>)
    ensures
        r is Ok <==> 3 <= name@.len() <= 63 && bucket_chars_ok(name@)
            && bucket_hyphen_edges_ok(name@) && bucket_period_edges_ok(name@)
            && !bucket_ip_like(name@),
        r matches Err(e) ==> e matches AppError::InvalidInput(_),
{
    let n = name.unicode_len();
    if n < 3 || n > 63 {
        return Err(AppError::InvalidInput(String::from_str(
            "Bucket name must be 3-63 characters",
        )));
    }
    let mut i: usize = 0;
    while i < n
        invariant
            n == name@.len(),
            i <= n,
            forall|j: int| 0 <= j < i ==> bucket_char_ok(#[trigger] name@[j]),
        decreases n - i,
    {
        let c = name.get_char(i);
        let u = c as u32;
        if !((97 <= u && u <= 122) || (48 <= u && u <= 57) || c == '-' || c == '.') {
            return Err(AppError::InvalidInput(String::from_str(
                "Bucket name can only contain lowercase letters, numbers, hyphens, and periods",
            )));
        }
        i = i + 1;
    }
    if name.get_char(0) == '-' || name.get_char(n - 1) == '-' {
        return Err(AppError::InvalidInput(String::from_str(
            "Bucket name cannot start or end with a hyphen",
        )));
    }
    if name.get_char(0) == '.' || name.get_char(n - 1) == '.' {
        return Err(AppError::InvalidInput(String::from_str(
            "Bucket name cannot start or end with a period",
        )));
    }
    let parts = split_segments(name);
    if parts.len() == 4 {
        let mut all_numeric = true;
        let mut k: usize = 0;
        while k < 4
            invariant
                parts@.len() == 4,
                parts@.len() == split_dots(name@).len(),
                forall|j: int| 0 <= j < 4 ==> parts@[j]@ == split_dots(name@)[j],
                k <= 4,
                all_numeric == forall|j: int| 0 <= j < k
                    ==> is_u8_numeral(#[trigger] split_dots(name@)[j]),
            decreases 4 - k,
        {
            let ghost before = all_numeric;
            let ok = u8_numeral(parts[k].as_str());
            proof {
                assert(parts@[k as int]@ == split_dots(name@)[k as int]);
                assert(ok == is_u8_numeral(split_dots(name@)[k as int]));
            }
            if !ok {
                all_numeric = false;
            }
            proof {
                if before && ok {
                    assert forall|j: int| 0 <= j < k + 1
                        implies is_u8_numeral(#[trigger] split_dots(name@)[j]) by {
                        if j < k {
                            assert(is_u8_numeral(split_dots(name@)[j]));
                        }
                    };
                }
                if !before {
                    let w = choose|w: int| 0 <= w < k && !is_u8_numeral(#[trigger] split_dots(name@)[w]);
                    assert(!is_u8_numeral(split_dots(name@)[w]));
                }
            }
            k = k + 1;
        }
        if all_numeric {
            return Err(AppError::InvalidInput(String::from_str(
                "Bucket name cannot be formatted as an IP address",
            )));
        }
    }
    Ok(())
}

} // verus!
