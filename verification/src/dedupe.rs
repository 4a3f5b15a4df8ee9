//! Duplicate-analysis model: scan records, duplicate groups and files, and
//! the events a running scan emits.

use vstd::prelude::*;
use crate::errors::AppError;
use crate::text::str_eq;

verus! {

/// How file contents were identified for duplicate detection.
#[derive(Clone, Copy, PartialEq, Eq, Structural, Debug)]
pub enum HashType {
    /// Fast mode: uses ETag (typically MD5 for single-part uploads)
    Etag,
    /// Accurate mode: uses SHA-256 hash of file content
    Sha256,
}

impl HashType {
    /// Canonical storage token for the mode.
    pub fn as_str(&self) -> (r: &'static str)
        ensures
            *self == HashType::Etag ==> r@ == "etag"@,
            *self == HashType::Sha256 ==> r@ == "sha256"@,
    {
        match self {
            HashType::Etag => "etag",
            HashType::Sha256 => "sha256",
        }
    }

    /// Inverse of `as_str`; any other token is rejected.
    pub fn parse(value: &str) -> (r: Result<HashType, AppError>)
        ensures
            value@ == "etag"@ ==> r == Ok::<HashType, AppError>(HashType::Etag),
            value@ == "sha256"@ ==> r == Ok::<HashType, AppError>(HashType::Sha256),
            value@ != "etag"@ && value@ != "sha256"@ ==> (r matches Err(e)
                && e matches AppError::InvalidInput(m) && m@ == "Unknown hash type: "@ + value@),
    {
        proof {
            reveal_strlit("etag");
            reveal_strlit("sha256");
            reveal_strlit("Unknown hash type: ");
            assert("etag"@.len() == 4);
            assert("sha256"@.len() == 6);
            assert("etag"@ != "sha256"@);
        }
        if str_eq(value, "etag") {
            Ok(HashType::Etag)
        } else if str_eq(value, "sha256") {
            Ok(HashType::Sha256)
        } else {
            let mut m = String::from_str("Unknown hash type: ");
            m.append(value);
            Err(AppError::InvalidInput(m))
        }
    }
}

/// Status of a duplicate scan.
#[derive(Clone, Copy, PartialEq, Eq, Structural, Debug)]
pub enum ScanStatus {
    Running,
    Completed,
    Failed,
    Cancelled,
}

impl ScanStatus {
    /// Canonical storage token for the status.
    pub fn as_str(&self) -> (r: &'static str)
        ensures
            *self == ScanStatus::Running ==> r@ == "running"@,
            *self == ScanStatus::Completed ==> r@ == "completed"@,
            *self == ScanStatus::Failed ==> r@ == "failed"@,
            *self == ScanStatus::Cancelled ==> r@ == "cancelled"@,
    {
        match self {
            ScanStatus::Running => "running",
            ScanStatus::Completed => "completed",
            ScanStatus::Failed => "failed",
            ScanStatus::Cancelled => "cancelled",
        }
    }
}

/// One duplicate-analysis scan of a bucket prefix.
pub struct DuplicateScan {
    pub id: i64,
    pub account_id: String,
    pub bucket: String,
    pub prefix: String,
    pub started_at: i64,
    pub completed_at: Option<i64>,
    pub status: ScanStatus,
    pub total_files: i64,
    pub total_size: i64,
    pub duplicate_groups: i64,
    pub duplicate_files: i64,
    pub reclaimable_bytes: i64,
    pub error_message: Option<String>,
}

/// A set of objects sharing one content hash.
pub struct DuplicateGroup {
    pub id: i64,
    pub scan_id: i64,
    pub content_hash: String,
    pub hash_type: HashType,
    pub file_size: i64,
    pub file_count: i64,
    pub files: Vec<DuplicateFile>,
}

/// One object of a duplicate group.
pub struct DuplicateFile {
    pub id: i64,
    pub group_id: i64,
    pub key: String,
    pub etag: Option<String>,
    pub last_modified: Option<i64>,
    pub storage_class: Option<String>,
}

/// Compact listing record of one scan.
pub struct ScanSummary {
    pub id: i64,
    pub account_id: String,
    pub bucket: String,
    pub prefix: String,
    pub started_at: i64,
    pub status: ScanStatus,
    pub total_files: i64,
    pub duplicate_groups: i64,
    pub reclaimable_bytes: i64,
}

/// Input for starting a scan.
pub struct NewScan {
    pub account_id: String,
    pub bucket: String,
    pub prefix: String,
}

/// One object as a scan observed it.
pub struct ScannedFile {
    pub key: String,
    pub size: i64,
    pub etag: Option<String>,
    pub last_modified: Option<i64>,
    pub storage_class: Option<String>,
    pub content_hash: Option<String>,
}

/// Progress event of a running scan.
pub struct ScanProgressEvent {
    pub scan_id: i64,
    pub phase: String,
    pub files_scanned: i64,
    pub total_files: i64,
    pub current_file: Option<String>,
    pub bytes_processed: i64,
}

/// Completion event of a scan.
pub struct ScanCompleteEvent {
    pub scan_id: i64,
    pub duplicate_groups: i64,
    pub duplicate_files: i64,
    pub reclaimable_bytes: i64,
}

/// Error event of a scan.
pub struct ScanErrorEvent {
    pub scan_id: i64,
    pub error: String,
}

/// Outcome of deleting selected duplicates.
pub struct DeleteDuplicatesResult {
    pub deleted_count: usize,
    pub freed_bytes: i64,
    pub errors: Vec<DeleteDuplicateError>,
}

/// One failed deletion among selected duplicates.
pub struct DeleteDuplicateError {
    pub key: String,
    pub error: String,
}

} // verus!
