//! Object-browser model: listing records, object metadata, and the transfer
//! progress events the host emits.

use vstd::prelude::*;

verus! {

/// One listed object or folder marker.
pub struct S3Object {
    pub key: String,
    pub size: i64,
    pub last_modified: Option<String>,
    pub etag: Option<String>,
    pub is_folder: bool,
}

/// One page of an object listing.
pub struct ListObjectsResponse {
    pub objects: Vec<S3Object>,
    pub folders: Vec<String>,
    pub continuation_token: Option<String>,
    pub is_truncated: bool,
    pub prefix: Option<String>,
}

/// Full metadata of one object.
pub struct ObjectMetadata {
    pub key: String,
    pub size: i64,
    pub content_type: Option<String>,
    pub last_modified: Option<String>,
    pub etag: Option<String>,
    pub storage_class: Option<String>,
    pub content_encoding: Option<String>,
    pub cache_control: Option<String>,
    pub version_id: Option<String>,
}

/// An upload began.
pub struct UploadStarted {
    pub upload_id: String,
    pub file_name: String,
    pub total_bytes: u64,
}

/// Upload progress.
pub struct UploadProgress {
    pub upload_id: String,
    pub bytes_uploaded: u64,
    pub total_bytes: u64,
}

/// An upload finished.
pub struct UploadCompleted {
    pub upload_id: String,
    pub key: String,
    pub etag: Option<String>,
}

/// An upload failed.
pub struct UploadFailed {
    pub upload_id: String,
    pub error: String,
}

/// Outcome of a bulk deletion.
pub struct DeleteResult {
    pub deleted: usize,
    pub errors: Vec<DeleteError>,
}

/// One failed deletion in a bulk deletion.
pub struct DeleteError {
    pub key: String,
    pub error: String,
}

/// A download began.
pub struct DownloadStarted {
    pub download_id: String,
    pub file_name: String,
    pub total_bytes: u64,
}

/// Download progress.
pub struct DownloadProgress {
    pub download_id: String,
    pub bytes_downloaded: u64,
    pub total_bytes: u64,
}

/// A download finished.
pub struct DownloadCompleted {
    pub download_id: String,
    pub key: String,
    pub path: String,
}

/// A download failed.
pub struct DownloadFailed {
    pub download_id: String,
    pub error: String,
}

/// A presigned URL and when it stops working.
pub struct PresignedUrlResult {
    pub url: String,
    pub expires_at: String,
}

/// Outcome of renaming an object or folder.
pub struct RenameResult {
    pub old_key: String,
    pub new_key: String,
    pub objects_renamed: usize,
}

/// Outcome of a bulk copy or move.
pub struct CopyMoveResult {
    pub objects_copied: usize,
    pub objects_deleted: usize,
    pub errors: Vec<CopyMoveError>,
}

/// One failed copy in a bulk copy or move.
pub struct CopyMoveError {
    pub source_key: String,
    pub error: String,
}

/// Progress of a whole-folder download.
pub struct FolderDownloadProgress {
    pub download_id: String,
    pub files_processed: usize,
    pub total_files: usize,
    pub bytes_downloaded: u64,
}

} // verus!
