//! The supporting helpers: tokens and parsing, string utilities, naming
//! rules, content types, analytics helpers, and redirect-error reading.

use bucketsync::analytics::{LargeFile, TopNTracker, categorize_by_extension, extract_top_folder};
use bucketsync::buckets::validate_bucket_name;
use bucketsync::content_type::{
    get_content_type_from_extension, is_image_content_type, is_pdf_content_type,
    is_text_content_type,
};
use bucketsync::history::{ExportFormat, OperationStatus, OperationType, escape_csv};
use bucketsync::provider::{ProviderType, R2LocationHint};
use bucketsync::s3meta::{extract_region_from_redirect_error, is_redirect_error};
use bucketsync::scan::{RemoteEntry, add_remote_entry, strip_quotes};
use bucketsync::sync_types::{SyncDirection, SyncPairStatus, SyncSessionStatus};
use bucketsync::errors::AppError;
use bucketsync::text::{contains_sub, find_sub, str_eq};

#[test]
fn direction_tokens_round_trip() {
    assert_eq!(SyncDirection::UploadOnly.as_str(), "upload_only");
    assert_eq!(SyncDirection::DownloadOnly.as_str(), "download_only");
    assert_eq!(SyncDirection::parse("upload_only").unwrap(), SyncDirection::UploadOnly);
    assert_eq!(SyncDirection::parse("download_only").unwrap(), SyncDirection::DownloadOnly);
    let e = SyncDirection::parse("sideways").unwrap_err();
    assert_eq!(e.message(), "Invalid input: Unknown sync direction: sideways");
}

#[test]
fn status_tokens_round_trip() {
    assert_eq!(SyncPairStatus::parse("idle").unwrap(), SyncPairStatus::Idle);
    assert_eq!(SyncPairStatus::parse("syncing").unwrap(), SyncPairStatus::Syncing);
    assert_eq!(SyncPairStatus::parse("error").unwrap(), SyncPairStatus::Error);
    // Legacy token read as Error.
    assert_eq!(SyncPairStatus::parse("has_conflicts").unwrap(), SyncPairStatus::Error);
    assert!(SyncPairStatus::parse("???").is_err());

    assert_eq!(SyncSessionStatus::parse("running").unwrap(), SyncSessionStatus::Running);
    assert_eq!(SyncSessionStatus::parse("completed").unwrap(), SyncSessionStatus::Completed);
    assert_eq!(SyncSessionStatus::parse("failed").unwrap(), SyncSessionStatus::Failed);
    assert_eq!(SyncSessionStatus::parse("cancelled").unwrap(), SyncSessionStatus::Cancelled);
    // Legacy token read as Completed.
    assert_eq!(
        SyncSessionStatus::parse("waiting_for_conflicts").unwrap(),
        SyncSessionStatus::Completed
    );
    assert_eq!(SyncPairStatus::Idle.as_str(), "idle");
    assert_eq!(SyncSessionStatus::Cancelled.as_str(), "cancelled");
}

#[test]
fn operation_tokens() {
    assert_eq!(OperationType::Upload.as_str(), "upload");
    assert_eq!(OperationType::CreateFolder.as_str(), "create_folder");
    assert_eq!(OperationStatus::InProgress.as_str(), "in_progress");
    assert_eq!(ExportFormat::parse("csv").unwrap(), ExportFormat::Csv);
    assert_eq!(ExportFormat::parse("json").unwrap(), ExportFormat::Json);
    assert!(ExportFormat::parse("xml").is_err());
}

#[test]
fn provider_conventions() {
    assert!(ProviderType::CloudflareR2.force_path_style());
    assert!(!ProviderType::AwsS3.force_path_style());
    assert_eq!(ProviderType::CloudflareR2.default_region(), "auto");
    assert_eq!(ProviderType::AwsS3.default_region(), "us-east-1");
    assert_eq!(ProviderType::CloudflareR2.display_name(), "Cloudflare R2");
    assert_eq!(ProviderType::AwsS3.display_name(), "Amazon S3");
    assert_eq!(ProviderType::default(), ProviderType::CloudflareR2);
    assert_eq!(R2LocationHint::Weur.as_str(), "weur");
    assert_eq!(R2LocationHint::Apac.display_name(), "Asia-Pacific");
}

#[test]
fn string_search() {
    assert!(str_eq("abc", "abc"));
    assert!(!str_eq("abc", "abd"));
    assert_eq!(find_sub("hello world", "world"), Some(6));
    assert_eq!(find_sub("hello", "xyz"), None);
    assert_eq!(find_sub("aaa", "aa"), Some(0));
    assert!(contains_sub("finding a needle here", "needle"));
    assert!(!contains_sub("nothing", "needle"));
}

#[test]
fn csv_escaping() {
    assert_eq!(escape_csv("plain"), "plain");
    assert_eq!(escape_csv("with,comma"), "\"with,comma\"");
    assert_eq!(escape_csv("say \"hi\""), "\"say \"\"hi\"\"\"");
    assert_eq!(escape_csv("line\nbreak"), "\"line\nbreak\"");
    assert_eq!(escape_csv(""), "");
}

#[test]
fn bucket_names() {
    assert!(validate_bucket_name("my-bucket.backup1").is_ok());
    assert!(validate_bucket_name("ab").is_err()); // too short
    assert!(validate_bucket_name("Upper-Case").is_err()); // uppercase
    assert!(validate_bucket_name("has_underscore").is_err());
    assert!(validate_bucket_name("-leading").is_err());
    assert!(validate_bucket_name("trailing-").is_err());
    assert!(validate_bucket_name(".leading").is_err());
    assert!(validate_bucket_name("trailing.").is_err());
    assert!(validate_bucket_name("192.168.10.255").is_err()); // IP-shaped
    assert!(validate_bucket_name("192.168.10.256").is_ok()); // 256 is no octet
    assert!(validate_bucket_name("192.168.10").is_ok()); // three segments only
}

#[test]
fn content_types() {
    assert_eq!(get_content_type_from_extension("photo.JPG"), Some("image/jpeg"));
    assert_eq!(get_content_type_from_extension("notes.md"), Some("text/markdown"));
    assert_eq!(get_content_type_from_extension("data.json"), Some("application/json"));
    assert_eq!(get_content_type_from_extension("paper.pdf"), Some("application/pdf"));
    assert_eq!(get_content_type_from_extension("archive.zip"), None);
    assert_eq!(get_content_type_from_extension("noextension"), None);

    assert!(is_pdf_content_type("application/pdf"));
    assert!(!is_pdf_content_type("application/json"));
    assert!(is_text_content_type("text/plain"));
    assert!(is_text_content_type("application/yaml"));
    assert!(!is_text_content_type("image/png"));
    assert!(is_image_content_type("image/webp"));
    assert!(!is_image_content_type("text/html"));
}

#[test]
fn extension_categories() {
    assert_eq!(categorize_by_extension("a/b/photo.PNG"), "Images");
    assert_eq!(categorize_by_extension("report.docx"), "Documents");
    assert_eq!(categorize_by_extension("clip.mp4"), "Video");
    assert_eq!(categorize_by_extension("song.flac"), "Audio");
    assert_eq!(categorize_by_extension("bundle.tar"), "Archives");
    assert_eq!(categorize_by_extension("main.rs"), "Code");
    assert_eq!(categorize_by_extension("conf.yaml"), "Data");
    assert_eq!(categorize_by_extension("page.html"), "Web");
    assert_eq!(categorize_by_extension("unknown.bin"), "Other");
    assert_eq!(categorize_by_extension("no-extension"), "Other");
}

#[test]
fn top_folder_extraction() {
    assert_eq!(extract_top_folder("docs/readme.md", None), Some("docs/".to_string()));
    assert_eq!(
        extract_top_folder("base/docs/readme.md", Some("base/")),
        Some("base/docs/".to_string())
    );
    assert_eq!(extract_top_folder("file-at-root.txt", None), None);
    assert_eq!(extract_top_folder("/leads-with-slash", None), None);
}

#[test]
fn top_n_tracker_keeps_largest() {
    let mut t = TopNTracker::new(2);
    for (key, size) in [("a", 10i64), ("b", 30), ("c", 20), ("d", 5)] {
        t.add(LargeFile {
            key: key.to_string(),
            size,
            last_modified: None,
            storage_class: None,
        });
    }
    let v = t.into_vec();
    assert_eq!(v.len(), 2);
    assert_eq!(v[0].key, "b");
    assert_eq!(v[0].size, 30);
    assert_eq!(v[1].key, "c");
    assert_eq!(v[1].size, 20);
}

#[test]
fn redirect_errors() {
    assert!(is_redirect_error("... PermanentRedirect ..."));
    assert!(is_redirect_error("status 301 with x-amz-bucket-region set"));
    assert!(!is_redirect_error("status 301 alone"));
    assert!(!is_redirect_error("NoSuchKey"));

    let header_dump =
        "\"x-amz-bucket-region\": HeaderValue { _private: H1(\"eu-north-1\") }";
    assert_eq!(
        extract_region_from_redirect_error(header_dump),
        Some("eu-north-1".to_string())
    );
    let xml = "<Error><Endpoint>bucket.s3.ap-south-1.amazonaws.com</Endpoint></Error>";
    assert_eq!(extract_region_from_redirect_error(xml), Some("ap-south-1".to_string()));
    assert_eq!(extract_region_from_redirect_error("nothing to see"), None);
}

#[test]
fn remote_scan_relativises_keys() {
    let mut map = Vec::new();
    add_remote_entry(&mut map, "backup", RemoteEntry {
        key: "backup/docs/readme.md".to_string(),
        size: Some(100),
        last_modified_ms: Some(5_000),
        etag: Some("\"abc123\"".to_string()),
    });
    // Folder markers are excluded.
    add_remote_entry(&mut map, "backup", RemoteEntry {
        key: "backup/docs/".to_string(),
        size: Some(0),
        last_modified_ms: None,
        etag: None,
    });
    assert_eq!(map.len(), 1);
    assert_eq!(map[0].relative_path, "docs/readme.md");
    assert_eq!(map[0].size, Some(100));
    assert_eq!(map[0].hash.as_deref(), Some("abc123"));

    // With no prefix the key itself is the relative path.
    let mut map2 = Vec::new();
    add_remote_entry(&mut map2, "", RemoteEntry {
        key: "top.txt".to_string(),
        size: Some(1),
        last_modified_ms: None,
        etag: None,
    });
    assert_eq!(map2[0].relative_path, "top.txt");

    assert_eq!(strip_quotes("\"\"quoted\"\""), "quoted");
    assert_eq!(strip_quotes("bare"), "bare");
}

#[test]
fn error_messages_render() {
    assert_eq!(AppError::S3("boom".to_string()).message(), "S3 error: boom");
    assert_eq!(AppError::Storage("disk".to_string()).message(), "Storage error: disk");
    assert_eq!(AppError::InvalidInput("x".to_string()).message(), "Invalid input: x");
}
