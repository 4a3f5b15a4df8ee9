//! Bucket analytics model: per-folder, per-content-type and per-storage-class
//! aggregation records, extension categorisation, and the tracker that keeps
//! the N largest objects seen.

use vstd::prelude::*;
use crate::text::{ext_of, ext_start, first_match, lower_eq, matches_at, find_sub, starts_with_sub, tail_lower_eq};

verus! {

/// Analytics progress event for the host to emit.
pub struct AnalyticsProgress {
    pub objects_processed: usize,
    pub current_prefix: String,
}

/// Aggregated statistics for one folder prefix.
pub struct FolderStats {
    pub prefix: String,
    pub name: String,
    pub size: i64,
    pub object_count: usize,
}

/// Aggregated statistics for one content-type category.
pub struct ContentTypeStats {
    pub content_type: String,
    pub size: i64,
    pub object_count: usize,
}

/// Aggregated statistics for one storage class.
pub struct StorageClassStats {
    pub storage_class: String,
    pub size: i64,
    pub object_count: usize,
}

/// One of the largest objects of a bucket.
pub struct LargeFile {
    pub key: String,
    pub size: i64,
    pub last_modified: Option<String>,
    pub storage_class: Option<String>,
}

/// Complete bucket analytics response.
pub struct BucketAnalytics {
    pub total_size: i64,
    pub total_objects: usize,
    pub folders: Vec<FolderStats>,
    pub by_content_type: Vec<ContentTypeStats>,
    pub by_storage_class: Vec<StorageClassStats>,
    pub largest_files: Vec<LargeFile>,
    pub calculated_at: String,
}

/// Is the key's extension, ASCII-lowercased, this pattern?
pub open spec fn ext_is(key: Seq<char>, pat: Seq<char>) -> bool {
    lower_eq(ext_of(key), pat)
}

/// The content-type category a key's extension falls in.
pub open spec fn category_of(key: Seq<char>) -> Seq<char> {
    if ext_is(key, "jpg"@) || ext_is(key, "jpeg"@) || ext_is(key, "png"@) || ext_is(key, "gif"@)
        || ext_is(key, "webp"@) || ext_is(key, "svg"@) || ext_is(key, "ico"@)
        || ext_is(key, "bmp"@) || ext_is(key, "tiff"@) || ext_is(key, "heic"@) {
        "Images"@
    } else if ext_is(key, "pdf"@) || ext_is(key, "doc"@) || ext_is(key, "docx"@)
        || ext_is(key, "xls"@) || ext_is(key, "xlsx"@) || ext_is(key, "ppt"@)
        || ext_is(key, "pptx"@) || ext_is(key, "txt"@) || ext_is(key, "md"@)
        || ext_is(key, "rtf"@) || ext_is(key, "odt"@) {
        "Documents"@
    } else if ext_is(key, "mp4"@) || ext_is(key, "avi"@) || ext_is(key, "mov"@)
        || ext_is(key, "mkv"@) || ext_is(key, "webm"@) || ext_is(key, "flv"@)
        || ext_is(key, "wmv"@) || ext_is(key, "m4v"@) {
        "Video"@
    } else if ext_is(key, "mp3"@) || ext_is(key, "wav"@) || ext_is(key, "flac"@)
        || ext_is(key, "aac"@) || ext_is(key, "ogg"@) || ext_is(key, "m4a"@)
        || ext_is(key, "wma"@) {
        "Audio"@
    } else if ext_is(key, "zip"@) || ext_is(key, "tar"@) || ext_is(key, "gz"@)
        || ext_is(key, "rar"@) || ext_is(key, "7z"@) || ext_is(key, "bz2"@)
        || ext_is(key, "xz"@) || ext_is(key, "tgz"@) {
        "Archives"@
    } else if ext_is(key, "js"@) || ext_is(key, "ts"@) || ext_is(key, "jsx"@)
        || ext_is(key, "tsx"@) || ext_is(key, "py"@) || ext_is(key, "rs"@) || ext_is(key, "go"@)
        || ext_is(key, "java"@) || ext_is(key, "c"@) || ext_is(key, "cpp"@) || ext_is(key, "h"@)
        || ext_is(key, "hpp"@) || ext_is(key, "cs"@) || ext_is(key, "rb"@) || ext_is(key, "php"@)
        || ext_is(key, "swift"@) || ext_is(key, "kt"@) {
        "Code"@
    } else if ext_is(key, "json"@) || ext_is(key, "yaml"@) || ext_is(key, "yml"@)
        || ext_is(key, "xml"@) || ext_is(key, "toml"@) || ext_is(key, "csv"@)
        || ext_is(key, "ini"@) || ext_is(key, "conf"@) {
        "Data"@
    } else if ext_is(key, "html"@) || ext_is(key, "htm"@) || ext_is(key, "css"@)
        || ext_is(key, "scss"@) || ext_is(key, "sass"@) || ext_is(key, "less"@) {
        "Web"@
    } else {
        "Other"@
    }
}

/// Categorise a key by its extension (ASCII-case-insensitive).
pub fn categorize_by_extension(key: &str) -> (r: &'static str)
    ensures
        r@ == category_of(key@),
{
    let st = ext_start(key);
    if tail_lower_eq(key, st, "jpg") || tail_lower_eq(key, st, "jpeg")
        || tail_lower_eq(key, st, "png") || tail_lower_eq(key, st, "gif")
        || tail_lower_eq(key, st, "webp") || tail_lower_eq(key, st, "svg")
        || tail_lower_eq(key, st, "ico") || tail_lower_eq(key, st, "bmp")
        || tail_lower_eq(key, st, "tiff") || tail_lower_eq(key, st, "heic") {
        "Images"
    } else if tail_lower_eq(key, st, "pdf") || tail_lower_eq(key, st, "doc")
        || tail_lower_eq(key, st, "docx") || tail_lower_eq(key, st, "xls")
        || tail_lower_eq(key, st, "xlsx") || tail_lower_eq(key, st, "ppt")
        || tail_lower_eq(key, st, "pptx") || tail_lower_eq(key, st, "txt")
        || tail_lower_eq(key, st, "md") || tail_lower_eq(key, st, "rtf")
        || tail_lower_eq(key, st, "odt") {
        "Documents"
    } else if tail_lower_eq(key, st, "mp4") || tail_lower_eq(key, st, "avi")
        || tail_lower_eq(key, st, "mov") || tail_lower_eq(key, st, "mkv")
        || tail_lower_eq(key, st, "webm") || tail_lower_eq(key, st, "flv")
        || tail_lower_eq(key, st, "wmv") || tail_lower_eq(key, st, "m4v") {
        "Video"
    } else if tail_lower_eq(key, st, "mp3") || tail_lower_eq(key, st, "wav")
        || tail_lower_eq(key, st, "flac") || tail_lower_eq(key, st, "aac")
        || tail_lower_eq(key, st, "ogg") || tail_lower_eq(key, st, "m4a")
        || tail_lower_eq(key, st, "wma") {
        "Audio"
    } else if tail_lower_eq(key, st, "zip") || tail_lower_eq(key, st, "tar")
        || tail_lower_eq(key, st, "gz") || tail_lower_eq(key, st, "rar")
        || tail_lower_eq(key, st, "7z") || tail_lower_eq(key, st, "bz2")
        || tail_lower_eq(key, st, "xz") || tail_lower_eq(key, st, "tgz") {
        "Archives"
    } else if tail_lower_eq(key, st, "js") || tail_lower_eq(key, st, "ts")
        || tail_lower_eq(key, st, "jsx") || tail_lower_eq(key, st, "tsx")
        || tail_lower_eq(key, st, "py") || tail_lower_eq(key, st, "rs")
        || tail_lower_eq(key, st, "go") || tail_lower_eq(key, st, "java")
        || tail_lower_eq(key, st, "c") || tail_lower_eq(key, st, "cpp")
        || tail_lower_eq(key, st, "h") || tail_lower_eq(key, st, "hpp")
        || tail_lower_eq(key, st, "cs") || tail_lower_eq(key, st, "rb")
        || tail_lower_eq(key, st, "php") || tail_lower_eq(key, st, "swift")
        || tail_lower_eq(key, st, "kt") {
        "Code"
    } else if tail_lower_eq(key, st, "json") || tail_lower_eq(key, st, "yaml")
        || tail_lower_eq(key, st, "yml") || tail_lower_eq(key, st, "xml")
        || tail_lower_eq(key, st, "toml") || tail_lower_eq(key, st, "csv")
        || tail_lower_eq(key, st, "ini") || tail_lower_eq(key, st, "conf") {
        "Data"
    } else if tail_lower_eq(key, st, "html") || tail_lower_eq(key, st, "htm")
        || tail_lower_eq(key, st, "css") || tail_lower_eq(key, st, "scss")
        || tail_lower_eq(key, st, "sass") || tail_lower_eq(key, st, "less") {
        "Web"
    } else {
        "Other"
    }
}

/// The top-level folder prefix a key contributes to: the first path segment
/// of the key relative to the base prefix, rendered as a full prefix. A key
/// with no folder, or an empty first segment, contributes to none.
pub open spec fn top_folder_of(key: Seq<char>, base: Option<Seq<char>>) -> Option<Seq<char>> {
    let rel = match base {
        Some(p) => if matches_at(key, p, 0) {
            key.skip(p.len() as int)
        } else {
            key
        },
        None => key,
    };
    match first_match(rel, "/"@) {
        Some(pos) => if pos > 0 {
            match base {
                Some(p) => Some(p + rel.subrange(0, pos) + "/"@),
                None => Some(rel.subrange(0, pos) + "/"@),
            }
        } else {
            None
        },
        None => None,
    }
}

/// Extract the top-level folder from an object key, relative to an optional
/// base prefix.
pub fn extract_top_folder(key: &str, base_prefix: Option<&str>) -> (r: Option<String>)
    ensures
        match r {
            Some(v) => top_folder_of(key@, match base_prefix {
                Some(p) => Some(p@),
                None => None::<Seq<char>>,
            }) == Some(v@),
            None => top_folder_of(key@, match base_prefix {
                Some(p) => Some(p@),
                None => None::<Seq<char>>,
            }) is None,
        },
{
    let n = key.unicode_len();
    let relative_start: usize = match base_prefix {
        Some(prefix) => {
            if starts_with_sub(key, prefix) {
                prefix.unicode_len()
            } else {
                0
            }
        },
        None => 0,
    };
    let relative_key = key.substring_char(relative_start, n);
    proof {
        assert(relative_key@ =~= key@.skip(relative_start as int));
        if relative_start == 0 {
            assert(key@.skip(0) =~= key@);
        }
    }
    if let Some(slash_pos) = find_sub(relative_key, "/") {
        if slash_pos > 0 {
            let folder_name = relative_key.substring_char(0, slash_pos);
            proof {
                assert(matches_at(relative_key@, "/"@, slash_pos as int));
                assert(folder_name@ =~= relative_key@.subrange(0, slash_pos as int));
            }
            let mut out = String::new();
            match base_prefix {
                Some(prefix) => {
                    out.append(prefix);
                    proof {
                        assert(out@ =~= prefix@);
                    }
                },
                None => {},
            }
            out.append(folder_name);
            out.append("/");
            proof {
                match base_prefix {
                    Some(prefix) => {
                        assert(out@ =~= prefix@ + relative_key@.subrange(0, slash_pos as int)
                            + "/"@);
                    },
                    None => {
                        assert(out@ =~= relative_key@.subrange(0, slash_pos as int) + "/"@);
                    },
                }
            }
            return Some(out);
        }
    }
    None
}

/// Position at which a file of this size is inserted: before the first
/// tracked file that is strictly smaller, else at the end.
pub open spec fn insert_pos(s: Seq<LargeFile>, size: i64) -> int
    decreases s.len(),
{
    if s.len() == 0 {
        0
    } else if s[0].size < size {
        0
    } else {
        1 + insert_pos(s.drop_first(), size)
    }
}

/// Scanning past files at least as large leaves the insert position's tail
/// unchanged.
proof fn lemma_insert_pos_skip(s: Seq<LargeFile>, size: i64, i: int)
    requires
        0 <= i <= s.len(),
        forall|j: int| 0 <= j < i ==> !(s[j].size < size),
    ensures
        insert_pos(s, size) == i + insert_pos(s.skip(i), size),
    decreases i,
{
    if i > 0 {
        lemma_insert_pos_skip(s.drop_first(), size, i - 1);
        assert(s.drop_first().skip(i - 1) =~= s.skip(i));
    } else {
        assert(s.skip(0) =~= s);
    }
}

/// Maintains the N largest files seen, sorted by size descending.
pub struct TopNTracker {
    pub files: Vec<LargeFile>,
    pub capacity: usize,
}

impl TopNTracker {
    /// An empty tracker for the N largest files.
    pub fn new(capacity: usize) -> (r: TopNTracker)
        ensures
            r.files@.len() == 0,
            r.capacity == capacity,
    {
        TopNTracker { files: Vec::new(), capacity }
    }

    /// Offer one file: it is inserted at its size rank if that rank lies
    /// within the capacity, and the smallest tracked file is dropped when the
    /// tracker would exceed its capacity.
    pub fn add(&mut self, file: LargeFile)
        requires
            old(self).files@.len() <= old(self).capacity,
        ensures
            final(self).capacity == old(self).capacity,
            final(self).files@.len() <= old(self).capacity,
            ({
                let pos = insert_pos(old(self).files@, file.size);
                if pos < old(self).capacity {
                    let ins = old(self).files@.insert(pos, file);
                    final(self).files@ == (if ins.len() > old(self).capacity {
                        ins.drop_last()
                    } else {
                        ins
                    })
                } else {
                    final(self).files@ == old(self).files@
                }
            }),
    {
        let n = self.files.len();
        let mut pos: usize = 0;
        while pos < n && self.files[pos].size >= file.size
            invariant
                n == self.files@.len(),
                pos <= n,
                forall|j: int| 0 <= j < pos ==> !(self.files@[j].size < file.size),
            decreases n - pos,
        {
            pos = pos + 1;
        }
        proof {
            lemma_insert_pos_skip(self.files@, file.size, pos as int);
            if pos == n {
                assert(self.files@.skip(n as int) =~= Seq::<LargeFile>::empty());
            } else {
                assert(self.files@.skip(pos as int)[0] == self.files@[pos as int]);
            }
            assert(insert_pos(self.files@, file.size) == pos as int);
        }
        if pos < self.capacity {
            self.files.insert(pos, file);
            if self.files.len() > self.capacity {
                let _ = self.files.pop();
            }
        }
    }

    /// The tracked files, largest first.
    pub fn into_vec(self) -> (r: Vec<LargeFile>)
        ensures
            r == self.files,
    {
        self.files
    }
}

} // verus!
