//! Content-type rules for previews: the MIME type an object key's extension
//! suggests, and which MIME types are previewable as PDF, text or image.

use vstd::prelude::*;
use crate::text::{ext_of, lower_eq, ext_start, tail_lower_eq, matches_at, starts_with_sub, str_eq};

verus! {

/// Thumbnail bytes and their MIME type, base64-encoded for transfer.
pub struct ThumbnailData {
    pub data: String,
    pub content_type: String,
    pub width: u32,
    pub height: u32,
}

/// Is the key's extension, ASCII-lowercased, this pattern?
pub open spec fn has_ext(key: Seq<char>, pat: Seq<char>) -> bool {
    lower_eq(ext_of(key), pat)
}

/// The MIME type suggested by the key's extension, if a known one.
pub open spec fn content_type_of(key: Seq<char>) -> Option<Seq<char>> {
    if has_ext(key, "jpg"@) || has_ext(key, "jpeg"@) {
        Some("image/jpeg"@)
    } else if has_ext(key, "png"@) {
        Some("image/png"@)
    } else if has_ext(key, "gif"@) {
        Some("image/gif"@)
    } else if has_ext(key, "webp"@) {
        Some("image/webp"@)
    } else if has_ext(key, "svg"@) {
        Some("image/svg+xml"@)
    } else if has_ext(key, "ico"@) {
        Some("image/x-icon"@)
    } else if has_ext(key, "bmp"@) {
        Some("image/bmp"@)
    } else if has_ext(key, "txt"@) {
        Some("text/plain"@)
    } else if has_ext(key, "md"@) {
        Some("text/markdown"@)
    } else if has_ext(key, "csv"@) {
        Some("text/csv"@)
    } else if has_ext(key, "log"@) {
        Some("text/plain"@)
    } else if has_ext(key, "json"@) {
        Some("application/json"@)
    } else if has_ext(key, "js"@) {
        Some("application/javascript"@)
    } else if has_ext(key, "ts"@) {
        Some("application/typescript"@)
    } else if has_ext(key, "jsx"@) {
        Some("text/jsx"@)
    } else if has_ext(key, "tsx"@) {
        Some("text/tsx"@)
    } else if has_ext(key, "html"@) {
        Some("text/html"@)
    } else if has_ext(key, "css"@) {
        Some("text/css"@)
    } else if has_ext(key, "xml"@) {
        Some("application/xml"@)
    } else if has_ext(key, "yaml"@) || has_ext(key, "yml"@) {
        Some("application/yaml"@)
    } else if has_ext(key, "toml"@) {
        Some("application/toml"@)
    } else if has_ext(key, "rs"@) {
        Some("text/x-rust"@)
    } else if has_ext(key, "py"@) {
        Some("text/x-python"@)
    } else if has_ext(key, "go"@) {
        Some("text/x-go"@)
    } else if has_ext(key, "java"@) {
        Some("text/x-java"@)
    } else if has_ext(key, "sh"@) {
        Some("text/x-shellscript"@)
    } else if has_ext(key, "pdf"@) {
        Some("application/pdf"@)
    } else {
        None
    }
}

/// The MIME type an object key's extension suggests (ASCII-case-insensitive),
/// or None for an unknown extension.
pub fn get_content_type_from_extension(key: &str) -> (r: Option<&'static str>)
    ensures
        match r {
            Some(v) => content_type_of(key@) == Some(v@),
            None => content_type_of(key@) is None,
        },
{
    let st = ext_start(key);
    if tail_lower_eq(key, st, "jpg") || tail_lower_eq(key, st, "jpeg") {
        Some("image/jpeg")
    } else if tail_lower_eq(key, st, "png") {
        Some("image/png")
    } else if tail_lower_eq(key, st, "gif") {
        Some("image/gif")
    } else if tail_lower_eq(key, st, "webp") {
        Some("image/webp")
    } else if tail_lower_eq(key, st, "svg") {
        Some("image/svg+xml")
    } else if tail_lower_eq(key, st, "ico") {
        Some("image/x-icon")
    } else if tail_lower_eq(key, st, "bmp") {
        Some("image/bmp")
    } else if tail_lower_eq(key, st, "txt") {
        Some("text/plain")
    } else if tail_lower_eq(key, st, "md") {
        Some("text/markdown")
    } else if tail_lower_eq(key, st, "csv") {
        Some("text/csv")
    } else if tail_lower_eq(key, st, "log") {
        Some("text/plain")
    } else if tail_lower_eq(key, st, "json") {
        Some("application/json")
    } else if tail_lower_eq(key, st, "js") {
        Some("application/javascript")
    } else if tail_lower_eq(key, st, "ts") {
        Some("application/typescript")
    } else if tail_lower_eq(key, st, "jsx") {
        Some("text/jsx")
    } else if tail_lower_eq(key, st, "tsx") {
        Some("text/tsx")
    } else if tail_lower_eq(key, st, "html") {
        Some("text/html")
    } else if tail_lower_eq(key, st, "css") {
        Some("text/css")
    } else if tail_lower_eq(key, st, "xml") {
        Some("application/xml")
    } else if tail_lower_eq(key, st, "yaml") || tail_lower_eq(key, st, "yml") {
        Some("application/yaml")
    } else if tail_lower_eq(key, st, "toml") {
        Some("application/toml")
    } else if tail_lower_eq(key, st, "rs") {
        Some("text/x-rust")
    } else if tail_lower_eq(key, st, "py") {
        Some("text/x-python")
    } else if tail_lower_eq(key, st, "go") {
        Some("text/x-go")
    } else if tail_lower_eq(key, st, "java") {
        Some("text/x-java")
    } else if tail_lower_eq(key, st, "sh") {
        Some("text/x-shellscript")
    } else if tail_lower_eq(key, st, "pdf") {
        Some("application/pdf")
    } else {
        None
    }
}

/// Is this MIME type rendered by the PDF preview?
pub fn is_pdf_content_type(content_type: &str) -> (r: bool)
    ensures
        r == (content_type@ == "application/pdf"@),
{
    str_eq(content_type, "application/pdf")
}

/// Is this MIME type rendered by the text preview?
pub fn is_text_content_type(content_type: &str) -> (r: bool)
    ensures
        r == (matches_at(content_type@, "text/"@, 0) || content_type@ == "application/json"@
            || content_type@ == "application/javascript"@
            || content_type@ == "application/typescript"@ || content_type@ == "application/xml"@
            || content_type@ == "application/yaml"@ || content_type@ == "application/toml"@),
{
    starts_with_sub(content_type, "text/") || str_eq(content_type, "application/json")
        || str_eq(content_type, "application/javascript")
        || str_eq(content_type, "application/typescript")
        || str_eq(content_type, "application/xml")
        || str_eq(content_type, "application/yaml")
        || str_eq(content_type, "application/toml")
}

/// Is this MIME type rendered by the image preview?
pub fn is_image_content_type(content_type: &str) -> (r: bool)
    ensures
        r == matches_at(content_type@, "image/"@, 0),
{
    starts_with_sub(content_type, "image/")
}

} // verus!
