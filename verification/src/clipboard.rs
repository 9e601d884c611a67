//! Clipboard content classification, deduplication hashes, and the decisions of
//! the clipboard watcher.
use vstd::prelude::*;
use crate::text::{trim_chars, has_prefix, trim, chars_of, starts_with, contains_char};
use crate::models::opt_view;
use crate::trusted::{default_hash_of_bytes, default_hash_of_str, hash_bytes, hash_str};

verus! {

/// Largest image, in bytes of raw pixel data, that the watcher stores.
pub const MAX_IMAGE_SIZE_BYTES: u64 = 5 * 1024 * 1024;

pub open spec fn is_ascii_alpha(c: char) -> bool {
    ('a' <= c && c <= 'z') || ('A' <= c && c <= 'Z')
}

/// The content type hint of a copied text: "url" for a single http(s) URL, "file"
/// for an existing absolute or `file://` path or a Windows drive path, none otherwise.
/// `path_exists` tells whether the trimmed text names an existing path.
pub open spec fn content_type_of(text: Seq<char>, path_exists: bool) -> Option<Seq<char>> {
    let t = trim_chars(text);
    if (has_prefix(t, "http://"@) || has_prefix(t, "https://"@)) && !t.contains('\n')
        && !t.contains(' ') {
        Some("url"@)
    } else if (has_prefix(t, "/"@) || has_prefix(t, "file://"@)) && path_exists {
        Some("file"@)
    } else if t.len() >= 3 && is_ascii_alpha(t[0]) && t[1] == ':' && (t[2] == '\\' || t[2]
        == '/') {
        Some("file"@)
    } else {
        None
    }
}

/// Detect the content type of a copied text (see `content_type_of`).
pub fn detect_content_type(text: &str, path_exists: bool) -> (r: Option<String>)
    ensures
        opt_view(r) == content_type_of(text@, path_exists),
{
    let trimmed = trim(text);
    let t = chars_of(trimmed.as_str());
    if (starts_with(&t, "http://") || starts_with(&t, "https://")) && !contains_char(&t, '\n')
        && !contains_char(&t, ' ') {
        return Some(String::from_str("url"));
    }
    if (starts_with(&t, "/") || starts_with(&t, "file://")) && path_exists {
        return Some(String::from_str("file"));
    }
    if t.len() >= 3 {
        let c0 = t[0];
        if (('a' <= c0 && c0 <= 'z') || ('A' <= c0 && c0 <= 'Z')) && t[1] == ':' && (t[2] == '\\'
            || t[2] == '/') {
            return Some(String::from_str("file"));
        }
    }
    None
}

/// Hash of an image's pixel bytes, for deduplication.
pub fn image_hash(data: &[u8]) -> (r: u64)
    ensures
        r == default_hash_of_bytes(data@),
{
    hash_bytes(data)
}

/// Hash of a text for deduplication: surrounding whitespace does not count.
pub fn text_hash(text: &str) -> (r: u64)
    ensures
        r == default_hash_of_str(trim_chars(text@)),
{
    let t = trim(text);
    hash_str(t.as_str())
}

/// A single link is a URL whether it is `http://` or `https://`: a text whose trimmed
/// form starts with either scheme and holds no space or line feed is typed "url",
/// whatever the file system says.
pub proof fn single_links_are_urls(text: Seq<char>, path_exists: bool)
    requires
        has_prefix(trim_chars(text), "http://"@) || has_prefix(trim_chars(text), "https://"@),
        !trim_chars(text).contains(' '),
        !trim_chars(text).contains('\n'),
    ensures
        content_type_of(text, path_exists) == Some("url"@),
{
}

/// Only the trimmed text counts: texts that agree once trimmed get the same type.
pub proof fn content_type_ignores_surrounding_whitespace(a: Seq<char>, b: Seq<char>, path_exists: bool)
    requires
        trim_chars(a) == trim_chars(b),
    ensures
        content_type_of(a, path_exists) == content_type_of(b, path_exists),
{
}

/// A text that is neither a link nor a path has no type: without a `:` and not
/// starting with "http", "/" or "file://" once trimmed, it is plain text.
pub proof fn plain_text_has_no_type(text: Seq<char>, path_exists: bool)
    requires
        !has_prefix(trim_chars(text), "http"@),
        !has_prefix(trim_chars(text), "/"@),
        !has_prefix(trim_chars(text), "file://"@),
        !trim_chars(text).contains(':'),
    ensures
        content_type_of(text, path_exists) is None,
{
    let t = trim_chars(text);
    reveal_strlit("http://");
    reveal_strlit("https://");
    reveal_strlit("http");
    if has_prefix(t, "http://"@) {
        assert(t.take(4) =~= "http"@);
    }
    if has_prefix(t, "https://"@) {
        assert(t.take(4) =~= "http"@);
    }
    if t.len() >= 3 && t[1] == ':' {
        assert(t.contains(':'));
    }
}

/// Texts that differ only in surrounding whitespace hash alike.
pub proof fn text_hash_ignores_surrounding_whitespace(a: &str, b: &str)
    requires
        trim_chars(a@) == trim_chars(b@),
    ensures
        default_hash_of_str(trim_chars(a@)) == default_hash_of_str(trim_chars(b@)),
{
}

} // verus!

verus! {

/// Handle of a running clipboard watcher: the poll loop checks the shared stop
/// flag at the start of every poll.
#[derive(Clone)]
pub struct ClipboardWatcher {
    stop_flag: std::sync::Arc<std::sync::atomic::AtomicBool>,
}

impl ClipboardWatcher {
    /// A handle whose stop flag is not raised.
    pub fn new() -> (r: Self) {
        ClipboardWatcher {
            stop_flag: std::sync::Arc::new(std::sync::atomic::AtomicBool::new(false)),
        }
    }

    /// Ask the poll loop to stop at its next poll.
    pub fn stop(&self) {
        self.stop_flag.store(true, std::sync::atomic::Ordering::SeqCst);
    }

    /// Whether a stop was requested (read by the poll loop).
    pub fn stop_requested(&self) -> bool {
        self.stop_flag.load(std::sync::atomic::Ordering::SeqCst)
    }
}

/// Put file paths on the clipboard, as the platform allows.
pub fn set_clipboard_files(paths: &[String]) -> (r: Result<(), String>)
    ensures
        r is Err && r->Err_0@ == "file clipboard is not supported on this platform"@,
{
    crate::platform::set_clipboard_files(paths)
}

} // verus!
