//! Platform services as this build provides them (clipboard change counts, file
//! lists, permissions), and the pure helpers that the macOS pasteboard code uses:
//! percent-decoding of file URLs and MIME-to-UTI mapping.
use vstd::prelude::*;
use vstd::string::StringSliceAdditionalSpecFns;
use vstd::utf8::{encode_utf8, valid_utf8, decode_utf8, is_continuation_byte};
use crate::text::{has_prefix, chars_of, starts_with, string_of_range, concat};
use crate::trusted::{png_encoder_output, png_encoder_write_rgba8, decoded_rgba8, decode_to_rgba8,
    image_error_text};

verus! {

/// Converting bytes that are not UTF-8 into a `String` fails.
#[verifier::external_type_specification]
#[verifier::external_body]
pub struct ExFromUtf8Error(std::string::FromUtf8Error);

/// `String::from_utf8` succeeds exactly on valid UTF-8, with the decoded characters.
pub assume_specification[ String::from_utf8 ](vec: Vec<u8>) -> (r: Result<
    String,
    std::string::FromUtf8Error,
>)
    ensures
        (r is Ok) == valid_utf8(vec@),
        r is Ok ==> r->Ok_0@ == decode_utf8(vec@),
;

/// What the platform reports about paste permissions.
#[derive(Debug)]
pub struct PermissionsStatus {
    pub platform: String,
    pub can_paste: bool,
    pub automation_ok: bool,
    pub accessibility_ok: bool,
    pub details: Option<String>,
    /// Whether running as a bundled app (true) or a development binary (false).
    pub is_bundled: bool,
    /// The path of the executable that needs the permissions.
    pub executable_path: String,
}

/// This platform does not track the last frontmost application.
pub fn set_last_frontmost_app_name(_name: String) {
}

pub fn get_last_frontmost_app_name() -> (r: Option<String>)
    ensures
        r is None,
{
    None
}

/// This platform cannot tell which application is frontmost.
pub fn query_frontmost_app_info() -> (r: (Option<String>, Option<String>))
    ensures
        r.0 is None && r.1 is None,
{
    (None, None)
}

pub fn open_accessibility_settings() -> (r: Result<(), String>)
    ensures
        r is Ok,
{
    Ok(())
}

pub fn open_automation_settings() -> (r: Result<(), String>)
    ensures
        r is Ok,
{
    Ok(())
}

pub fn request_accessibility_permission() -> (r: Result<bool, String>)
    ensures
        r == Ok::<bool, String>(true),
{
    Ok(true)
}

pub fn request_automation_permission() -> (r: Result<bool, String>)
    ensures
        r == Ok::<bool, String>(true),
{
    Ok(true)
}

/// This platform has no clipboard change counter: 0 means "unknown".
pub fn get_clipboard_change_count() -> (r: i64)
    ensures
        r == 0,
{
    0
}

/// This platform does not read file lists from the clipboard.
pub fn get_clipboard_file_urls() -> (r: Option<Vec<String>>)
    ensures
        r is None,
{
    None
}

/// This platform cannot put files on the clipboard.
pub fn set_clipboard_files(_paths: &[String]) -> (r: Result<(), String>)
    ensures
        r is Err && r->Err_0@ == "file clipboard is not supported on this platform"@,
{
    Err(String::from_str("file clipboard is not supported on this platform"))
}

/// The permissions status of this platform, for the given executable path.
pub fn check_permissions(executable_path: String) -> (r: Result<PermissionsStatus, String>)
    ensures
        r is Ok,
        r->Ok_0.platform@ == "linux"@,
        !r->Ok_0.can_paste,
        r->Ok_0.automation_ok,
        r->Ok_0.accessibility_ok,
        r->Ok_0.details is Some && r->Ok_0.details->0@
            == "Paste automation is not implemented on this platform yet."@,
        r->Ok_0.is_bundled,
        r->Ok_0.executable_path == executable_path,
{
    Ok(
        PermissionsStatus {
            platform: String::from_str("linux"),
            can_paste: false,
            automation_ok: true,
            accessibility_ok: true,
            details: Some(String::from_str("Paste automation is not implemented on this platform yet.")),
            is_bundled: true,
            executable_path,
        },
    )
}

/// The pasteboard type (UTI) of an image MIME type, for the types kept natively.
pub open spec fn uti_of_mime(mime: Seq<char>) -> Option<Seq<char>> {
    if mime == "image/png"@ {
        Some("public.png"@)
    } else if mime == "image/jpeg"@ || mime == "image/jpg"@ {
        Some("public.jpeg"@)
    } else if mime == "image/webp"@ {
        Some("org.webmproject.webp"@)
    } else if mime == "image/tiff"@ {
        Some("public.tiff"@)
    } else {
        None
    }
}

pub fn mime_to_uti(mime: &str) -> (r: Option<&'static str>)
    ensures
        (match r {
            Some(u) => Some(u@),
            None => None,
        }) == uti_of_mime(mime@),
{
    let m = String::from_str(mime);
    if m == String::from_str("image/png") {
        Some("public.png")
    } else if m == String::from_str("image/jpeg") || m == String::from_str("image/jpg") {
        Some("public.jpeg")
    } else if m == String::from_str("image/webp") {
        Some("org.webmproject.webp")
    } else if m == String::from_str("image/tiff") {
        Some("public.tiff")
    } else {
        None
    }
}

/// The value of a hexadecimal digit byte.
pub open spec fn hex_value(b: u8) -> Option<int> {
    if 0x30 <= b <= 0x39 {
        Some(b - 0x30)
    } else if 0x61 <= b <= 0x66 {
        Some(b - 0x61 + 10)
    } else if 0x41 <= b <= 0x46 {
        Some(b - 0x41 + 10)
    } else {
        None
    }
}

/// What `u8::from_str_radix(s, 16)` gives for the two-byte text `[a, b]`: an optional
/// leading `+`, then hexadecimal digits.
pub open spec fn escape_value(a: u8, b: u8) -> Option<u8> {
    if a == 0x2b {
        match hex_value(b) {
            Some(v) => Some(v as u8),
            None => None,
        }
    } else {
        match (hex_value(a), hex_value(b)) {
            (Some(x), Some(y)) => Some((16 * x + y) as u8),
            _ => None,
        }
    }
}

/// Percent-decoding of bytes: `%` followed by a valid escape of two more bytes is
/// replaced by the byte it encodes; everything else is kept.
pub open spec fn percent_decoded(b: Seq<u8>) -> Seq<u8>
    decreases b.len(),
{
    if b.len() == 0 {
        Seq::empty()
    } else if b[0] == 0x25 && 2 < b.len() && escape_value(b[1], b[2]) is Some {
        seq![escape_value(b[1], b[2])->0] + percent_decoded(b.skip(3))
    } else {
        seq![b[0]] + percent_decoded(b.skip(1))
    }
}

/// The decoding slices the text two bytes after each `%`; that slice must end on a
/// character boundary (slicing a `str` elsewhere panics).
pub open spec fn escapes_end_on_boundaries(b: Seq<u8>) -> bool {
    forall|j: int| 0 <= j && j + 3 < b.len() && #[trigger] b[j] == 0x25 ==> !is_continuation_byte(
        b[j + 3],
    )
}

/// The text a percent-encoded path decodes to: the decoded bytes as UTF-8, or the
/// input unchanged when they are not valid UTF-8.
pub open spec fn percent_decode_text(s: Seq<char>) -> Seq<char> {
    let d = percent_decoded(encode_utf8(s));
    if valid_utf8(d) {
        decode_utf8(d)
    } else {
        s
    }
}

fn hex_value_of(b: u8) -> (r: Option<u8>)
    ensures
        (match r {
            Some(v) => Some(v as int),
            None => None,
        }) == hex_value(b),
{
    if 0x30 <= b && b <= 0x39 {
        Some(b - 0x30)
    } else if 0x61 <= b && b <= 0x66 {
        Some(b - 0x61 + 10)
    } else if 0x41 <= b && b <= 0x46 {
        Some(b - 0x41 + 10)
    } else {
        None
    }
}

fn escape_value_of(a: u8, b: u8) -> (r: Option<u8>)
    ensures
        r == escape_value(a, b),
{
    if a == 0x2b {
        match hex_value_of(b) {
            Some(v) => Some(v),
            None => None,
        }
    } else {
        match (hex_value_of(a), hex_value_of(b)) {
            (Some(x), Some(y)) => Some(16 * x + y),
            _ => None,
        }
    }
}

/// Decode `%XX` escapes in a file URL path.
pub fn percent_decode(input: &str) -> (r: String)
    requires
        escapes_end_on_boundaries(input.spec_bytes()),
    ensures
        r@ == percent_decode_text(input@),
{
    let bytes = input.as_bytes();
    let ghost b = bytes@;
    let mut result: Vec<u8> = Vec::new();
    let mut i: usize = 0;
    proof {
        assert(b.skip(0) == b);
    }
    while i < bytes.len()
        invariant
            b == bytes@,
            i <= bytes.len(),
            percent_decoded(b) == result@ + percent_decoded(b.skip(i as int)),
        decreases bytes.len() - i,
    {
        let ghost rest = b.skip(i as int);
        if bytes[i] == 0x25 && bytes.len() > 2 && i < bytes.len() - 2 {
            match escape_value_of(bytes[i + 1], bytes[i + 2]) {
                Some(v) => {
                    proof {
                        assert(rest[0] == 0x25 && rest[1] == b[i + 1] && rest[2] == b[i + 2]);
                        assert(rest.skip(3) == b.skip(i + 3));
                        assert(result@.push(v) + percent_decoded(b.skip(i + 3)) =~= result@ + (seq![v]
                            + percent_decoded(rest.skip(3))));
                    }
                    result.push(v);
                    i = i + 3;
                    continue ;
                },
                None => {},
            }
        }
        proof {
            assert(rest[0] == b[i as int]);
            assert(rest.skip(1) == b.skip(i + 1));
            assert(result@.push(b[i as int]) + percent_decoded(b.skip(i + 1)) =~= result@ + (seq![
                b[i as int],
            ] + percent_decoded(rest.skip(1))));
        }
        result.push(bytes[i]);
        i = i + 1;
    }
    proof {
        assert(b.skip(bytes.len() as int) =~= Seq::<u8>::empty());
        assert(result@ + Seq::<u8>::empty() =~= result@);
    }
    match String::from_utf8(result) {
        Ok(s) => s,
        Err(_) => String::from_str(input),
    }
}

/// The paths of the `file://` URLs among the pasteboard items' file-URL strings,
/// percent-decoded, without empty ones.
pub open spec fn file_paths_of(urls: Seq<Option<String>>) -> Seq<Seq<char>>
    decreases urls.len(),
{
    if urls.len() == 0 {
        Seq::empty()
    } else {
        let prior = file_paths_of(urls.drop_last());
        match urls.last() {
            Some(u) => {
                if has_prefix(u@, "file://"@) && percent_decode_text(u@.skip(7)).len() > 0 {
                    prior.push(percent_decode_text(u@.skip(7)))
                } else {
                    prior
                }
            },
            None => prior,
        }
    }
}

/// Every `file://` URL can be percent-decoded without slicing inside a character.
pub open spec fn urls_decodable(urls: Seq<Option<String>>) -> bool {
    forall|i: int|
        0 <= i < urls.len() && #[trigger] urls[i] is Some && has_prefix(urls[i]->0@, "file://"@)
            ==> escapes_end_on_boundaries(encode_utf8(urls[i]->0@.skip(7)))
}

/// File paths from the file-URL strings of the pasteboard items; none when there are none.
pub fn file_paths_from_urls(urls: &Vec<Option<String>>) -> (r: Option<Vec<String>>)
    requires
        urls_decodable(urls@),
    ensures
        file_paths_of(urls@).len() == 0 ==> r is None,
        file_paths_of(urls@).len() > 0 ==> r is Some && r->0@.map_values(|s: String| s@)
            == file_paths_of(urls@),
{
    let mut paths: Vec<String> = Vec::new();
    let mut i: usize = 0;
    while i < urls.len()
        invariant
            i <= urls.len(),
            urls_decodable(urls@),
            paths@.map_values(|s: String| s@) == file_paths_of(urls@.take(i as int)),
        decreases urls.len() - i,
    {
        proof {
            assert(urls@.take(i + 1).drop_last() == urls@.take(i as int));
            assert(urls@.take(i + 1).last() == urls@[i as int]);
        }
        match &urls[i] {
            Some(u) => {
                let cs = chars_of(u.as_str());
                proof {
                    reveal_strlit("file://");
                }
                if starts_with(&cs, "file://") {
                    let rest = string_of_range(&cs, 7, cs.len());
                    proof {
                        assert(rest@ == u@.skip(7));
                        assert(urls@[i as int] is Some);
                    }
                    let decoded = percent_decode(rest.as_str());
                    if !decoded.as_str().is_empty() {
                        let ghost before = paths@;
                        paths.push(decoded);
                        proof {
                            assert(paths@.map_values(|s: String| s@) =~= before.map_values(
                                |s: String| s@,
                            ).push(decoded@));
                        }
                    }
                }
            },
            None => {},
        }
        i = i + 1;
    }
    proof {
        assert(urls@.take(urls@.len() as int) == urls@);
    }
    if paths.len() > 0 {
        Some(paths)
    } else {
        None
    }
}

/// Bytes without a `%` are left as they are by percent-decoding.
pub proof fn lemma_no_percent_unchanged(b: Seq<u8>)
    requires
        forall|j: int| 0 <= j < b.len() ==> b[j] != 0x25,
    ensures
        percent_decoded(b) == b,
    decreases b.len(),
{
    if b.len() > 0 {
        lemma_no_percent_unchanged(b.skip(1));
        assert(seq![b[0]] + b.skip(1) =~= b);
    }
}

/// A path without `%` decodes to itself.
pub proof fn plain_paths_decode_to_themselves(s: Seq<char>)
    requires
        !s.contains('%'),
    ensures
        percent_decode_text(s) == s,
{
    lemma_no_percent_in_encoding(s);
    lemma_no_percent_unchanged(encode_utf8(s));
    vstd::utf8::encode_utf8_valid_utf8(s);
    vstd::utf8::encode_utf8_decode_utf8(s);
}

proof fn lemma_no_percent_in_encoding(s: Seq<char>)
    requires
        !s.contains('%'),
    ensures
        forall|j: int| 0 <= j < encode_utf8(s).len() ==> encode_utf8(s)[j] != 0x25,
    decreases s.len(),
{
    if s.len() > 0 {
        assert(!s.drop_first().contains('%')) by {
            if s.drop_first().contains('%') {
                let k = choose|k: int| 0 <= k < s.drop_first().len() && s.drop_first()[k] == '%';
                assert(s[k + 1] == '%');
            }
        }
        lemma_no_percent_in_encoding(s.drop_first());
        assert(s[0] != '%');
        let c = s[0] as u32;
        assert(c != 0x25) by {
            if c == 0x25 {
                vstd::utf8::char_u32_cast(s[0], c);
                vstd::utf8::char_u32_cast('%', 0x25u32);
            }
        }
        let e = vstd::utf8::encode_scalar(c);
        let rest = encode_utf8(s.drop_first());
        assert forall|j: int| 0 <= j < e.len() implies e[j] != 0x25 by {
            vstd::utf8::char_is_scalar(s[0]);
            lemma_scalar_bytes_not_percent(c, j);
        }
        assert(encode_utf8(s) == e + rest);
        assert forall|j: int| 0 <= j < encode_utf8(s).len() implies encode_utf8(s)[j] != 0x25 by {
            if j >= e.len() {
                assert(encode_utf8(s)[j] == rest[j - e.len()]);
            } else {
                assert(encode_utf8(s)[j] == e[j]);
            }
        }
    }
}

proof fn lemma_scalar_bytes_not_percent(c: u32, j: int)
    requires
        vstd::utf8::is_scalar(c),
        c != 0x25,
        0 <= j < vstd::utf8::encode_scalar(c).len(),
    ensures
        vstd::utf8::encode_scalar(c)[j] != 0x25,
{
    let e = vstd::utf8::encode_scalar(c);
    if vstd::utf8::has_width_1_encoding(c) {
        assert(c <= 0x7f ==> c & 0x7f == c) by (bit_vector);
        assert((c & 0x7f) as u8 == c);
    } else {
        assert(0xC0 | ((c >> 6) & 0x1F) as u8 >= 0x80) by (bit_vector);
        assert(0xE0 | ((c >> 12) & 0x0F) as u8 >= 0x80) by (bit_vector);
        assert(0xF0 | ((c >> 18) & 0x7) as u8 >= 0x80) by (bit_vector);
        assert(0x80 | (c & 0x3F) as u8 >= 0x80) by (bit_vector);
        assert(0x80 | ((c >> 6) & 0x3F) as u8 >= 0x80) by (bit_vector);
        assert(0x80 | ((c >> 12) & 0x3F) as u8 >= 0x80) by (bit_vector);
    }
}

/// Encoded image bytes with their MIME type.
#[derive(Debug)]
pub struct EncodedImage {
    pub bytes: Vec<u8>,
    pub mime: String,
}

/// RGBA8 pixels of an image.
#[derive(Debug)]
pub struct RgbaPixels {
    pub width: u32,
    pub height: u32,
    pub bytes: Vec<u8>,
}

/// The PNG form of the clipboard's RGBA pixels; none for an empty image or when the
/// encoder fails.
pub fn png_for_clipboard(rgba: &[u8], width: u32, height: u32) -> (r: Option<EncodedImage>)
    requires
        rgba@.len() == 0 || width == 0 || height == 0 || rgba@.len() == 4 * width * height,
    ensures
        rgba@.len() == 0 || width == 0 || height == 0 ==> r is None,
        !(rgba@.len() == 0 || width == 0 || height == 0) ==> {
            &&& (r is Some) == (png_encoder_output(width, height, rgba@) is Some)
            &&& r is Some ==> Some(r->0.bytes@) == png_encoder_output(width, height, rgba@)
                && r->0.mime@ == "image/png"@
        },
{
    if rgba.len() == 0 || width == 0 || height == 0 {
        return None;
    }
    match png_encoder_write_rgba8(rgba, width, height) {
        Ok(png) => Some(EncodedImage { bytes: png, mime: String::from_str("image/png") }),
        Err(_) => None,
    }
}

/// Decode an encoded image into RGBA8 pixels for the clipboard.
pub fn decode_for_clipboard(encoded: &[u8]) -> (r: Result<RgbaPixels, String>)
    ensures
        (r is Ok) == (decoded_rgba8(encoded@) is Some),
        r is Ok ==> decoded_rgba8(encoded@) == Some((r->Ok_0.width, r->Ok_0.height, r->Ok_0.bytes@)),
        r is Ok ==> r->Ok_0.bytes@.len() == 4 * r->Ok_0.width * r->Ok_0.height,
        r is Err ==> has_prefix(r->Err_0@, "failed to decode image: "@),
{
    match decode_to_rgba8(encoded) {
        Ok((width, height, bytes)) => Ok(RgbaPixels { width, height, bytes }),
        Err(e) => {
            let m = concat("failed to decode image: ", image_error_text(&e).as_str());
            proof {
                assert(m@.take("failed to decode image: "@.len() as int) == "failed to decode image: "@);
            }
            Err(m)
        },
    }
}

} // verus!
