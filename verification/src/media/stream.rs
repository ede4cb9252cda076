//! Serving media: stream URLs, content types, the FFmpeg command that
//! streams a file, and the file operations of the media library.
use vstd::prelude::*;
use crate::api::{
    error_response, is_error, is_unsafe_filename, last_dot_field, validate_media_extension,
    validate_media_upload_filename, ApiError, STATUS_CONFLICT, STATUS_NOT_FOUND, is_allowed_extension,
    bad_extension_message, STATUS_BAD_REQUEST, upload_name_refusal,
};
use vstd::utf8::encode_utf8;
use vstd::multiset::Multiset;
use crate::text::{
    split_fields, append, ascii_lower, chars_of, opt_view, push_char, starts_with, str_eq, string_of, strings_view,
    to_ascii_lower, unicode_lowercase, text_le, text_le_exec, lemma_text_le_total, lemma_text_le_transitive,
};

verus! {

// ---------------------------------------------------------------------------
// Stream URLs
// ---------------------------------------------------------------------------

/// Bytes kept as they are in a URL path segment: ASCII letters and digits
/// and `-`, `.`, `_`, `~`.
pub open spec fn is_unreserved(b: u8) -> bool {
    (48 <= b && b <= 57) || (65 <= b && b <= 90) || (97 <= b && b <= 122) || b == 45 || b == 46 || b == 95
        || b == 126
}

/// Upper-case hexadecimal digit of a value below 16.
pub open spec fn hex_digit(d: u8) -> char {
    if d < 10 {
        (d + 48) as char
    } else {
        (d + 55) as char
    }
}

/// One byte of a path segment, encoded.
pub open spec fn encode_byte(b: u8) -> Seq<char> {
    if is_unreserved(b) {
        seq![b as char]
    } else {
        seq!['%', hex_digit(b / 16), hex_digit(b % 16)]
    }
}

/// The bytes, percent-encoded.
pub open spec fn percent_encode_spec(bytes: Seq<u8>) -> Seq<char>
    decreases bytes.len(),
{
    if bytes.len() == 0 {
        seq![]
    } else {
        percent_encode_spec(bytes.drop_last()) + encode_byte(bytes.last())
    }
}

fn hex_char(d: u8) -> (c: char)
    requires
        d < 16,
    ensures
        c == hex_digit(d),
{
    if d < 10 {
        (d + 48) as char
    } else {
        (d + 55) as char
    }
}

/// Percent-encode a URL path segment: the UTF-8 bytes of the text, each
/// byte other than an unreserved one written `%XX` in upper-case hex.
pub fn percent_encode_path_segment(segment: &str) -> (r: String)
    ensures
        r@ == percent_encode_spec(encode_utf8(segment@)),
{
    let bytes = segment.as_bytes();
    let mut encoded = String::new();
    let mut i: usize = 0;
    while i < bytes.len()
        invariant
            i <= bytes@.len(),
            bytes@ == encode_utf8(segment@),
            encoded@ == percent_encode_spec(bytes@.take(i as int)),
        decreases bytes.len() - i,
    {
        let b = bytes[i];
        let keep = (48 <= b && b <= 57) || (65 <= b && b <= 90) || (97 <= b && b <= 122) || b == 45 || b == 46
            || b == 95 || b == 126;
        let ghost before = encoded@;
        if keep {
            push_char(&mut encoded, b as char);
        } else {
            push_char(&mut encoded, '%');
            push_char(&mut encoded, hex_char(b / 16));
            push_char(&mut encoded, hex_char(b % 16));
        }
        assert(bytes@.take(i + 1).drop_last() =~= bytes@.take(i as int));
        assert(encoded@ =~= before + encode_byte(b));
        i += 1;
    }
    assert(bytes@.take(bytes@.len() as int) =~= bytes@);
    encoded
}

/// A character that may stand in an encoded path segment.
pub open spec fn is_segment_char(c: char) -> bool {
    ('0' <= c && c <= '9') || ('A' <= c && c <= 'Z') || ('a' <= c && c <= 'z') || c == '-' || c == '.' || c == '_'
        || c == '~' || c == '%'
}

/// A percent-encoded segment holds only letters, digits, `-`, `.`, `_`,
/// `~` and `%`: no `/`, space or other character that a URL would read
/// otherwise.
pub proof fn lemma_percent_encoded_is_url_safe(bytes: Seq<u8>)
    ensures
        forall|i: int| 0 <= i < percent_encode_spec(bytes).len() ==> is_segment_char(#[trigger] percent_encode_spec(bytes)[i]),
    decreases bytes.len(),
{
    if bytes.len() > 0 {
        let p = bytes.drop_last();
        lemma_percent_encoded_is_url_safe(p);
        let b = bytes.last();
        let e = encode_byte(b);
        assert forall|k: int| 0 <= k < e.len() implies is_segment_char(#[trigger] e[k]) by {
            if !is_unreserved(b) {
                assert(b / 16 < 16 && b % 16 < 16) by (nonlinear_arith);
            }
        }
        let r = percent_encode_spec(bytes);
        assert forall|i: int| 0 <= i < r.len() implies is_segment_char(#[trigger] r[i]) by {
            let q = percent_encode_spec(p);
            if i < q.len() {
                assert(r[i] == q[i]);
            } else {
                assert(r[i] == e[i - q.len()]);
            }
        }
    }
}

/// The text without trailing `/` characters (`trim_end_matches('/')`).
pub open spec fn trim_trailing_slashes(s: Seq<char>) -> Seq<char>
    decreases s.len(),
{
    if s.len() > 0 && s.last() == '/' {
        trim_trailing_slashes(s.drop_last())
    } else {
        s
    }
}

pub open spec fn stream_url_spec(media_base: Seq<char>, filename: Seq<char>) -> Seq<char> {
    trim_trailing_slashes(media_base) + "/api/media/stream/"@ + percent_encode_spec(encode_utf8(filename))
}

/// The URL under which renderers fetch a media file.
pub fn media_stream_url(media_base: &str, filename: &str) -> (r: String)
    ensures
        r@ == stream_url_spec(media_base@, filename@),
{
    let b = chars_of(media_base);
    let mut end: usize = b.len();
    assert(b@.take(end as int) =~= b@);
    while end > 0 && b[end - 1] == '/'
        invariant
            end <= b@.len(),
            trim_trailing_slashes(b@) == trim_trailing_slashes(b@.take(end as int)),
        decreases end,
    {
        assert(b@.take(end as int).drop_last() =~= b@.take(end - 1));
        end -= 1;
    }
    proof {
        if end > 0 {
            assert(b@.take(end as int).last() == b@[end - 1]);
        }
    }
    let mut r = crate::text::substring(&b, 0, end);
    assert(b@.subrange(0, end as int) =~= b@.take(end as int));
    append(&mut r, "/api/media/stream/");
    let e = percent_encode_path_segment(filename);
    append(&mut r, e.as_str());
    r
}

// ---------------------------------------------------------------------------
// Content types
// ---------------------------------------------------------------------------

/// What `Path::extension` gives on every platform: text after a `.` of the
/// path, holding no `.` and no `/`.
pub open spec fn is_path_extension_of(path: Seq<char>, e: Seq<char>) -> bool {
    &&& !e.contains('.')
    &&& !e.contains('/')
    &&& exists|k: int|
        1 <= k && k + e.len() <= path.len() && path[k - 1] == '.' && #[trigger] path.subrange(k, k + e.len())
            == e
}

/// A path that every platform splits alike: it holds no `\` and does not
/// start with a drive (`C:`), which only Windows reads as a prefix.
pub open spec fn is_portable_path(path: Seq<char>) -> bool {
    &&& !path.contains('\\')
    &&& !(path.len() >= 2 && (('a' <= path[0] <= 'z') || ('A' <= path[0] <= 'Z')) && path[1] == ':')
}

/// The parts of a path that name something: the `/`-separated fields that
/// are neither empty nor `.`, in order.
pub open spec fn named_parts(fields: Seq<Seq<char>>) -> Seq<Seq<char>>
    decreases fields.len(),
{
    if fields.len() == 0 {
        seq![]
    } else {
        let rest = named_parts(fields.drop_last());
        let f = fields.last();
        if f.len() == 0 || f == "."@ {
            rest
        } else {
            rest.push(f)
        }
    }
}

/// `Path::file_name` of a portable path: its last named part, unless that
/// is `..` or there is none.
pub open spec fn file_name_spec(path: Seq<char>) -> Option<Seq<char>> {
    let parts = named_parts(split_fields(path, '/'));
    if parts.len() == 0 || parts.last() == ".."@ {
        None
    } else {
        Some(parts.last())
    }
}

/// Position of the last `c` in `s`.
pub open spec fn last_index_of(s: Seq<char>, c: char) -> Option<int>
    decreases s.len(),
{
    if s.len() == 0 {
        None
    } else if s.last() == c {
        Some(s.len() - 1)
    } else {
        last_index_of(s.drop_last(), c)
    }
}

/// `Path::extension` of a portable path: the text after the final `.` of
/// the file name; none when there is no file name, when it has no `.`, or
/// when its only `.` is its first character.
pub open spec fn path_extension_spec(path: Seq<char>) -> Option<Seq<char>> {
    match file_name_spec(path) {
        None => None,
        Some(n) => match last_index_of(n, '.') {
            Some(i) => if i > 0 {
                Some(n.skip(i + 1))
            } else {
                None
            },
            None => None,
        },
    }
}

/// `std::path::Path::extension` of a path given as text, as text: the part
/// of the file name after its final `.`. On a portable path every platform
/// agrees, and the result is stated exactly; on others (`\` separates only
/// on Windows) only what holds on every platform is stated.
#[verifier::external_body]
fn extension_of_path(path: &str) -> (r: Option<String>)
    ensures
        is_portable_path(path@) ==> opt_view(r) == path_extension_spec(path@),
        r matches Some(e) ==> is_path_extension_of(path@, e@),
{
    std::path::Path::new(path).extension().and_then(|e| e.to_str()).map(|e| e.to_string())
}

/// The content type of a (lower-case) extension.
pub open spec fn content_type_of_ext(ext: Option<Seq<char>>) -> Seq<char> {
    match ext {
        Some(e) => if e == "mp4"@ || e == "m4v"@ || e == "mov"@ {
            "video/mp4"@
        } else if e == "webm"@ {
            "video/webm"@
        } else if e == "ts"@ || e == "m2ts"@ || e == "mts"@ {
            "video/mp2t"@
        } else if e == "avi"@ {
            "video/x-msvideo"@
        } else if e == "mkv"@ {
            "video/x-matroska"@
        } else {
            "application/octet-stream"@
        },
        None => "application/octet-stream"@,
    }
}

/// The content type of a file with the given extension (any case).
pub fn content_type_for_extension(ext: Option<&str>) -> (r: &'static str)
    ensures
        r@ == content_type_of_ext(
            match ext {
                Some(e) => Some(ascii_lower(e@)),
                None => None,
            },
        ),
{
    let e = match ext {
        None => return "application/octet-stream",
        Some(e) => string_of(&to_ascii_lower(&chars_of(e))),
    };
    let s = e.as_str();
    if str_eq(s, "mp4") || str_eq(s, "m4v") || str_eq(s, "mov") {
        "video/mp4"
    } else if str_eq(s, "webm") {
        "video/webm"
    } else if str_eq(s, "ts") || str_eq(s, "m2ts") || str_eq(s, "mts") {
        "video/mp2t"
    } else if str_eq(s, "avi") {
        "video/x-msvideo"
    } else if str_eq(s, "mkv") {
        "video/x-matroska"
    } else {
        "application/octet-stream"
    }
}

/// The content type of an extension, in any case.
pub open spec fn ext_content_type(ext: Option<Seq<char>>) -> Seq<char> {
    content_type_of_ext(
        match ext {
            Some(e) => Some(ascii_lower(e)),
            None => None,
        },
    )
}

/// The content type of each media extension, in any letter case: `mp4`,
/// `m4v` and `mov` are MP4; `webm` is WebM; `ts`, `m2ts` and `mts` are
/// MPEG-TS; `avi` and `mkv` have their own types; any other extension, or
/// none, is `application/octet-stream`.
pub proof fn lemma_media_content_types(e: Seq<char>)
    ensures
        ext_content_type(None) == "application/octet-stream"@,
        ({
            let l = ascii_lower(e);
            let t = ext_content_type(Some(e));
            &&& (l == "mp4"@ || l == "m4v"@ || l == "mov"@) ==> t == "video/mp4"@
            &&& l == "webm"@ ==> t == "video/webm"@
            &&& (l == "ts"@ || l == "m2ts"@ || l == "mts"@) ==> t == "video/mp2t"@
            &&& l == "avi"@ ==> t == "video/x-msvideo"@
            &&& l == "mkv"@ ==> t == "video/x-matroska"@
            &&& !(l == "mp4"@ || l == "m4v"@ || l == "mov"@ || l == "webm"@ || l == "ts"@ || l == "m2ts"@
                || l == "mts"@ || l == "avi"@ || l == "mkv"@) ==> t == "application/octet-stream"@
        }),
{
    // Each extension differs from the others by its length or by one
    // character, so exactly one row of the table applies.
    reveal_strlit("mp4");
    reveal_strlit("m4v");
    reveal_strlit("mov");
    reveal_strlit("webm");
    reveal_strlit("ts");
    reveal_strlit("m2ts");
    reveal_strlit("mts");
    reveal_strlit("avi");
    reveal_strlit("mkv");
    assert("mp4"@[1] != "m4v"@[1]);
    assert("mp4"@[1] != "mov"@[1]);
    assert("mp4"@[1] != "mts"@[1]);
    assert("mp4"@[0] != "avi"@[0]);
    assert("mp4"@[1] != "mkv"@[1]);
    assert("m4v"@[1] != "mov"@[1]);
    assert("m4v"@[1] != "mts"@[1]);
    assert("m4v"@[0] != "avi"@[0]);
    assert("m4v"@[1] != "mkv"@[1]);
    assert("mov"@[1] != "mts"@[1]);
    assert("mov"@[0] != "avi"@[0]);
    assert("mov"@[1] != "mkv"@[1]);
    assert("webm"@[0] != "m2ts"@[0]);
    assert("mts"@[0] != "avi"@[0]);
    assert("mts"@[1] != "mkv"@[1]);
    assert("avi"@[0] != "mkv"@[0]);
}

/// `t` is the content type of some extension that the path can have on
/// some platform.
pub open spec fn content_type_by_path(path: Seq<char>, t: Seq<char>) -> bool {
    exists|ext: Option<Seq<char>>|
        (ext matches Some(e) ==> is_path_extension_of(path, e)) && t == #[trigger] ext_content_type(ext)
}

/// The content type of a media file path, by the extension that
/// `Path::extension` finds; a path without a `.` is
/// `application/octet-stream`.
pub fn content_type_for_path(path: &str) -> (r: &'static str)
    ensures
        is_portable_path(path@) ==> r@ == ext_content_type(path_extension_spec(path@)),
        content_type_by_path(path@, r@),
        !path@.contains('.') ==> r@ == "application/octet-stream"@,
{
    let ext = extension_of_path(path);
    let r = match &ext {
        Some(e) => content_type_for_extension(Some(e.as_str())),
        None => content_type_for_extension(None),
    };
    assert(r@ == ext_content_type(opt_view(ext)));
    proof {
        if !path@.contains('.') {
            if let Some(e) = ext {
                let k = choose|k: int|
                    1 <= k && k + e@.len() <= path@.len() && path@[k - 1] == '.' && #[trigger] path@.subrange(
                        k,
                        k + e@.len(),
                    ) == e@;
                assert(path@[k - 1] == '.');
            }
        }
    }
    r
}

/// The content type of a web UI asset by the text after its last dot.
pub open spec fn asset_type_spec(ext: Seq<char>) -> Seq<char> {
    if ext == "js"@ {
        "application/javascript"@
    } else if ext == "css"@ {
        "text/css"@
    } else if ext == "html"@ {
        "text/html"@
    } else if ext == "ico"@ {
        "image/x-icon"@
    } else if ext == "png"@ {
        "image/png"@
    } else if ext == "jpg"@ || ext == "jpeg"@ {
        "image/jpeg"@
    } else if ext == "svg"@ {
        "image/svg+xml"@
    } else if ext == "woff"@ {
        "font/woff"@
    } else if ext == "woff2"@ {
        "font/woff2"@
    } else {
        "application/octet-stream"@
    }
}

/// The content type of a web UI asset path.
pub fn asset_content_type(path: &str) -> (r: &'static str)
    ensures
        r@ == asset_type_spec(last_dot_field(path@)),
{
    let e = crate::api::extension_of(path);
    let s = e.as_str();
    if str_eq(s, "js") {
        "application/javascript"
    } else if str_eq(s, "css") {
        "text/css"
    } else if str_eq(s, "html") {
        "text/html"
    } else if str_eq(s, "ico") {
        "image/x-icon"
    } else if str_eq(s, "png") {
        "image/png"
    } else if str_eq(s, "jpg") || str_eq(s, "jpeg") {
        "image/jpeg"
    } else if str_eq(s, "svg") {
        "image/svg+xml"
    } else if str_eq(s, "woff") {
        "font/woff"
    } else if str_eq(s, "woff2") {
        "font/woff2"
    } else {
        "application/octet-stream"
    }
}

/// The ports tried for the API server: the preferred one and the ten after it.
pub fn fallback_ports(port: u16) -> (r: Vec<u16>)
    requires
        port <= 65525,
    ensures
        r@.len() == 11,
        forall|i: int| 0 <= i < 11 ==> r@[i] == port + i,
{
    let mut r: Vec<u16> = Vec::new();
    let mut k: u16 = 0;
    while k <= 10
        invariant
            k <= 11,
            port <= 65525,
            r@.len() == k,
            forall|i: int| 0 <= i < k ==> r@[i] == port + i,
        decreases 11 - k,
    {
        r.push(port + k);
        k += 1;
    }
    r
}

/// A media file ready to be served.
#[derive(Debug, Clone)]
pub enum PreparedMedia {
    /// The file as it is.
    Original(String),
    /// Its streams copied into MPEG-TS.
    Remuxed(String),
    /// Converted to H.264 and AAC in MPEG-TS.
    Transcoded(String),
}

impl PreparedMedia {
    pub open spec fn path_spec(&self) -> Seq<char> {
        match self {
            PreparedMedia::Original(p) => p@,
            PreparedMedia::Remuxed(p) => p@,
            PreparedMedia::Transcoded(p) => p@,
        }
    }

    /// Path of the file to serve.
    pub fn path(&self) -> (r: &String)
        ensures
            r@ == self.path_spec(),
    {
        match self {
            PreparedMedia::Original(path) => path,
            PreparedMedia::Remuxed(path) => path,
            PreparedMedia::Transcoded(path) => path,
        }
    }

    /// Content type: by extension for the original file, MPEG-TS otherwise.
    pub fn content_type(&self) -> (r: &'static str)
        ensures
            self is Original && is_portable_path(self.path_spec()) ==> r@ == ext_content_type(
                path_extension_spec(self.path_spec()),
            ),
            self is Original ==> content_type_by_path(self.path_spec(), r@),
            self is Original && !self.path_spec().contains('.') ==> r@ == "application/octet-stream"@,
            !(self is Original) ==> r@ == "video/mp2t"@,
    {
        match self {
            PreparedMedia::Original(path) => content_type_for_path(path.as_str()),
            PreparedMedia::Remuxed(_) => "video/mp2t",
            PreparedMedia::Transcoded(_) => "video/mp2t",
        }
    }

    /// Whether the file is streamed through FFmpeg (to loop it) rather
    /// than sent as it is.
    pub fn needs_loop_stream(&self, loop_playback: bool) -> (r: bool)
        ensures
            r == loop_playback,
    {
        loop_playback
    }
}

/// FFmpeg arguments that stream a file as MPEG-TS to standard output at
/// its own pace, copying its first video and audio stream, looping it
/// without end when asked.
pub open spec fn stream_copy_args_spec(path: Seq<char>, loop_playback: bool) -> Seq<Seq<char>> {
    seq!["-hide_banner"@, "-loglevel"@, "warning"@, "-nostdin"@] + (if loop_playback {
        seq!["-stream_loop"@, "-1"@]
    } else {
        seq![]
    }) + seq![
        "-re"@,
        "-i"@,
        path,
        "-map"@,
        "0:v:0"@,
        "-map"@,
        "0:a:0?"@,
        "-c"@,
        "copy"@,
        "-f"@,
        "mpegts"@,
        "-mpegts_flags"@,
        "+resend_headers"@,
        "-"@,
    ]
}

/// The arguments of the FFmpeg process that streams a file.
pub fn stream_copy_args(path: &str, loop_playback: bool) -> (r: Vec<String>)
    ensures
        strings_view(r@) == stream_copy_args_spec(path@, loop_playback),
{
    let mut r: Vec<String> = vec![
        "-hide_banner".to_string(),
        "-loglevel".to_string(),
        "warning".to_string(),
        "-nostdin".to_string(),
    ];
    let ghost head = strings_view(r@);
    if loop_playback {
        r.push("-stream_loop".to_string());
        r.push("-1".to_string());
    }
    let ghost mid = strings_view(r@);
    let tail: Vec<String> = vec![
        "-re".to_string(),
        "-i".to_string(),
        path.to_string(),
        "-map".to_string(),
        "0:v:0".to_string(),
        "-map".to_string(),
        "0:a:0?".to_string(),
        "-c".to_string(),
        "copy".to_string(),
        "-f".to_string(),
        "mpegts".to_string(),
        "-mpegts_flags".to_string(),
        "+resend_headers".to_string(),
        "-".to_string(),
    ];
    let mut t = tail;
    let ghost tv = strings_view(t@);
    r.append(&mut t);
    assert(strings_view(r@) =~= mid + tv);
    assert(strings_view(r@) =~= stream_copy_args_spec(path@, loop_playback));
    r
}

// ---------------------------------------------------------------------------
// The media library
// ---------------------------------------------------------------------------

/// What the file system says of a file.
#[derive(Debug, Clone, Copy)]
pub struct FileMeta {
    pub size: u64,
    /// Modification time in seconds since the Unix epoch, when known.
    pub modified: Option<u64>,
    pub is_file: bool,
}

/// The texts are in the order of `str`.
pub open spec fn texts_sorted(s: Seq<Seq<char>>) -> bool {
    forall|i: int, j: int| 0 <= i < j < s.len() ==> text_le(#[trigger] s[i], #[trigger] s[j])
}

proof fn lemma_insert_sorted(s: Seq<Seq<char>>, k: int, x: Seq<char>)
    requires
        texts_sorted(s),
        0 <= k <= s.len(),
        forall|j: int| 0 <= j < k ==> text_le(#[trigger] s[j], x),
        k < s.len() ==> !text_le(s[k], x),
    ensures
        texts_sorted(s.insert(k, x)),
{
    let t = s.insert(k, x);
    if k < s.len() {
        lemma_text_le_total(s[k], x);
    }
    assert forall|i: int, j: int| 0 <= i < j < t.len() implies text_le(#[trigger] t[i], #[trigger] t[j]) by {
        if j < k {
            assert(t[i] == s[i] && t[j] == s[j]);
        } else if j == k {
            assert(t[i] == s[i] && t[j] == x);
        } else if i < k {
            assert(t[i] == s[i] && t[j] == s[j - 1]);
        } else if i == k {
            assert(t[i] == x && t[j] == s[j - 1]);
            if j - 1 > k {
                lemma_text_le_transitive(x, s[k], s[j - 1]);
            }
        } else {
            assert(t[i] == s[i - 1] && t[j] == s[j - 1]);
        }
    }
}

/// Media file names in the order the listing shows them, the order of
/// `str`: the same names, sorted.
pub fn sort_media_names(names: Vec<String>) -> (r: Vec<String>)
    ensures
        texts_sorted(strings_view(r@)),
        r@.to_multiset() == names@.to_multiset(),
{
    broadcast use vstd::seq_lib::group_to_multiset_ensures, vstd::multiset::group_multiset_axioms;

    let ghost all = names@;
    let mut rest = names;
    let mut out: Vec<String> = Vec::new();
    assert(out@.to_multiset() =~= Multiset::empty());
    assert(Multiset::<String>::empty().add(rest@.to_multiset()) =~= rest@.to_multiset());
    while rest.len() > 0
        invariant
            texts_sorted(strings_view(out@)),
            out@.to_multiset().add(rest@.to_multiset()) == all.to_multiset(),
        decreases rest.len(),
    {
        let ghost before = rest@;
        let x = match rest.pop() {
            Some(x) => x,
            None => {
                assert(false);
                return out;
            },
        };
        assert(before =~= rest@.push(x));
        let mut k: usize = 0;
        let mut done = false;
        while k < out.len() && !done
            invariant
                k <= out@.len(),
                forall|j: int| 0 <= j < k ==> text_le(#[trigger] out@[j]@, x@),
                done ==> k < out@.len() && !text_le(out@[k as int]@, x@),
            decreases out.len() - k + (if done { 0int } else { 1int }),
        {
            if text_le_exec(out[k].as_str(), x.as_str()) {
                k += 1;
            } else {
                done = true;
            }
        }
        let ghost sv = strings_view(out@);
        proof {
            assert forall|j: int| 0 <= j < k implies text_le(#[trigger] sv[j], x@) by {
                assert(sv[j] == out@[j]@);
            }
            if k < out@.len() {
                assert(sv[k as int] == out@[k as int]@);
            }
            lemma_insert_sorted(sv, k as int, x@);
        }
        let ghost old_out = out@;
        out.insert(k, x);
        proof {
            assert(strings_view(out@) =~= sv.insert(k as int, x@));
            vstd::seq_lib::to_multiset_insert(old_out, k as int, x);
            vstd::seq_lib::to_multiset_build(rest@, x);
            assert(out@.to_multiset() == old_out.to_multiset().insert(x));
            assert(before.to_multiset() == rest@.to_multiset().insert(x));
            assert(out@.to_multiset().add(rest@.to_multiset()) =~= old_out.to_multiset().add(before.to_multiset()));
        }
    }
    assert(rest@.to_multiset() =~= Multiset::empty());
    assert(out@.to_multiset().add(Multiset::empty()) =~= out@.to_multiset());
    out
}

/// A media file as the API lists it.
#[derive(Debug, Clone)]
pub struct MediaFileInfo {
    pub name: String,
    pub size: u64,
    pub modified: Option<u64>,
    pub extension: String,
}

/// The extension that the upload check gives a file name, when it passes.
pub open spec fn upload_name_ok(filename: Seq<char>) -> bool {
    let ext = unicode_lowercase(last_dot_field(filename));
    &&& !is_unsafe_filename(filename)
    &&& !starts_with(filename, "."@)
    &&& ext != unicode_lowercase(filename)
    &&& is_allowed_extension(ext)
}

/// Describe a media file, given what the file system says of it (or why
/// it could not): its name must pass the upload check, and it must be a
/// file.
pub fn media_file_info(filename: &str, metadata: Result<FileMeta, String>) -> (r: Result<MediaFileInfo, ApiError>)
    ensures
        upload_name_refusal(filename@) matches Some(m) ==> (r matches Err(e) && is_error(e, STATUS_BAD_REQUEST, m)),
        upload_name_ok(filename@) ==> match metadata {
            Err(d) => r matches Err(e) && is_error(e, STATUS_NOT_FOUND, "Media file not found: "@ + d@),
            Ok(m) => if !m.is_file {
                r matches Err(e) && is_error(e, STATUS_NOT_FOUND, "Media file not found"@)
            } else {
                r matches Ok(info) && info.name@ == filename@ && info.size == m.size && info.modified
                    == m.modified && info.extension@ == unicode_lowercase(last_dot_field(filename@))
            },
        },
{
    let ext = match validate_media_upload_filename(filename) {
        Err(e) => return Err(e),
        Ok(ext) => ext,
    };
    let m = match metadata {
        Err(d) => {
            let mut msg = "Media file not found: ".to_string();
            append(&mut msg, d.as_str());
            return Err(error_response(STATUS_NOT_FOUND, msg));
        },
        Ok(m) => m,
    };
    if !m.is_file {
        return Err(error_response(STATUS_NOT_FOUND, "Media file not found".to_string()));
    }
    Ok(MediaFileInfo { name: filename.to_string(), size: m.size, modified: m.modified, extension: ext })
}

/// Check an upload before it is written: the name must pass the upload
/// check and no file of that name may exist.
pub fn check_upload_target(filename: &str, dest_exists: bool) -> (r: Result<String, ApiError>)
    ensures
        upload_name_refusal(filename@) matches Some(m) ==> (r matches Err(e) && is_error(e, STATUS_BAD_REQUEST, m)),
        upload_name_ok(filename@) && dest_exists ==> (r matches Err(e) && is_error(
            e,
            STATUS_CONFLICT,
            "Media file already exists: "@ + filename@,
        )),
        upload_name_ok(filename@) && !dest_exists ==> (r matches Ok(x) && x@ == unicode_lowercase(
            last_dot_field(filename@),
        )),
{
    let ext = match validate_media_upload_filename(filename) {
        Err(e) => return Err(e),
        Ok(ext) => ext,
    };
    if dest_exists {
        let mut msg = "Media file already exists: ".to_string();
        append(&mut msg, filename);
        return Err(error_response(STATUS_CONFLICT, msg));
    }
    Ok(ext)
}

/// What renaming a media file comes to.
#[derive(Debug, Clone, Copy, PartialEq, Eq, Structural)]
pub enum RenamePlan {
    /// The new name is the old one: nothing to do.
    Unchanged,
    /// Rename the file.
    Rename,
}

/// Check a rename: both names must pass the upload check; renaming to the
/// same name does nothing; else the file must exist and the new name be
/// free.
pub fn check_rename(filename: &str, new_name: &str, old_exists: bool, new_exists: bool) -> (r: Result<
    RenamePlan,
    ApiError,
>)
    ensures
        upload_name_refusal(filename@) matches Some(m) ==> (r matches Err(e) && is_error(e, STATUS_BAD_REQUEST, m)),
        upload_name_ok(filename@) ==> (upload_name_refusal(new_name@) matches Some(m) ==> (r matches Err(e)
            && is_error(e, STATUS_BAD_REQUEST, m))),
        upload_name_ok(filename@) && upload_name_ok(new_name@) ==> {
            if filename@ == new_name@ {
                r == Ok::<RenamePlan, ApiError>(RenamePlan::Unchanged)
            } else if !old_exists {
                r matches Err(e) && is_error(e, STATUS_NOT_FOUND, "Media file not found"@)
            } else if new_exists {
                r matches Err(e) && is_error(e, STATUS_CONFLICT, "Media file already exists: "@ + new_name@)
            } else {
                r == Ok::<RenamePlan, ApiError>(RenamePlan::Rename)
            }
        },
{
    match validate_media_upload_filename(filename) {
        Err(e) => return Err(e),
        Ok(_) => {},
    }
    match validate_media_upload_filename(new_name) {
        Err(e) => return Err(e),
        Ok(_) => {},
    }
    if str_eq(filename, new_name) {
        return Ok(RenamePlan::Unchanged);
    }
    if !old_exists {
        return Err(error_response(STATUS_NOT_FOUND, "Media file not found".to_string()));
    }
    if new_exists {
        let mut msg = "Media file already exists: ".to_string();
        append(&mut msg, new_name);
        return Err(error_response(STATUS_CONFLICT, msg));
    }
    Ok(RenamePlan::Rename)
}

/// Check a delete: the name must pass the upload check and the file exist.
pub fn check_delete(filename: &str, exists: bool) -> (r: Result<(), ApiError>)
    ensures
        upload_name_refusal(filename@) matches Some(m) ==> (r matches Err(e) && is_error(e, STATUS_BAD_REQUEST, m)),
        upload_name_ok(filename@) && !exists ==> (r matches Err(e) && is_error(e, STATUS_NOT_FOUND, "Media file not found"@)),
        upload_name_ok(filename@) && exists ==> r is Ok,
{
    match validate_media_upload_filename(filename) {
        Err(e) => return Err(e),
        Ok(_) => {},
    }
    if !exists {
        return Err(error_response(STATUS_NOT_FOUND, "Media file not found".to_string()));
    }
    Ok(())
}

/// A temporary upload name: `.uploading-`, 32 lower-case hexadecimal
/// digits, `.tmp`.
pub open spec fn is_upload_temp_name(n: Seq<char>) -> bool {
    exists|id: Seq<char>|
        id.len() == 32 && (forall|i: int| 0 <= i < 32 ==> crate::auth::is_lower_hex(#[trigger] id[i])) && n
            == ".uploading-"@ + id + ".tmp"@
}

/// Name of the file an upload is written to before it is moved into place:
/// a random version-4 UUID between `.uploading-` and `.tmp`.
pub fn upload_temp_name() -> (r: String)
    ensures
        is_upload_temp_name(r@),
        r@.len() == ".uploading-"@.len() + 32 + ".tmp"@.len(),
        starts_with(r@, ".uploading-"@),
{
    let id = crate::auth::new_uuid_v4_simple();
    let mut r = ".uploading-".to_string();
    append(&mut r, id.as_str());
    append(&mut r, ".tmp");
    assert(r@.subrange(0, ".uploading-"@.len() as int) =~= ".uploading-"@);
    assert(r@ == ".uploading-"@ + id@ + ".tmp"@);
    r
}

} // verus!
