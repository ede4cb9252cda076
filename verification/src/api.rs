//! Errors of the HTTP API and the checks on what clients send: media file
//! names, device aliases and encoder preferences.
use vstd::prelude::*;
use crate::text::{
    append, chars_of, contains, contains_str, push_decimal, decimal, split_fields, split_on, starts_with,
    string_of, to_lowercase, trim, trim_exec, unicode_lowercase, views,
};

verus! {

pub const STATUS_BAD_REQUEST: u16 = 400;
pub const STATUS_UNAUTHORIZED: u16 = 401;
pub const STATUS_NOT_FOUND: u16 = 404;
pub const STATUS_CONFLICT: u16 = 409;
pub const STATUS_INTERNAL_SERVER_ERROR: u16 = 500;
pub const STATUS_BAD_GATEWAY: u16 = 502;

/// Longest device alias, in characters.
pub const MAX_DEVICE_ALIAS_CHARS: usize = 64;

/// An error answer of the API: an HTTP status and a message.
#[derive(Debug, Clone)]
pub struct ApiError {
    pub status: u16,
    pub message: String,
}

/// `e` has the given status and message.
pub open spec fn is_error(e: ApiError, status: u16, message: Seq<char>) -> bool {
    e.status == status && e.message@ == message
}

/// An API error.
pub fn error_response(status: u16, message: String) -> (e: ApiError)
    ensures
        e.status == status,
        e.message == message,
{
    ApiError { status, message }
}

fn error_with(status: u16, message: &str) -> (e: ApiError)
    ensures
        is_error(e, status, message@),
{
    ApiError { status, message: message.to_string() }
}

/// A media file name that could leave the media directory, or is empty.
pub open spec fn is_unsafe_filename(f: Seq<char>) -> bool {
    ||| f.len() == 0
    ||| contains(f, "/"@)
    ||| contains(f, "\\"@)
    ||| contains(f, ".."@)
    ||| contains(f, "\0"@)
}

/// Refuse a media file name that is empty or could name a file outside the
/// media directory.
pub fn validate_media_filename(filename: &str) -> (r: Result<(), ApiError>)
    ensures
        is_unsafe_filename(filename@) <==> r is Err,
        r matches Err(e) ==> is_error(e, STATUS_BAD_REQUEST, "Invalid media filename"@),
{
    let f = chars_of(filename);
    if f.len() == 0 || contains_str(&f, "/") || contains_str(&f, "\\") || contains_str(&f, "..") || contains_str(
        &f,
        "\0",
    ) {
        return Err(error_with(STATUS_BAD_REQUEST, "Invalid media filename"));
    }
    Ok(())
}

/// Extensions of the media files that can be uploaded.
pub open spec fn is_allowed_extension(e: Seq<char>) -> bool {
    e == "mp4"@ || e == "webm"@ || e == "avi"@ || e == "mkv"@ || e == "mov"@
}

/// Whether uploads may have this (lower-case) extension.
pub fn is_allowed_media_extension(e: &str) -> (r: bool)
    ensures
        r == is_allowed_extension(e@),
{
    let v = chars_of(e);
    crate::text::chars_eq(&v, &chars_of("mp4")) || crate::text::chars_eq(&v, &chars_of("webm"))
        || crate::text::chars_eq(&v, &chars_of("avi")) || crate::text::chars_eq(&v, &chars_of("mkv"))
        || crate::text::chars_eq(&v, &chars_of("mov"))
}

/// The message for an extension that is refused.
pub open spec fn bad_extension_message(ext: Seq<char>) -> Seq<char> {
    "Invalid file extension '"@ + ext + "'. Allowed: [\"mp4\", \"webm\", \"avi\", \"mkv\", \"mov\"]"@
}

/// Judge an extension, given it and the whole file name in lower case: a
/// file name without a dot (whose extension is the whole name) or an
/// extension outside the allowed ones is refused.
pub fn check_media_extension(ext_lower: &str, filename_lower: &str) -> (r: Result<String, ApiError>)
    ensures
        (ext_lower@ == filename_lower@ || !is_allowed_extension(ext_lower@)) <==> r is Err,
        r matches Ok(e) ==> e@ == ext_lower@,
        r matches Err(e) ==> is_error(e, STATUS_BAD_REQUEST, bad_extension_message(ext_lower@)),
{
    if crate::text::str_eq(ext_lower, filename_lower) || !is_allowed_media_extension(ext_lower) {
        let mut m = "Invalid file extension '".to_string();
        append(&mut m, ext_lower);
        append(&mut m, "'. Allowed: [\"mp4\", \"webm\", \"avi\", \"mkv\", \"mov\"]");
        return Err(ApiError { status: STATUS_BAD_REQUEST, message: m });
    }
    Ok(ext_lower.to_string())
}

/// The text after the last `.` of a file name (all of it when it has none).
pub open spec fn last_dot_field(f: Seq<char>) -> Seq<char> {
    split_fields(f, '.').last()
}

/// The fields of a split are never none.
pub proof fn lemma_split_fields_nonempty(s: Seq<char>, c: char)
    ensures
        split_fields(s, c).len() > 0,
    decreases s.len(),
{
    match crate::text::find(s, seq![c]) {
        Some(k) => if 0 <= k < s.len() {
            lemma_split_fields_nonempty(s.skip(k + 1), c);
        },
        None => {},
    }
}

/// The text after the last `.` of a file name.
pub fn extension_of(filename: &str) -> (r: String)
    ensures
        r@ == last_dot_field(filename@),
{
    let f = chars_of(filename);
    let parts = split_on(&f, '.');
    proof {
        lemma_split_fields_nonempty(filename@, '.');
    }
    let last = &parts[parts.len() - 1];
    assert(views(parts@)[parts@.len() - 1] == last@);
    string_of(last)
}

/// The lower-case extension of a media file name, which must be one of
/// `mp4`, `webm`, `avi`, `mkv`, `mov`.
pub fn validate_media_extension(filename: &str) -> (r: Result<String, ApiError>)
    ensures
        ({
            let ext = unicode_lowercase(last_dot_field(filename@));
            &&& (ext == unicode_lowercase(filename@) || !is_allowed_extension(ext)) <==> r is Err
            &&& r matches Ok(e) ==> e@ == ext
            &&& r matches Err(e) ==> is_error(e, STATUS_BAD_REQUEST, bad_extension_message(ext))
        }),
{
    let ext = extension_of(filename);
    let ext_lower = to_lowercase(ext.as_str());
    let name_lower = to_lowercase(filename);
    check_media_extension(ext_lower.as_str(), name_lower.as_str())
}

/// The message with which the upload check refuses a file name; none when
/// the name passes.
pub open spec fn upload_name_refusal(f: Seq<char>) -> Option<Seq<char>> {
    if is_unsafe_filename(f) {
        Some("Invalid media filename"@)
    } else if starts_with(f, "."@) {
        Some("Media filename must not start with a dot"@)
    } else {
        let ext = unicode_lowercase(last_dot_field(f));
        if ext == unicode_lowercase(f) || !is_allowed_extension(ext) {
            Some(bad_extension_message(ext))
        } else {
            None
        }
    }
}

/// Check the name of a file to upload: a safe name, not hidden, with an
/// allowed extension, which is returned in lower case.
pub fn validate_media_upload_filename(filename: &str) -> (r: Result<String, ApiError>)
    ensures
        is_unsafe_filename(filename@) ==> (r matches Err(e) && is_error(e, STATUS_BAD_REQUEST, "Invalid media filename"@)),
        !is_unsafe_filename(filename@) && starts_with(filename@, "."@) ==> (r matches Err(e) && is_error(
            e,
            STATUS_BAD_REQUEST,
            "Media filename must not start with a dot"@,
        )),
        !is_unsafe_filename(filename@) && !starts_with(filename@, "."@) ==> ({
            let ext = unicode_lowercase(last_dot_field(filename@));
            &&& (ext == unicode_lowercase(filename@) || !is_allowed_extension(ext)) <==> r is Err
            &&& r matches Ok(e) ==> e@ == ext
            &&& r matches Err(e) ==> is_error(e, STATUS_BAD_REQUEST, bad_extension_message(ext))
        }),
        upload_name_refusal(filename@) matches Some(m) ==> (r matches Err(e) && is_error(e, STATUS_BAD_REQUEST, m)),
        upload_name_refusal(filename@) is None ==> (r matches Ok(x) && x@ == unicode_lowercase(
            last_dot_field(filename@),
        )),
{
    match validate_media_filename(filename) {
        Err(e) => return Err(e),
        Ok(()) => {},
    }
    let f = chars_of(filename);
    if crate::text::starts_with_exec(&f, &chars_of(".")) {
        return Err(error_with(STATUS_BAD_REQUEST, "Media filename must not start with a dot"));
    }
    validate_media_extension(filename)
}

/// What a requested device alias becomes: none when absent or blank, else
/// trimmed; refused when it holds a NUL character or is too long.
pub open spec fn alias_outcome(alias: Option<Seq<char>>) -> Result<Option<Seq<char>>, Seq<char>> {
    match alias {
        None => Ok(None),
        Some(a) => if contains(a, "\0"@) {
            Err("Invalid device alias"@)
        } else if trim(a).len() == 0 {
            Ok(None)
        } else if trim(a).len() > MAX_DEVICE_ALIAS_CHARS {
            Err("Device alias must be "@ + decimal(MAX_DEVICE_ALIAS_CHARS as nat) + " characters or fewer"@)
        } else {
            Ok(Some(trim(a)))
        },
    }
}

/// Normalise a device alias: trimmed, blank meaning none, at most
/// `MAX_DEVICE_ALIAS_CHARS` characters.
pub fn normalize_device_alias(alias: Option<String>) -> (r: Result<Option<String>, ApiError>)
    ensures
        match alias_outcome(crate::text::opt_view(alias)) {
            Ok(a) => r matches Ok(x) && crate::text::opt_view(x) == a,
            Err(m) => r matches Err(e) && is_error(e, STATUS_BAD_REQUEST, m),
        },
{
    let a = match alias {
        None => return Ok(None),
        Some(a) => a,
    };
    let v = chars_of(a.as_str());
    if contains_str(&v, "\0") {
        return Err(error_with(STATUS_BAD_REQUEST, "Invalid device alias"));
    }
    let t = trim_exec(&v);
    if t.len() == 0 {
        return Ok(None);
    }
    if t.len() > MAX_DEVICE_ALIAS_CHARS {
        let mut m = "Device alias must be ".to_string();
        push_decimal(&mut m, MAX_DEVICE_ALIAS_CHARS as u64);
        append(&mut m, " characters or fewer");
        return Err(ApiError { status: STATUS_BAD_REQUEST, message: m });
    }
    Ok(Some(string_of(&t)))
}

/// Encoder preferences that can be set.
pub open spec fn is_valid_encoder_preference_spec(p: Seq<char>) -> bool {
    p == "auto"@ || p == "nvidia"@ || p == "amd"@ || p == "intel"@ || p == "apple"@ || p == "vaapi"@ || p
        == "software"@
}

/// Check an encoder preference sent by a client.
pub fn validate_encoder_preference(pref: &str) -> (r: Result<(), ApiError>)
    ensures
        is_valid_encoder_preference_spec(pref@) <==> r is Ok,
        r matches Err(e) ==> is_error(e, STATUS_BAD_REQUEST, "Invalid encoder"@),
{
    let valid = crate::text::str_eq(pref, "auto") || crate::text::str_eq(pref, "nvidia") || crate::text::str_eq(
        pref,
        "amd",
    ) || crate::text::str_eq(pref, "intel") || crate::text::str_eq(pref, "apple") || crate::text::str_eq(
        pref,
        "vaapi",
    ) || crate::text::str_eq(pref, "software");
    if !valid {
        return Err(error_with(STATUS_BAD_REQUEST, "Invalid encoder"));
    }
    Ok(())
}

} // verus!
