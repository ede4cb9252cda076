//! The cache of converted media files: where each file goes, when it is
//! still good, and the FFmpeg command that fills it.
use vstd::prelude::*;
use crate::text::{append, chars_of, ends_with, push_char, slice_vec, starts_with, starts_with_exec, string_of, strings_view, trim};

verus! {

/// The main path separator of a platform: `\` on Windows, `/` elsewhere.
pub open spec fn is_path_separator(sep: char) -> bool {
    sep == '/' || sep == '\\'
}

/// `std::path::MAIN_SEPARATOR`: the separator that `Path::join` inserts
/// on this platform (`\` on Windows, `/` elsewhere). Which one it is
/// depends on the platform, so only that it is one of the two is stated.
#[verifier::external_body]
pub(crate) fn main_separator() -> (sep: char)
    ensures
        is_path_separator(sep),
{
    std::path::MAIN_SEPARATOR
}

/// `c` separates path parts where the main separator is `sep`: `/`
/// everywhere, `\` on Windows too.
pub open spec fn is_sep_on(c: char, sep: char) -> bool {
    c == '/' || c == sep
}

/// A path that starts with a drive (`C:`), which Windows reads as a prefix.
pub open spec fn has_drive(p: Seq<char>) -> bool {
    p.len() >= 2 && (('a' <= p[0] <= 'z') || ('A' <= p[0] <= 'Z')) && p[1] == ':'
}

/// `Path::join` where the main separator is `sep`: a relative `name` goes
/// below `dir` with one separator (none after a separator, or after a bare
/// drive on Windows); a rooted `name` replaces `dir` (keeping its drive on
/// Windows), and on Windows a `name` with a drive replaces it wholly. (UNC
/// and verbatim prefixes, which need `\\`, are read as plain roots.)
pub open spec fn join_spec(dir: Seq<char>, name: Seq<char>, sep: char) -> Seq<char> {
    let windows = sep == '\\';
    if windows && has_drive(name) {
        name
    } else if name.len() > 0 && is_sep_on(name[0], sep) {
        if windows && has_drive(dir) {
            dir.take(2) + name
        } else {
            name
        }
    } else if dir.len() == 0 || is_sep_on(dir.last(), sep) || (windows && dir.len() == 2 && has_drive(dir)) {
        dir + name
    } else {
        dir + seq![sep] + name
    }
}

fn is_drive_start(p: &Vec<char>) -> (r: bool)
    ensures
        r == has_drive(p@),
{
    p.len() >= 2 && (('a' <= p[0] && p[0] <= 'z') || ('A' <= p[0] && p[0] <= 'Z')) && p[1] == ':'
}

/// Join a name to a directory path where the main separator is `sep`.
pub fn path_join_with(dir: &str, name: &str, sep: char) -> (r: String)
    ensures
        r@ == join_spec(dir@, name@, sep),
{
    let n = chars_of(name);
    let d = chars_of(dir);
    let windows = sep == '\\';
    if windows && is_drive_start(&n) {
        return name.to_string();
    }
    if n.len() > 0 && (n[0] == '/' || n[0] == sep) {
        if windows && is_drive_start(&d) {
            let mut r = string_of(&slice_vec(&d, 0, 2));
            append(&mut r, name);
            assert(d@.subrange(0, 2) =~= d@.take(2));
            return r;
        }
        return name.to_string();
    }
    let mut r = dir.to_string();
    if d.len() == 0 || d[d.len() - 1] == '/' || d[d.len() - 1] == sep || (windows && d.len() == 2
        && is_drive_start(&d)) {
        append(&mut r, name);
    } else {
        push_char(&mut r, sep);
        append(&mut r, name);
        assert(r@ =~= dir@ + seq![sep] + name@);
    }
    r
}

/// The `join_spec` of some platform's separator.
pub open spec fn joined(r: Seq<char>, dir: Seq<char>, name: Seq<char>) -> bool {
    exists|sep: char| is_path_separator(sep) && r == #[trigger] join_spec(dir, name, sep)
}

/// Join a file or directory name to a directory path, as `Path::join` does
/// on this platform.
pub fn path_join(dir: &str, name: &str) -> (r: String)
    ensures
        joined(r@, dir@, name@),
{
    let sep = main_separator();
    let r = path_join_with(dir, name, sep);
    assert(r@ == join_spec(dir@, name@, sep));
    r
}

/// Directory of the cache: `.cache` in the media directory.
pub open spec fn cache_dir_spec(media_dir: Seq<char>, sep: char) -> Seq<char> {
    join_spec(media_dir, ".cache"@, sep)
}

/// The cache directory of a media directory.
pub fn get_cache_dir(media_dir: &str) -> (r: String)
    ensures
        joined(r@, media_dir@, ".cache"@),
{
    path_join(media_dir, ".cache")
}

/// The kinds of converted files.
#[derive(Debug, Clone, Copy, PartialEq, Eq, Structural)]
pub enum CacheProfile {
    /// The streams copied into MPEG-TS.
    RemuxTs,
    /// Converted to H.264 and AAC in MPEG-TS.
    TranscodedH264Aac,
}

pub open spec fn suffix_spec(p: CacheProfile) -> Seq<char> {
    match p {
        CacheProfile::RemuxTs => "dlna-remux-ts-v1"@,
        CacheProfile::TranscodedH264Aac => "dlna-h264-aac-v2"@,
    }
}

impl CacheProfile {
    /// Tag of the kind in the names of cached files.
    pub fn suffix(self) -> (r: &'static str)
        ensures
            r@ == suffix_spec(self),
    {
        match self {
            CacheProfile::RemuxTs => "dlna-remux-ts-v1",
            CacheProfile::TranscodedH264Aac => "dlna-h264-aac-v2",
        }
    }
}

/// Characters that may not stand in a cached file name.
pub open spec fn is_unsafe_path_char(c: char) -> bool {
    c == '/' || c == '\\' || c == ':' || c == '*' || c == '?' || c == '"' || c == '<' || c == '>' || c == '|'
}

/// The file name with each unsafe character replaced by `_`.
pub open spec fn sanitize_spec(name: Seq<char>) -> Seq<char> {
    name.map_values(|c: char| if is_unsafe_path_char(c) { '_' } else { c })
}

/// Replace each character that may not stand in a file name by `_`.
pub fn sanitize_file_name(name: &str) -> (r: String)
    ensures
        r@ == sanitize_spec(name@),
{
    let v = chars_of(name);
    let mut r = String::new();
    let mut i: usize = 0;
    while i < v.len()
        invariant
            i <= v@.len(),
            v@ == name@,
            r@ == sanitize_spec(v@.take(i as int)),
        decreases v.len() - i,
    {
        let c = v[i];
        let unsafe_char = c == '/' || c == '\\' || c == ':' || c == '*' || c == '?' || c == '"' || c == '<'
            || c == '>' || c == '|';
        if unsafe_char {
            push_char(&mut r, '_');
        } else {
            push_char(&mut r, c);
        }
        assert(sanitize_spec(v@.take(i + 1)) =~= sanitize_spec(v@.take(i as int)).push(
            if is_unsafe_path_char(c) {
                '_'
            } else {
                c
            },
        ));
        i += 1;
    }
    assert(v@.take(v@.len() as int) =~= v@);
    r
}

/// Name of the cached file: `<sanitized name>.<kind tag>.ts`.
pub open spec fn cached_name_spec(filename: Seq<char>, profile: CacheProfile) -> Seq<char> {
    sanitize_spec(filename) + "."@ + suffix_spec(profile) + ".ts"@
}

pub open spec fn cache_path_spec(media_dir: Seq<char>, filename: Seq<char>, profile: CacheProfile, sep: char) -> Seq<
    char,
> {
    join_spec(cache_dir_spec(media_dir, sep), cached_name_spec(filename, profile), sep)
}

/// The cache path on some platform's separator.
pub open spec fn is_cache_path(r: Seq<char>, media_dir: Seq<char>, filename: Seq<char>, profile: CacheProfile) -> bool {
    exists|sep: char| is_path_separator(sep) && r == #[trigger] cache_path_spec(media_dir, filename, profile, sep)
}

/// Where the converted file of a kind is cached, where the main path
/// separator is `sep`.
pub fn get_cache_path_with(media_dir: &str, filename: &str, profile: CacheProfile, sep: char) -> (r: String)
    ensures
        r@ == cache_path_spec(media_dir@, filename@, profile, sep),
{
    let dir = path_join_with(media_dir, ".cache", sep);
    let mut name = sanitize_file_name(filename);
    append(&mut name, ".");
    append(&mut name, profile.suffix());
    append(&mut name, ".ts");
    path_join_with(dir.as_str(), name.as_str(), sep)
}

/// Where the converted file of a kind is cached.
pub fn get_cache_path(media_dir: &str, filename: &str, profile: CacheProfile) -> (r: String)
    ensures
        is_cache_path(r@, media_dir@, filename@, profile),
{
    let sep = main_separator();
    let r = get_cache_path_with(media_dir, filename, profile, sep);
    assert(r@ == cache_path_spec(media_dir@, filename@, profile, sep));
    r
}

/// A cached file is used when it exists and was modified after the
/// original (times as known; an unknown time means no).
pub open spec fn cache_is_fresh_spec(cache_exists: bool, original_modified: Option<u128>, cache_modified: Option<
    u128,
>) -> bool {
    cache_exists && match (original_modified, cache_modified) {
        (Some(o), Some(c)) => c > o,
        _ => false,
    }
}

/// The cached file of a kind, when it exists and is newer than the
/// original (`original_modified`, `cache_modified`: modification times, none
/// when they could not be read).
pub fn check_cache(
    media_dir: &str,
    filename: &str,
    profile: CacheProfile,
    cache_exists: bool,
    original_modified: Option<u128>,
    cache_modified: Option<u128>,
) -> (r: Option<String>)
    ensures
        cache_is_fresh_spec(cache_exists, original_modified, cache_modified) ==> (r matches Some(p)
            && is_cache_path(p@, media_dir@, filename@, profile)),
        !cache_is_fresh_spec(cache_exists, original_modified, cache_modified) ==> r is None,
{
    if !cache_exists {
        return None;
    }
    match (original_modified, cache_modified) {
        (Some(o), Some(c)) => if c > o {
            Some(get_cache_path(media_dir, filename, profile))
        } else {
            None
        },
        _ => None,
    }
}

/// The cached files of a media file, of both kinds.
pub fn media_cache_paths(media_dir: &str, filename: &str) -> (r: Vec<String>)
    ensures
        exists|sep: char|
            is_path_separator(sep) && strings_view(r@) == seq![
                #[trigger] cache_path_spec(media_dir@, filename@, CacheProfile::RemuxTs, sep),
                cache_path_spec(media_dir@, filename@, CacheProfile::TranscodedH264Aac, sep),
            ],
{
    let sep = main_separator();
    let r = vec![
        get_cache_path_with(media_dir, filename, CacheProfile::RemuxTs, sep),
        get_cache_path_with(media_dir, filename, CacheProfile::TranscodedH264Aac, sep),
    ];
    assert(strings_view(r@) =~= seq![
        cache_path_spec(media_dir@, filename@, CacheProfile::RemuxTs, sep),
        cache_path_spec(media_dir@, filename@, CacheProfile::TranscodedH264Aac, sep),
    ]);
    r
}

/// The file FFmpeg writes before it is moved into the cache.
pub open spec fn temp_path_spec(cache_path: Seq<char>) -> Seq<char> {
    cache_path + ".tmp"@
}

/// `<cache path>.tmp`, where a conversion writes until it is complete.
pub fn cache_temp_path(cache_path: &str) -> (r: String)
    ensures
        r@ == temp_path_spec(cache_path@),
{
    let mut r = cache_path.to_string();
    append(&mut r, ".tmp");
    r
}

/// FFmpeg arguments to copy the streams unchanged.
pub open spec fn remux_codec_args() -> Seq<Seq<char>> {
    seq!["-c"@, "copy"@]
}

/// FFmpeg arguments of a cache job: read the media, take its first video
/// and (if any) first audio stream, convert them with the codec arguments
/// and write MPEG-TS to the temporary file.
pub open spec fn cache_job_args_spec(media_path: Seq<char>, temp_path: Seq<char>, codec_args: Seq<Seq<char>>) -> Seq<
    Seq<char>,
> {
    seq!["-y"@, "-hide_banner"@, "-loglevel"@, "warning"@, "-nostdin"@, "-i"@, media_path]
        + seq!["-map"@, "0:v:0"@, "-map"@, "0:a:0?"@] + codec_args + seq![
        "-f"@,
        "mpegts"@,
        "-mpegts_flags"@,
        "+resend_headers"@,
        "-muxdelay"@,
        "0"@,
        "-muxpreload"@,
        "0"@,
        temp_path,
    ]
}

fn push_all(out: &mut Vec<String>, items: &[String])
    ensures
        strings_view(final(out)@) == strings_view(old(out)@) + strings_view(items@),
{
    let mut i: usize = 0;
    while i < items.len()
        invariant
            i <= items@.len(),
            strings_view(out@) == strings_view(old(out)@) + strings_view(items@.take(i as int)),
        decreases items.len() - i,
    {
        let ghost before = out@;
        out.push(items[i].clone());
        assert(strings_view(out@) =~= strings_view(before).push(items@[i as int]@));
        assert(strings_view(items@.take(i + 1)) =~= strings_view(items@.take(i as int)).push(items@[i as int]@));
        i += 1;
    }
    assert(items@.take(items@.len() as int) =~= items@);
}

/// The arguments of a cache job.
pub fn cache_job_args(media_path: &str, temp_path: &str, codec_args: &[String]) -> (r: Vec<String>)
    ensures
        strings_view(r@) == cache_job_args_spec(media_path@, temp_path@, strings_view(codec_args@)),
{
    let mut r: Vec<String> = vec![
        "-y".to_string(),
        "-hide_banner".to_string(),
        "-loglevel".to_string(),
        "warning".to_string(),
        "-nostdin".to_string(),
        "-i".to_string(),
        media_path.to_string(),
        "-map".to_string(),
        "0:v:0".to_string(),
        "-map".to_string(),
        "0:a:0?".to_string(),
    ];
    let ghost head = strings_view(r@);
    push_all(&mut r, codec_args);
    let tail: Vec<String> = vec![
        "-f".to_string(),
        "mpegts".to_string(),
        "-mpegts_flags".to_string(),
        "+resend_headers".to_string(),
        "-muxdelay".to_string(),
        "0".to_string(),
        "-muxpreload".to_string(),
        "0".to_string(),
        temp_path.to_string(),
    ];
    push_all(&mut r, &tail);
    assert(strings_view(r@) =~= cache_job_args_spec(media_path@, temp_path@, strings_view(codec_args@)));
    r
}

/// The arguments that copy the streams of a media file into the cache.
pub fn remux_args() -> (r: Vec<String>)
    ensures
        strings_view(r@) == remux_codec_args(),
{
    let r = vec!["-c".to_string(), "copy".to_string()];
    assert(strings_view(r@) =~= remux_codec_args());
    r
}

/// The error of a cache job whose FFmpeg run failed, with its trimmed
/// error output.
pub fn cache_job_failure_message(label: &str, stderr: &str) -> (r: String)
    ensures
        r@ == label@ + " failed: "@ + trim(stderr@),
{
    let mut m = label.to_string();
    append(&mut m, " failed: ");
    let t = crate::text::trim_exec(&chars_of(stderr));
    let ts = string_of(&t);
    append(&mut m, ts.as_str());
    m
}

/// Different kinds of converted files of one media file are cached apart.
pub proof fn lemma_cache_kinds_apart(media_dir: Seq<char>, filename: Seq<char>, sep: char)
    requires
        is_path_separator(sep),
    ensures
        cache_path_spec(media_dir, filename, CacheProfile::RemuxTs, sep) != cache_path_spec(
            media_dir,
            filename,
            CacheProfile::TranscodedH264Aac,
            sep,
        ),
{
    let d = cache_dir_spec(media_dir, sep);
    let a = cached_name_spec(filename, CacheProfile::RemuxTs);
    let b = cached_name_spec(filename, CacheProfile::TranscodedH264Aac);
    reveal_strlit("dlna-remux-ts-v1");
    reveal_strlit("dlna-h264-aac-v2");
    reveal_strlit(".");
    reveal_strlit(".ts");
    reveal_strlit(".cache");
    let sn = sanitize_spec(filename);
    let n: int = sn.len() as int;
    assert(a[n + 6] == 'r');
    assert(b[n + 6] == 'h');
    assert(a.len() == b.len());
    if n > 0 {
        assert(!is_unsafe_path_char(sn[0]));
        assert(a[0] == sn[0] && b[0] == sn[0]);
    } else {
        assert(a[0] == '.' && b[0] == '.');
    }
    if n > 1 {
        assert(!is_unsafe_path_char(sn[1]));
        assert(a[1] == sn[1] && b[1] == sn[1]);
    } else if n == 1 {
        assert(a[1] == '.' && b[1] == '.');
    } else {
        assert(a[1] == 'd' && b[1] == 'd');
    }
    let pa = join_spec(d, a, sep);
    let pb = join_spec(d, b, sep);
    let off = pa.len() - a.len();
    assert(pa.len() == pb.len());
    assert(pa[off + n + 6] == a[n + 6]);
    assert(pb[off + n + 6] == b[n + 6]);
}

/// A cached file's name holds none of the characters that file systems
/// refuse.
pub proof fn lemma_sanitized_name_is_safe(filename: Seq<char>)
    ensures
        forall|i: int| 0 <= i < sanitize_spec(filename).len() ==> !is_unsafe_path_char(#[trigger] sanitize_spec(filename)[i]),
{
}

} // verus!
