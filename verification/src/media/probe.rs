//! What `ffprobe` tells of a media file, and whether DLNA renderers can
//! play the file as it is.
use vstd::prelude::*;
use crate::api::{extension_of, last_dot_field};
use crate::encoder::clone_opt_string;
use crate::text::{
    ascii_lower, chars_eq, chars_of, contains, contains_str, opt_view, split_fields, split_on, starts_with,
    str_eq, strings_view, to_ascii_lower, views,
};

verus! {

/// One stream as `ffprobe -show_streams` describes it (the fields read).
#[derive(Debug, Clone)]
pub struct ProbeStream {
    pub codec_type: Option<String>,
    pub codec_name: Option<String>,
    pub profile: Option<String>,
    /// `level`, when it is a non-negative integer.
    pub level: Option<u64>,
    pub pix_fmt: Option<String>,
    pub width: Option<u64>,
    pub height: Option<u64>,
    pub channels: Option<u64>,
    /// `sample_rate`, which `ffprobe` writes as text.
    pub sample_rate: Option<String>,
}

/// Container and codecs of a media file.
#[derive(Debug, Clone)]
pub struct MediaInfo {
    pub format_name: Option<String>,
    pub video_codec: Option<String>,
    pub video_profile: Option<String>,
    pub video_level: Option<u32>,
    pub video_pix_fmt: Option<String>,
    pub audio_codec: Option<String>,
    pub video_width: Option<u32>,
    pub video_height: Option<u32>,
    pub audio_channels: Option<u32>,
    pub audio_sample_rate: Option<u32>,
}

pub open spec fn is_digit(c: char) -> bool {
    '0' <= c && c <= '9'
}

/// The number that a string of decimal digits writes.
pub open spec fn digits_value(s: Seq<char>) -> nat
    decreases s.len(),
{
    if s.len() == 0 {
        0
    } else {
        digits_value(s.drop_last()) * 10 + ((s.last() as nat) - 48) as nat
    }
}

/// The value of an unsigned decimal number: an optional `+`, then one or
/// more digits.
pub open spec fn unsigned_text_value(s: Seq<char>) -> Option<nat> {
    let d = unsigned_digits(s);
    if d.len() > 0 && all_digits(d) {
        Some(digits_value(d))
    } else {
        None
    }
}

/// The text after an optional leading `+`.
pub open spec fn unsigned_digits(s: Seq<char>) -> Seq<char> {
    if starts_with(s, "+"@) {
        s.skip(1)
    } else {
        s
    }
}

/// Every character is a decimal digit.
pub open spec fn all_digits(d: Seq<char>) -> bool {
    forall|i: int| 0 <= i < d.len() ==> is_digit(#[trigger] d[i])
}

/// What `str::parse::<u32>` gives.
pub open spec fn parse_u32_spec(s: Seq<char>) -> Option<u32> {
    match unsigned_text_value(s) {
        Some(v) => if v <= u32::MAX {
            Some(v as u32)
        } else {
            None
        },
        None => None,
    }
}

/// More digits never write a smaller number.
proof fn lemma_digits_grow(d: Seq<char>, k: int)
    requires
        0 <= k <= d.len(),
    ensures
        digits_value(d.take(k)) <= digits_value(d),
    decreases d.len(),
{
    if k < d.len() {
        lemma_digits_grow(d.drop_last(), k);
        assert(d.drop_last().take(k) =~= d.take(k));
    } else {
        assert(d.take(k) =~= d);
    }
}

/// `str::parse::<u32>`, written out: an optional `+` sign followed by
/// decimal digits that fit in 32 bits; anything else (other signs, spaces,
/// overflow) fails.
fn parse_u32(s: &str) -> (r: Option<u32>)
    ensures
        r == parse_u32_spec(s@),
{
    let v = chars_of(s);
    proof {
        reveal_strlit("+");
        let plus = "+"@;
        assert(plus =~= seq!['+']);
        assert(plus.len() == 1);
        if v@.len() > 0 {
            assert(v@.subrange(0, 1) =~= seq![v@[0]]);
            if v@[0] == '+' {
                assert(v@.subrange(0, 1) =~= plus);
                assert(starts_with(v@, plus));
            } else {
                assert(v@.subrange(0, 1)[0] != plus[0]);
                assert(!starts_with(v@, plus));
            }
        }
        assert(starts_with(v@, "+"@) <==> (v@.len() > 0 && v@[0] == '+'));
    }
    let start: usize = if v.len() > 0 && v[0] == '+' { 1 } else { 0 };
    let ghost d = v@.skip(start as int);
    assert(d == unsigned_digits(v@));
    if start >= v.len() {
        return None;
    }
    let mut acc: u64 = 0;
    let mut i: usize = start;
    while i < v.len()
        invariant
            start <= i <= v@.len(),
            start < v@.len(),
            v@ == s@,
            d == v@.skip(start as int),
            d == unsigned_digits(v@),
            acc <= 0xffff_ffff,
            forall|k: int| 0 <= k < i - start ==> is_digit(#[trigger] d[k]),
            acc == digits_value(d.take(i - start)),
        decreases v.len() - i,
    {
        let c = v[i];
        assert(d[i - start] == c);
        if !('0' <= c && c <= '9') {
            assert(!is_digit(d[i - start]));
            assert(0 <= i - start < d.len());
            assert(!all_digits(d));
            return None;
        }
        let x: u64 = (c as u64) - 48;
        assert(d.take(i + 1 - start).drop_last() =~= d.take(i - start));
        assert(d.take(i + 1 - start).last() == c);
        acc = acc * 10 + x;
        assert(acc == digits_value(d.take(i + 1 - start)));
        if acc > 0xffff_ffff {
            proof {
                if all_digits(d) {
                    lemma_digits_grow(d, i + 1 - start);
                }
            }
            return None;
        }
        i += 1;
    }
    assert(d.take(i - start) =~= d);
    Some(acc as u32)
}

pub open spec fn has_type(st: ProbeStream, t: Seq<char>) -> bool {
    opt_view(st.codec_type) == Some(t)
}

/// Index of the stream that gives the video fields after the first `n`
/// streams: a video stream replaces it while no codec name is known.
pub open spec fn video_source(s: Seq<ProbeStream>, n: int) -> Option<int>
    decreases n,
{
    if n <= 0 {
        None
    } else {
        let prev = video_source(s, n - 1);
        let open = match prev {
            None => true,
            Some(j) => s[j].codec_name is None,
        };
        if has_type(s[n - 1], "video"@) && open {
            Some(n - 1)
        } else {
            prev
        }
    }
}

/// Index of the stream that gives the audio fields after the first `n`
/// streams, by the same rule.
pub open spec fn audio_source(s: Seq<ProbeStream>, n: int) -> Option<int>
    decreases n,
{
    if n <= 0 {
        None
    } else {
        let prev = audio_source(s, n - 1);
        let open = match prev {
            None => true,
            Some(j) => s[j].codec_name is None,
        };
        if has_type(s[n - 1], "audio"@) && open {
            Some(n - 1)
        } else {
            prev
        }
    }
}

/// The chosen video and audio streams lie among the first `n` streams.
pub proof fn lemma_source_bounds(s: Seq<ProbeStream>, n: int)
    requires
        0 <= n <= s.len(),
    ensures
        video_source(s, n) matches Some(j) ==> 0 <= j < n,
        audio_source(s, n) matches Some(j) ==> 0 <= j < n,
    decreases n,
{
    if n > 0 {
        lemma_source_bounds(s, n - 1);
    }
}

/// A 64-bit value cut to 32 bits, as `as u32` does.
pub open spec fn low_u32(o: Option<u64>) -> Option<u32> {
    match o {
        Some(v) => Some(v as u32),
        None => None,
    }
}

pub open spec fn parsed_rate(o: Option<String>) -> Option<u32> {
    match o {
        Some(t) => parse_u32_spec(t@),
        None => None,
    }
}

/// `info` holds the video fields of stream `src` (all none without one).
pub open spec fn video_fields_from(info: MediaInfo, s: Seq<ProbeStream>, src: Option<int>) -> bool {
    match src {
        Some(j) => {
            &&& info.video_codec == s[j].codec_name
            &&& info.video_profile == s[j].profile
            &&& info.video_level == low_u32(s[j].level)
            &&& info.video_pix_fmt == s[j].pix_fmt
            &&& info.video_width == low_u32(s[j].width)
            &&& info.video_height == low_u32(s[j].height)
        },
        None => {
            &&& info.video_codec is None
            &&& info.video_profile is None
            &&& info.video_level is None
            &&& info.video_pix_fmt is None
            &&& info.video_width is None
            &&& info.video_height is None
        },
    }
}

/// `info` holds the audio fields of stream `src` (all none without one).
pub open spec fn audio_fields_from(info: MediaInfo, s: Seq<ProbeStream>, src: Option<int>) -> bool {
    match src {
        Some(j) => {
            &&& info.audio_codec == s[j].codec_name
            &&& info.audio_channels == low_u32(s[j].channels)
            &&& info.audio_sample_rate == parsed_rate(s[j].sample_rate)
        },
        None => {
            &&& info.audio_codec is None
            &&& info.audio_channels is None
            &&& info.audio_sample_rate is None
        },
    }
}

fn low(o: Option<u64>) -> (r: Option<u32>)
    ensures
        r == low_u32(o),
{
    match o {
        Some(v) => Some(v as u32),
        None => None,
    }
}

fn is_type(st: &ProbeStream, t: &str) -> (r: bool)
    ensures
        r == has_type(*st, t@),
{
    match &st.codec_type {
        Some(c) => str_eq(c.as_str(), t),
        None => false,
    }
}

/// The media information of a probe: the container's format name, the
/// video fields of the first video stream with a codec name (else of the
/// last video stream) and the audio fields likewise.
pub fn media_info_from_probe(format_name: Option<String>, streams: &[ProbeStream]) -> (info: MediaInfo)
    ensures
        info.format_name == format_name,
        video_fields_from(info, streams@, video_source(streams@, streams@.len() as int)),
        audio_fields_from(info, streams@, audio_source(streams@, streams@.len() as int)),
{
    let mut info = MediaInfo {
        format_name,
        video_codec: None,
        video_profile: None,
        video_level: None,
        video_pix_fmt: None,
        audio_codec: None,
        video_width: None,
        video_height: None,
        audio_channels: None,
        audio_sample_rate: None,
    };
    let ghost fmt = info.format_name;
    let mut i: usize = 0;
    while i < streams.len()
        invariant
            i <= streams@.len(),
            info.format_name == fmt,
            video_fields_from(info, streams@, video_source(streams@, i as int)),
            audio_fields_from(info, streams@, audio_source(streams@, i as int)),
        decreases streams.len() - i,
    {
        proof {
            lemma_source_bounds(streams@, i as int);
        }
        let st = &streams[i];
        if is_type(st, "video") && info.video_codec.is_none() {
            info.video_codec = clone_opt_string(&st.codec_name);
            info.video_profile = clone_opt_string(&st.profile);
            info.video_level = low(st.level);
            info.video_pix_fmt = clone_opt_string(&st.pix_fmt);
            info.video_width = low(st.width);
            info.video_height = low(st.height);
        } else if is_type(st, "audio") && info.audio_codec.is_none() {
            info.audio_codec = clone_opt_string(&st.codec_name);
            info.audio_channels = low(st.channels);
            info.audio_sample_rate = match &st.sample_rate {
                Some(t) => parse_u32(t.as_str()),
                None => None,
            };
        }
        proof {
            reveal_strlit("video");
            reveal_strlit("audio");
            assert("video"@[0] != "audio"@[0]);
            assert(has_type(*st, "video"@) ==> !has_type(*st, "audio"@));
        }
        i += 1;
    }
    info
}

/// What `serde_json::from_str` reads from `ffprobe -print_format json`
/// output: the `format.format_name` string, and each element of the
/// `streams` array written back as JSON text; none when the text is not
/// JSON.
pub uninterp spec fn ffprobe_parts(text: Seq<char>) -> Option<(Option<Seq<char>>, Seq<Seq<char>>)>;

/// The fields that `serde_json::from_str` reads from one stream's JSON text:
/// the strings and the non-negative integers under the keys of
/// [`ProbeStream`], each none when absent or of another JSON type.
pub uninterp spec fn ffprobe_stream(text: Seq<char>) -> ProbeStream;

pub open spec fn parts_view(r: Option<(Option<String>, Vec<String>)>) -> Option<(Option<Seq<char>>, Seq<Seq<char>>)> {
    match r {
        Some((f, v)) => Some((opt_view(f), strings_view(v@))),
        None => None,
    }
}

/// Parses ffprobe's output with `serde_json::from_str` into a
/// `serde_json::Value`, takes `format.format_name` as a string and writes
/// each element of `streams` back with `Value::to_string`. Claims only that
/// the result is the named function of the text.
#[verifier::external_body]
fn parse_ffprobe_json(text: &str) -> (r: Option<(Option<String>, Vec<String>)>)
    ensures
        parts_view(r) == ffprobe_parts(text@),
{
    let json: serde_json::Value = serde_json::from_str(text).ok()?;
    let format_name = json["format"]["format_name"].as_str().map(String::from);
    let streams = json["streams"].as_array().map_or(Vec::new(), |a| a.iter().map(|v| v.to_string()).collect());
    Some((format_name, streams))
}

/// Parses one stream's JSON text with `serde_json::from_str` and reads the
/// fields of [`ProbeStream`] with `Value::get` and `as_str` / `as_u64`.
/// Claims only that the result is the named function of the text.
#[verifier::external_body]
fn parse_ffprobe_stream(text: &str) -> (r: ProbeStream)
    ensures
        r == ffprobe_stream(text@),
{
    let v: serde_json::Value = serde_json::from_str(text).unwrap_or(serde_json::Value::Null);
    let s = |k: &str| v.get(k).and_then(|x| x.as_str()).map(String::from);
    let n = |k: &str| v.get(k).and_then(|x| x.as_u64());
    ProbeStream {
        codec_type: s("codec_type"), codec_name: s("codec_name"), profile: s("profile"), level: n("level"),
        pix_fmt: s("pix_fmt"), width: n("width"), height: n("height"), channels: n("channels"),
        sample_rate: s("sample_rate"),
    }
}

/// The format name and the streams that ffprobe's JSON output describes.
pub open spec fn ffprobe_fields(text: Seq<char>) -> Option<(Option<Seq<char>>, Seq<ProbeStream>)> {
    match ffprobe_parts(text) {
        Some((f, ss)) => Some((f, ss.map_values(|t: Seq<char>| ffprobe_stream(t)))),
        None => None,
    }
}

/// `info` is the media information of a probe with that format name and
/// those streams.
pub open spec fn info_of_probe(info: MediaInfo, format_name: Option<Seq<char>>, s: Seq<ProbeStream>) -> bool {
    &&& opt_view(info.format_name) == format_name
    &&& video_fields_from(info, s, video_source(s, s.len() as int))
    &&& audio_fields_from(info, s, audio_source(s, s.len() as int))
}

/// The media information in ffprobe's JSON output; none when the output is
/// not JSON.
pub fn media_info_from_ffprobe_output(stdout: &str) -> (r: Option<MediaInfo>)
    ensures
        match ffprobe_fields(stdout@) {
            None => r is None,
            Some((f, s)) => r matches Some(info) && info_of_probe(info, f, s),
        },
{
    let (format_name, texts) = match parse_ffprobe_json(stdout) {
        None => return None,
        Some(p) => p,
    };
    let ghost ts = strings_view(texts@);
    let mut streams: Vec<ProbeStream> = Vec::new();
    let mut i: usize = 0;
    while i < texts.len()
        invariant
            i <= texts@.len(),
            ts == strings_view(texts@),
            streams@ == ts.take(i as int).map_values(|t: Seq<char>| ffprobe_stream(t)),
        decreases texts.len() - i,
    {
        let st = parse_ffprobe_stream(texts[i].as_str());
        assert(ts[i as int] == texts@[i as int]@);
        streams.push(st);
        assert(streams@ =~= ts.take(i + 1).map_values(|t: Seq<char>| ffprobe_stream(t)));
        i += 1;
    }
    assert(ts.take(texts@.len() as int) =~= ts);
    let info = media_info_from_probe(format_name, &streams);
    Some(info)
}


// ---------------------------------------------------------------------------
// What renderers play as it is
// ---------------------------------------------------------------------------

pub open spec fn is_mp4_ext(e: Seq<char>) -> bool {
    e == "mp4"@ || e == "m4v"@ || e == "mov"@
}

pub open spec fn is_ts_ext(e: Seq<char>) -> bool {
    e == "ts"@ || e == "m2ts"@ || e == "mts"@
}

pub open spec fn is_mp4_format(n: Seq<char>) -> bool {
    n == "mp4"@ || n == "mov"@ || n == "m4v"@
}

pub open spec fn is_ts_format(n: Seq<char>) -> bool {
    n == "mpegts"@ || n == "mpegtsraw"@
}

/// The names in the comma-separated format name (none given: one empty name).
pub open spec fn format_names(info: MediaInfo) -> Seq<Seq<char>> {
    split_fields(
        match info.format_name {
            Some(f) => f@,
            None => Seq::empty(),
        },
        ',',
    )
}

/// The container is MP4 or MPEG-TS by the file extension or by the format
/// names that `ffprobe` reported.
pub open spec fn safe_container_spec(info: MediaInfo, filename: Seq<char>) -> bool {
    let ext = ascii_lower(last_dot_field(filename));
    let names = format_names(info);
    let mp4_family = is_mp4_ext(ext) || exists|i: int| 0 <= i < names.len() && is_mp4_format(#[trigger] names[i]);
    let ts_family = is_ts_ext(ext) || exists|i: int| 0 <= i < names.len() && is_ts_format(#[trigger] names[i]);
    mp4_family || ts_family
}

fn is_one_of(v: &[char], a: &str, b: &str, c: &str) -> (r: bool)
    ensures
        r == (v@ == a@ || v@ == b@ || v@ == c@),
{
    chars_eq(v, &chars_of(a)) || chars_eq(v, &chars_of(b)) || chars_eq(v, &chars_of(c))
}

/// Whether the container of the file is one that renderers accept.
pub fn is_safe_dlna_container(info: &MediaInfo, filename: &str) -> (r: bool)
    ensures
        r == safe_container_spec(*info, filename@),
{
    let ext_s = extension_of(filename);
    let ext = to_ascii_lower(&chars_of(ext_s.as_str()));
    let fmt: Vec<char> = match &info.format_name {
        Some(f) => chars_of(f.as_str()),
        None => Vec::new(),
    };
    proof {
        if info.format_name is None {
            assert(fmt@ =~= Seq::<char>::empty());
        }
    }
    let names = split_on(&fmt, ',');
    let mut mp4_name = false;
    let mut ts_name = false;
    let mut i: usize = 0;
    while i < names.len()
        invariant
            i <= names@.len(),
            views(names@) == format_names(*info),
            mp4_name == exists|j: int| 0 <= j < i && is_mp4_format(#[trigger] views(names@)[j]),
            ts_name == exists|j: int| 0 <= j < i && is_ts_format(#[trigger] views(names@)[j]),
        decreases names.len() - i,
    {
        let n = &names[i];
        assert(views(names@)[i as int] == n@);
        if is_one_of(n, "mp4", "mov", "m4v") {
            mp4_name = true;
        }
        if chars_eq(n, &chars_of("mpegts")) || chars_eq(n, &chars_of("mpegtsraw")) {
            ts_name = true;
        }
        i += 1;
    }
    let mp4_family = is_one_of(&ext, "mp4", "m4v", "mov") || mp4_name;
    let ts_family = is_one_of(&ext, "ts", "m2ts", "mts") || ts_name;
    mp4_family || ts_family
}

/// H.264 in a profile, level, pixel format and size that renderers decode:
/// baseline, main or high profile, level 4.1 at most, `yuv420p`, 1080p at
/// most (each checked only when known).
pub open spec fn safe_h264_spec(info: MediaInfo) -> bool {
    &&& opt_view(info.video_codec) == Some("h264"@)
    &&& (info.video_profile matches Some(p) ==> {
        let l = ascii_lower(p@);
        contains(l, "baseline"@) || l == "main"@ || l == "high"@
    })
    &&& (info.video_level matches Some(l) ==> l <= 41)
    &&& (info.video_pix_fmt matches Some(p) ==> p@ == "yuv420p"@)
    &&& (info.video_width matches Some(w) ==> (info.video_height matches Some(h) ==> w <= 1920 && h <= 1080))
}

/// Whether the video stream is H.264 that renderers decode.
pub fn is_safe_h264_video(info: &MediaInfo) -> (r: bool)
    ensures
        r == safe_h264_spec(*info),
{
    let codec_ok = match &info.video_codec {
        Some(c) => str_eq(c.as_str(), "h264"),
        None => false,
    };
    if !codec_ok {
        return false;
    }
    if let Some(profile) = &info.video_profile {
        let l = to_ascii_lower(&chars_of(profile.as_str()));
        let ok = contains_str(&l, "baseline") || chars_eq(&l, &chars_of("main")) || chars_eq(&l, &chars_of("high"));
        if !ok {
            return false;
        }
    }
    if let Some(level) = info.video_level {
        if level > 41 {
            return false;
        }
    }
    if let Some(pix_fmt) = &info.video_pix_fmt {
        if !str_eq(pix_fmt.as_str(), "yuv420p") {
            return false;
        }
    }
    if let (Some(width), Some(height)) = (info.video_width, info.video_height) {
        if width > 1920 || height > 1080 {
            return false;
        }
    }
    true
}

/// No audio, or AAC or MP3 in stereo at most, at 44.1 or 48 kHz (each
/// checked only when known).
pub open spec fn safe_audio_spec(info: MediaInfo) -> bool {
    match info.audio_codec {
        None => true,
        Some(c) => {
            &&& (c@ == "aac"@ || c@ == "mp3"@)
            &&& (info.audio_channels matches Some(ch) ==> ch <= 2)
            &&& (info.audio_sample_rate matches Some(r) ==> r == 44100 || r == 48000)
        },
    }
}

/// Whether the audio stream is one that renderers decode.
pub fn is_safe_dlna_audio(info: &MediaInfo) -> (r: bool)
    ensures
        r == safe_audio_spec(*info),
{
    let codec = match &info.audio_codec {
        None => return true,
        Some(c) => c,
    };
    if !(str_eq(codec.as_str(), "aac") || str_eq(codec.as_str(), "mp3")) {
        return false;
    }
    if let Some(channels) = info.audio_channels {
        if channels > 2 {
            return false;
        }
    }
    if let Some(sample_rate) = info.audio_sample_rate {
        if !(sample_rate == 44100 || sample_rate == 48000) {
            return false;
        }
    }
    true
}

/// Whether both streams are ones that renderers decode.
pub fn has_safe_dlna_codecs(info: &MediaInfo) -> (r: bool)
    ensures
        r == (safe_h264_spec(*info) && safe_audio_spec(*info)),
{
    is_safe_h264_video(info) && is_safe_dlna_audio(info)
}

/// Whether renderers can play the file without any conversion.
pub fn is_dlna_bypass_compatible(info: &MediaInfo, filename: &str) -> (r: bool)
    ensures
        r == (safe_container_spec(*info, filename@) && safe_h264_spec(*info) && safe_audio_spec(*info)),
{
    is_safe_dlna_container(info, filename) && has_safe_dlna_codecs(info)
}

/// How a media file is prepared for a renderer.
#[derive(Debug, Clone, Copy, PartialEq, Eq, Structural)]
pub enum PreparePlan {
    /// The file does not exist.
    NotFound,
    /// Served as it is.
    Original,
    /// Its streams copied into MPEG-TS.
    Remux,
    /// Converted to H.264 and AAC.
    Transcode,
}

pub open spec fn prepare_plan_spec(media_exists: bool, info: Option<MediaInfo>, filename: Seq<char>) -> PreparePlan {
    if !media_exists {
        PreparePlan::NotFound
    } else {
        match info {
            Some(i) => if safe_container_spec(i, filename) && safe_h264_spec(i) && safe_audio_spec(i) {
                PreparePlan::Original
            } else if safe_h264_spec(i) && safe_audio_spec(i) {
                PreparePlan::Remux
            } else {
                PreparePlan::Transcode
            },
            None => PreparePlan::Transcode,
        }
    }
}

/// Decide how to prepare a media file, given whether it exists and what
/// probing found (none when probing failed, which means converting).
pub fn prepare_plan(media_exists: bool, info: &Option<MediaInfo>, filename: &str) -> (r: PreparePlan)
    ensures
        r == prepare_plan_spec(media_exists, *info, filename@),
{
    if !media_exists {
        return PreparePlan::NotFound;
    }
    match info {
        Some(i) => if is_dlna_bypass_compatible(i, filename) {
            PreparePlan::Original
        } else if has_safe_dlna_codecs(i) {
            PreparePlan::Remux
        } else {
            PreparePlan::Transcode
        },
        None => PreparePlan::Transcode,
    }
}

} // verus!
