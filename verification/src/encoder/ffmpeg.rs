//! Hardware encoders that FFmpeg lists in `ffmpeg -hide_banner -encoders`.
use vstd::prelude::*;
use crate::encoder::{EncoderBackend, HostOs, HwEncoder, VideoCodec};
use crate::media::cache::{join_spec, path_join_with};
use crate::text::{opt_str_view, opt_view};
use crate::text::{
    before_char, chars_eq, chars_of, index_of_char, lines, lines_of, slice_vec, split_whitespace,
    starts_with, strings_view,
    starts_with_exec, string_of, substring, trim, trim_exec, views, words,
};

verus! {

/// A hardware encoder entry parsed from FFmpeg's encoder list.
#[derive(Debug)]
pub struct FfmpegEncoderInfo {
    /// FFmpeg encoder name (e.g., "h264_nvenc")
    pub ffmpeg_name: String,
    /// Codec name (e.g., "h264")
    pub codec_name: String,
    /// Whether this is a hardware encoder
    pub is_hardware: bool,
}

/// The FFmpeg hardware encoders that are tracked, with codec and backend.
pub open spec fn hw_table() -> Seq<(Seq<char>, VideoCodec, EncoderBackend)> {
    seq![
        ("h264_nvenc"@, VideoCodec::H264, EncoderBackend::Nvenc),
        ("hevc_nvenc"@, VideoCodec::Hevc, EncoderBackend::Nvenc),
        ("av1_nvenc"@, VideoCodec::Av1, EncoderBackend::Nvenc),
        ("h264_qsv"@, VideoCodec::H264, EncoderBackend::Qsv),
        ("hevc_qsv"@, VideoCodec::Hevc, EncoderBackend::Qsv),
        ("av1_qsv"@, VideoCodec::Av1, EncoderBackend::Qsv),
        ("h264_amf"@, VideoCodec::H264, EncoderBackend::Amf),
        ("hevc_amf"@, VideoCodec::Hevc, EncoderBackend::Amf),
        ("av1_amf"@, VideoCodec::Av1, EncoderBackend::Amf),
        ("h264_videotoolbox"@, VideoCodec::H264, EncoderBackend::Videotoolbox),
        ("hevc_videotoolbox"@, VideoCodec::Hevc, EncoderBackend::Videotoolbox),
        ("av1_videotoolbox"@, VideoCodec::Av1, EncoderBackend::Videotoolbox),
        ("h264_vaapi"@, VideoCodec::H264, EncoderBackend::Vaapi),
        ("hevc_vaapi"@, VideoCodec::Hevc, EncoderBackend::Vaapi),
        ("av1_vaapi"@, VideoCodec::Av1, EncoderBackend::Vaapi),
    ]
}

fn hw_table_exec() -> (t: Vec<(&'static str, VideoCodec, EncoderBackend)>)
    ensures
        t@.len() == hw_table().len(),
        forall|i: int|
            0 <= i < t@.len() ==> (#[trigger] t@[i]).0@ == hw_table()[i].0 && t@[i].1
                == hw_table()[i].1 && t@[i].2 == hw_table()[i].2,
{
    let t = vec![
        ("h264_nvenc", VideoCodec::H264, EncoderBackend::Nvenc),
        ("hevc_nvenc", VideoCodec::Hevc, EncoderBackend::Nvenc),
        ("av1_nvenc", VideoCodec::Av1, EncoderBackend::Nvenc),
        ("h264_qsv", VideoCodec::H264, EncoderBackend::Qsv),
        ("hevc_qsv", VideoCodec::Hevc, EncoderBackend::Qsv),
        ("av1_qsv", VideoCodec::Av1, EncoderBackend::Qsv),
        ("h264_amf", VideoCodec::H264, EncoderBackend::Amf),
        ("hevc_amf", VideoCodec::Hevc, EncoderBackend::Amf),
        ("av1_amf", VideoCodec::Av1, EncoderBackend::Amf),
        ("h264_videotoolbox", VideoCodec::H264, EncoderBackend::Videotoolbox),
        ("hevc_videotoolbox", VideoCodec::Hevc, EncoderBackend::Videotoolbox),
        ("av1_videotoolbox", VideoCodec::Av1, EncoderBackend::Videotoolbox),
        ("h264_vaapi", VideoCodec::H264, EncoderBackend::Vaapi),
        ("hevc_vaapi", VideoCodec::Hevc, EncoderBackend::Vaapi),
        ("av1_vaapi", VideoCodec::Av1, EncoderBackend::Vaapi),
    ];
    t
}

/// Codec and backend of the first table entry named `name`, from position `i`.
pub open spec fn lookup_from(name: Seq<char>, i: int) -> Option<(VideoCodec, EncoderBackend)>
    decreases hw_table().len() - i,
{
    if i < 0 || i >= hw_table().len() {
        None
    } else if hw_table()[i].0 == name {
        Some((hw_table()[i].1, hw_table()[i].2))
    } else {
        lookup_from(name, i + 1)
    }
}

/// Codec and backend of a tracked FFmpeg hardware encoder.
pub open spec fn hw_kind(name: Seq<char>) -> Option<(VideoCodec, EncoderBackend)> {
    lookup_from(name, 0)
}

fn hw_kind_exec(name: &[char]) -> (r: Option<(VideoCodec, EncoderBackend)>)
    ensures
        r == hw_kind(name@),
{
    let t = hw_table_exec();
    let mut i: usize = 0;
    while i < t.len()
        invariant
            i <= t@.len(),
            t@.len() == hw_table().len(),
            forall|k: int|
                0 <= k < t@.len() ==> (#[trigger] t@[k]).0@ == hw_table()[k].0 && t@[k].1
                    == hw_table()[k].1 && t@[k].2 == hw_table()[k].2,
            hw_kind(name@) == lookup_from(name@, i as int),
        decreases t.len() - i,
    {
        let entry = chars_of(t[i].0);
        if chars_eq(name, &entry) {
            return Some((t[i].1, t[i].2));
        }
        i += 1;
    }
    None
}

/// The encoder for a tracked FFmpeg hardware encoder name, at FFmpeg priority 3.
pub fn map_ffmpeg_encoder(info: &FfmpegEncoderInfo) -> (r: Option<HwEncoder>)
    ensures
        match hw_kind(info.ffmpeg_name@) {
            Some(k) => r matches Some(e) && e.codec == k.0 && e.backend == k.1 && e.device is None
                && e.priority == 3 && e.ffmpeg_name@ == info.ffmpeg_name@,
            None => r is None,
        },
{
    let n = chars_of(info.ffmpeg_name.as_str());
    match hw_kind_exec(&n) {
        Some((codec, backend)) => Some(
            HwEncoder {
                codec,
                backend,
                device: None,
                priority: 3,
                ffmpeg_name: info.ffmpeg_name.clone(),
            },
        ),
        None => None,
    }
}

/// The word that names a tracked hardware encoder: the first word if it is
/// one, else the second.
pub open spec fn encoder_token(ws: Seq<Seq<char>>) -> Option<Seq<char>> {
    if ws.len() < 2 {
        None
    } else if hw_kind(ws[0]) is Some {
        Some(ws[0])
    } else if hw_kind(ws[1]) is Some {
        Some(ws[1])
    } else {
        None
    }
}

/// The encoder named on one line of FFmpeg's encoder list.
pub open spec fn parsed_encoder_name(line: Seq<char>) -> Option<Seq<char>> {
    let t = trim(line);
    if t.len() == 0 || starts_with(t, "Encoders"@) || starts_with(t, "----"@) {
        None
    } else {
        encoder_token(words(t))
    }
}

/// Parse one line of `ffmpeg -encoders` output (`V....D h264_vaapi  H.264/AVC (VAAPI)`).
pub fn parse_encoder_line(line: &str) -> (r: Option<FfmpegEncoderInfo>)
    ensures
        match parsed_encoder_name(line@) {
            Some(n) => r matches Some(info) && info.ffmpeg_name@ == n && info.codec_name@
                == before_char(n, '_') && info.is_hardware,
            None => r is None,
        },
{
    let raw = chars_of(line);
    let t = trim_exec(&raw);
    let enc = chars_of("Encoders");
    let dash = chars_of("----");
    if t.len() == 0 || starts_with_exec(&t, &enc) || starts_with_exec(&t, &dash) {
        return None;
    }
    let parts = split_whitespace(&t);
    if parts.len() < 2 {
        return None;
    }
    proof {
        assert(views(parts@)[0] == parts@[0]@);
        assert(views(parts@)[1] == parts@[1]@);
    }
    let token: &Vec<char> = if hw_kind_exec(&parts[0]).is_some() {
        &parts[0]
    } else if hw_kind_exec(&parts[1]).is_some() {
        &parts[1]
    } else {
        return None;
    };
    let u = index_of_char(token, '_');
    Some(
        FfmpegEncoderInfo {
            ffmpeg_name: string_of(token),
            codec_name: substring(token, 0, u),
            is_hardware: true,
        },
    )
}

/// The FFmpeg tag of a codec that hardware encoders are tracked for.
pub open spec fn codec_tag(c: VideoCodec) -> Option<Seq<char>> {
    match c {
        VideoCodec::H264 => Some("h264"@),
        VideoCodec::Hevc => Some("hevc"@),
        VideoCodec::Av1 => Some("av1"@),
        VideoCodec::Vp9 => None,
    }
}

/// The FFmpeg tag of a backend whose encoders are tracked.
pub open spec fn backend_tag(b: EncoderBackend) -> Option<Seq<char>> {
    match b {
        EncoderBackend::Nvenc => Some("nvenc"@),
        EncoderBackend::Qsv => Some("qsv"@),
        EncoderBackend::Amf => Some("amf"@),
        EncoderBackend::Videotoolbox => Some("videotoolbox"@),
        EncoderBackend::Vaapi => Some("vaapi"@),
        _ => None,
    }
}

/// `<codec>_<backend>` for a tracked codec and backend.
pub open spec fn tracked_name(c: VideoCodec, b: EncoderBackend) -> Option<Seq<char>> {
    match (codec_tag(c), backend_tag(b)) {
        (Some(x), Some(y)) => Some(x + "_"@ + y),
        _ => None,
    }
}

/// The tracked FFmpeg hardware encoders are exactly the names
/// `<codec>_<backend>` with codec `h264`, `hevc` or `av1` and backend
/// `nvenc`, `qsv`, `amf`, `videotoolbox` or `vaapi`, each of that codec and
/// backend.
/// The tracked FFmpeg hardware encoders are exactly the names
/// `<codec>_<backend>` with codec `h264`, `hevc` or `av1` and backend
/// `nvenc`, `qsv`, `amf`, `videotoolbox` or `vaapi`, each of that codec and
/// backend.
#[verifier::rlimit(50)]
pub proof fn lemma_tracked_names(c: VideoCodec, b: EncoderBackend, name: Seq<char>)
    ensures
        (hw_kind(name) == Some((c, b))) <==> (tracked_name(c, b) == Some(name)),
{
    reveal_strlit("h264");
    reveal_strlit("hevc");
    reveal_strlit("av1");
    reveal_strlit("_");
    reveal_strlit("nvenc");
    reveal_strlit("qsv");
    reveal_strlit("amf");
    reveal_strlit("videotoolbox");
    reveal_strlit("vaapi");
    reveal_strlit("h264_nvenc");
    reveal_strlit("hevc_nvenc");
    reveal_strlit("av1_nvenc");
    reveal_strlit("h264_qsv");
    reveal_strlit("hevc_qsv");
    reveal_strlit("av1_qsv");
    reveal_strlit("h264_amf");
    reveal_strlit("hevc_amf");
    reveal_strlit("av1_amf");
    reveal_strlit("h264_videotoolbox");
    reveal_strlit("hevc_videotoolbox");
    reveal_strlit("av1_videotoolbox");
    reveal_strlit("h264_vaapi");
    reveal_strlit("hevc_vaapi");
    reveal_strlit("av1_vaapi");
    reveal_with_fuel(lookup_from, 16);
    // The name found in the table is its codec's tag, `_`, its backend's tag.
    if hw_kind(name) == Some((c, b)) {
        assert("h264"@ + "_"@ + "nvenc"@ =~= "h264_nvenc"@);
        assert("hevc"@ + "_"@ + "nvenc"@ =~= "hevc_nvenc"@);
        assert("av1"@ + "_"@ + "nvenc"@ =~= "av1_nvenc"@);
        assert("h264"@ + "_"@ + "qsv"@ =~= "h264_qsv"@);
        assert("hevc"@ + "_"@ + "qsv"@ =~= "hevc_qsv"@);
        assert("av1"@ + "_"@ + "qsv"@ =~= "av1_qsv"@);
        assert("h264"@ + "_"@ + "amf"@ =~= "h264_amf"@);
        assert("hevc"@ + "_"@ + "amf"@ =~= "hevc_amf"@);
        assert("av1"@ + "_"@ + "amf"@ =~= "av1_amf"@);
        assert("h264"@ + "_"@ + "videotoolbox"@ =~= "h264_videotoolbox"@);
        assert("hevc"@ + "_"@ + "videotoolbox"@ =~= "hevc_videotoolbox"@);
        assert("av1"@ + "_"@ + "videotoolbox"@ =~= "av1_videotoolbox"@);
        assert("h264"@ + "_"@ + "vaapi"@ =~= "h264_vaapi"@);
        assert("hevc"@ + "_"@ + "vaapi"@ =~= "hevc_vaapi"@);
        assert("av1"@ + "_"@ + "vaapi"@ =~= "av1_vaapi"@);
    }
    if tracked_name(c, b) == Some(name) {
        // The lookup reaches the name's own entry: each name differs from
        // those before it in the table, by its length or by one character.
        if c == VideoCodec::H264 && b == EncoderBackend::Nvenc {
            assert("h264"@ + "_"@ + "nvenc"@ =~= "h264_nvenc"@);
            assert(hw_kind("h264_nvenc"@) == Some((c, b)));
        }
        if c == VideoCodec::Hevc && b == EncoderBackend::Nvenc {
            assert("hevc"@ + "_"@ + "nvenc"@ =~= "hevc_nvenc"@);
            assert("h264_nvenc"@[1] != "hevc_nvenc"@[1]);
            assert(hw_kind("hevc_nvenc"@) == Some((c, b)));
        }
        if c == VideoCodec::Av1 && b == EncoderBackend::Nvenc {
            assert("av1"@ + "_"@ + "nvenc"@ =~= "av1_nvenc"@);
            assert("h264_nvenc"@.len() != "av1_nvenc"@.len());
            assert("hevc_nvenc"@.len() != "av1_nvenc"@.len());
            assert(hw_kind("av1_nvenc"@) == Some((c, b)));
        }
        if c == VideoCodec::H264 && b == EncoderBackend::Qsv {
            assert("h264"@ + "_"@ + "qsv"@ =~= "h264_qsv"@);
            assert("h264_nvenc"@.len() != "h264_qsv"@.len());
            assert("hevc_nvenc"@.len() != "h264_qsv"@.len());
            assert("av1_nvenc"@.len() != "h264_qsv"@.len());
            assert(hw_kind("h264_qsv"@) == Some((c, b)));
        }
        if c == VideoCodec::Hevc && b == EncoderBackend::Qsv {
            assert("hevc"@ + "_"@ + "qsv"@ =~= "hevc_qsv"@);
            assert("h264_nvenc"@.len() != "hevc_qsv"@.len());
            assert("hevc_nvenc"@.len() != "hevc_qsv"@.len());
            assert("av1_nvenc"@.len() != "hevc_qsv"@.len());
            assert("h264_qsv"@[1] != "hevc_qsv"@[1]);
            assert(hw_kind("hevc_qsv"@) == Some((c, b)));
        }
        if c == VideoCodec::Av1 && b == EncoderBackend::Qsv {
            assert("av1"@ + "_"@ + "qsv"@ =~= "av1_qsv"@);
            assert("h264_nvenc"@.len() != "av1_qsv"@.len());
            assert("hevc_nvenc"@.len() != "av1_qsv"@.len());
            assert("av1_nvenc"@.len() != "av1_qsv"@.len());
            assert("h264_qsv"@.len() != "av1_qsv"@.len());
            assert("hevc_qsv"@.len() != "av1_qsv"@.len());
            assert(hw_kind("av1_qsv"@) == Some((c, b)));
        }
        if c == VideoCodec::H264 && b == EncoderBackend::Amf {
            assert("h264"@ + "_"@ + "amf"@ =~= "h264_amf"@);
            assert("h264_nvenc"@.len() != "h264_amf"@.len());
            assert("hevc_nvenc"@.len() != "h264_amf"@.len());
            assert("av1_nvenc"@.len() != "h264_amf"@.len());
            assert("h264_qsv"@[5] != "h264_amf"@[5]);
            assert("hevc_qsv"@[1] != "h264_amf"@[1]);
            assert("av1_qsv"@.len() != "h264_amf"@.len());
            assert(hw_kind("h264_amf"@) == Some((c, b)));
        }
        if c == VideoCodec::Hevc && b == EncoderBackend::Amf {
            assert("hevc"@ + "_"@ + "amf"@ =~= "hevc_amf"@);
            assert("h264_nvenc"@.len() != "hevc_amf"@.len());
            assert("hevc_nvenc"@.len() != "hevc_amf"@.len());
            assert("av1_nvenc"@.len() != "hevc_amf"@.len());
            assert("h264_qsv"@[1] != "hevc_amf"@[1]);
            assert("hevc_qsv"@[5] != "hevc_amf"@[5]);
            assert("av1_qsv"@.len() != "hevc_amf"@.len());
            assert("h264_amf"@[1] != "hevc_amf"@[1]);
            assert(hw_kind("hevc_amf"@) == Some((c, b)));
        }
        if c == VideoCodec::Av1 && b == EncoderBackend::Amf {
            assert("av1"@ + "_"@ + "amf"@ =~= "av1_amf"@);
            assert("h264_nvenc"@.len() != "av1_amf"@.len());
            assert("hevc_nvenc"@.len() != "av1_amf"@.len());
            assert("av1_nvenc"@.len() != "av1_amf"@.len());
            assert("h264_qsv"@.len() != "av1_amf"@.len());
            assert("hevc_qsv"@.len() != "av1_amf"@.len());
            assert("av1_qsv"@[4] != "av1_amf"@[4]);
            assert("h264_amf"@.len() != "av1_amf"@.len());
            assert("hevc_amf"@.len() != "av1_amf"@.len());
            assert(hw_kind("av1_amf"@) == Some((c, b)));
        }
        if c == VideoCodec::H264 && b == EncoderBackend::Videotoolbox {
            assert("h264"@ + "_"@ + "videotoolbox"@ =~= "h264_videotoolbox"@);
            assert("h264_nvenc"@.len() != "h264_videotoolbox"@.len());
            assert("hevc_nvenc"@.len() != "h264_videotoolbox"@.len());
            assert("av1_nvenc"@.len() != "h264_videotoolbox"@.len());
            assert("h264_qsv"@.len() != "h264_videotoolbox"@.len());
            assert("hevc_qsv"@.len() != "h264_videotoolbox"@.len());
            assert("av1_qsv"@.len() != "h264_videotoolbox"@.len());
            assert("h264_amf"@.len() != "h264_videotoolbox"@.len());
            assert("hevc_amf"@.len() != "h264_videotoolbox"@.len());
            assert("av1_amf"@.len() != "h264_videotoolbox"@.len());
            assert(hw_kind("h264_videotoolbox"@) == Some((c, b)));
        }
        if c == VideoCodec::Hevc && b == EncoderBackend::Videotoolbox {
            assert("hevc"@ + "_"@ + "videotoolbox"@ =~= "hevc_videotoolbox"@);
            assert("h264_nvenc"@.len() != "hevc_videotoolbox"@.len());
            assert("hevc_nvenc"@.len() != "hevc_videotoolbox"@.len());
            assert("av1_nvenc"@.len() != "hevc_videotoolbox"@.len());
            assert("h264_qsv"@.len() != "hevc_videotoolbox"@.len());
            assert("hevc_qsv"@.len() != "hevc_videotoolbox"@.len());
            assert("av1_qsv"@.len() != "hevc_videotoolbox"@.len());
            assert("h264_amf"@.len() != "hevc_videotoolbox"@.len());
            assert("hevc_amf"@.len() != "hevc_videotoolbox"@.len());
            assert("av1_amf"@.len() != "hevc_videotoolbox"@.len());
            assert("h264_videotoolbox"@[1] != "hevc_videotoolbox"@[1]);
            assert(hw_kind("hevc_videotoolbox"@) == Some((c, b)));
        }
        if c == VideoCodec::Av1 && b == EncoderBackend::Videotoolbox {
            assert("av1"@ + "_"@ + "videotoolbox"@ =~= "av1_videotoolbox"@);
            assert("h264_nvenc"@.len() != "av1_videotoolbox"@.len());
            assert("hevc_nvenc"@.len() != "av1_videotoolbox"@.len());
            assert("av1_nvenc"@.len() != "av1_videotoolbox"@.len());
            assert("h264_qsv"@.len() != "av1_videotoolbox"@.len());
            assert("hevc_qsv"@.len() != "av1_videotoolbox"@.len());
            assert("av1_qsv"@.len() != "av1_videotoolbox"@.len());
            assert("h264_amf"@.len() != "av1_videotoolbox"@.len());
            assert("hevc_amf"@.len() != "av1_videotoolbox"@.len());
            assert("av1_amf"@.len() != "av1_videotoolbox"@.len());
            assert("h264_videotoolbox"@.len() != "av1_videotoolbox"@.len());
            assert("hevc_videotoolbox"@.len() != "av1_videotoolbox"@.len());
            assert(hw_kind("av1_videotoolbox"@) == Some((c, b)));
        }
        if c == VideoCodec::H264 && b == EncoderBackend::Vaapi {
            assert("h264"@ + "_"@ + "vaapi"@ =~= "h264_vaapi"@);
            assert("h264_nvenc"@[5] != "h264_vaapi"@[5]);
            assert("hevc_nvenc"@[1] != "h264_vaapi"@[1]);
            assert("av1_nvenc"@.len() != "h264_vaapi"@.len());
            assert("h264_qsv"@.len() != "h264_vaapi"@.len());
            assert("hevc_qsv"@.len() != "h264_vaapi"@.len());
            assert("av1_qsv"@.len() != "h264_vaapi"@.len());
            assert("h264_amf"@.len() != "h264_vaapi"@.len());
            assert("hevc_amf"@.len() != "h264_vaapi"@.len());
            assert("av1_amf"@.len() != "h264_vaapi"@.len());
            assert("h264_videotoolbox"@.len() != "h264_vaapi"@.len());
            assert("hevc_videotoolbox"@.len() != "h264_vaapi"@.len());
            assert("av1_videotoolbox"@.len() != "h264_vaapi"@.len());
            assert(hw_kind("h264_vaapi"@) == Some((c, b)));
        }
        if c == VideoCodec::Hevc && b == EncoderBackend::Vaapi {
            assert("hevc"@ + "_"@ + "vaapi"@ =~= "hevc_vaapi"@);
            assert("h264_nvenc"@[1] != "hevc_vaapi"@[1]);
            assert("hevc_nvenc"@[5] != "hevc_vaapi"@[5]);
            assert("av1_nvenc"@.len() != "hevc_vaapi"@.len());
            assert("h264_qsv"@.len() != "hevc_vaapi"@.len());
            assert("hevc_qsv"@.len() != "hevc_vaapi"@.len());
            assert("av1_qsv"@.len() != "hevc_vaapi"@.len());
            assert("h264_amf"@.len() != "hevc_vaapi"@.len());
            assert("hevc_amf"@.len() != "hevc_vaapi"@.len());
            assert("av1_amf"@.len() != "hevc_vaapi"@.len());
            assert("h264_videotoolbox"@.len() != "hevc_vaapi"@.len());
            assert("hevc_videotoolbox"@.len() != "hevc_vaapi"@.len());
            assert("av1_videotoolbox"@.len() != "hevc_vaapi"@.len());
            assert("h264_vaapi"@[1] != "hevc_vaapi"@[1]);
            assert(hw_kind("hevc_vaapi"@) == Some((c, b)));
        }
        if c == VideoCodec::Av1 && b == EncoderBackend::Vaapi {
            assert("av1"@ + "_"@ + "vaapi"@ =~= "av1_vaapi"@);
            assert("h264_nvenc"@.len() != "av1_vaapi"@.len());
            assert("hevc_nvenc"@.len() != "av1_vaapi"@.len());
            assert("av1_nvenc"@[4] != "av1_vaapi"@[4]);
            assert("h264_qsv"@.len() != "av1_vaapi"@.len());
            assert("hevc_qsv"@.len() != "av1_vaapi"@.len());
            assert("av1_qsv"@.len() != "av1_vaapi"@.len());
            assert("h264_amf"@.len() != "av1_vaapi"@.len());
            assert("hevc_amf"@.len() != "av1_vaapi"@.len());
            assert("av1_amf"@.len() != "av1_vaapi"@.len());
            assert("h264_videotoolbox"@.len() != "av1_vaapi"@.len());
            assert("hevc_videotoolbox"@.len() != "av1_vaapi"@.len());
            assert("av1_videotoolbox"@.len() != "av1_vaapi"@.len());
            assert("h264_vaapi"@.len() != "av1_vaapi"@.len());
            assert("hevc_vaapi"@.len() != "av1_vaapi"@.len());
            assert(hw_kind("av1_vaapi"@) == Some((c, b)));
        }
    }
}

/// Every name that the line parser finds is a tracked encoder, so it maps.
pub proof fn lemma_parsed_names_tracked(line: Seq<char>)
    ensures
        parsed_encoder_name(line) matches Some(n) ==> hw_kind(n) is Some,
{
}

/// Names of the tracked hardware encoders that the lines `ls` list, in order.
pub open spec fn listed_names(ls: Seq<Seq<char>>) -> Seq<Seq<char>>
    decreases ls.len(),
{
    if ls.len() == 0 {
        seq![]
    } else {
        let front = listed_names(ls.drop_last());
        match parsed_encoder_name(ls.last()) {
            Some(n) => front.push(n),
            None => front,
        }
    }
}

/// The tracked hardware encoders that an FFmpeg encoder listing names, in
/// order, at FFmpeg priority 3 and without device names.
pub fn encoders_from_listing(listing: &str) -> (r: Vec<HwEncoder>)
    ensures
        r@.len() == listed_names(lines(listing@)).len(),
        forall|i: int|
            0 <= i < r@.len() ==> {
                &&& (#[trigger] r@[i]).ffmpeg_name@ == listed_names(lines(listing@))[i]
                &&& hw_kind(r@[i].ffmpeg_name@) == Some((r@[i].codec, r@[i].backend))
                &&& r@[i].priority == 3
                &&& r@[i].device is None
            },
{
    let ls = lines_of(listing);
    let ghost lv = strings_view(ls@);
    let mut out: Vec<HwEncoder> = Vec::new();
    let mut i: usize = 0;
    while i < ls.len()
        invariant
            i <= ls@.len(),
            lv == strings_view(ls@),
            out@.len() == listed_names(lv.take(i as int)).len(),
            forall|k: int|
                0 <= k < out@.len() ==> {
                    &&& (#[trigger] out@[k]).ffmpeg_name@ == listed_names(lv.take(i as int))[k]
                    &&& hw_kind(out@[k].ffmpeg_name@) == Some((out@[k].codec, out@[k].backend))
                    &&& out@[k].priority == 3
                    &&& out@[k].device is None
                },
        decreases ls.len() - i,
    {
        assert(lv.take(i + 1).drop_last() =~= lv.take(i as int));
        assert(lv.take(i + 1).last() == ls@[i as int]@);
        let parsed = parse_encoder_line(ls[i].as_str());
        match parsed {
            Some(info) => {
                let e = map_ffmpeg_encoder(&info);
                match e {
                    Some(e) => {
                        out.push(e);
                    },
                    None => {
                        assert(false);
                    },
                }
            },
            None => {},
        }
        i += 1;
    }
    assert(lv.take(ls@.len() as int) =~= lv);
    out
}


/// The encoder name on one line of FFmpeg's encoder list: the word after
/// the flags, on any line but the heading, the legend (`V..... = Video`)
/// and the rule.
pub open spec fn listed_encoder_name(line: Seq<char>) -> Option<Seq<char>> {
    let t = trim(line);
    if t.len() == 0 || starts_with(t, "Encoders"@) || starts_with(t, "----"@) || words(t).len() < 2 || words(
        t,
    )[1] == "="@ {
        None
    } else {
        Some(words(t)[1])
    }
}

/// Names of all encoders that the lines `ls` list, in order.
pub open spec fn all_listed_names(ls: Seq<Seq<char>>) -> Seq<Seq<char>>
    decreases ls.len(),
{
    if ls.len() == 0 {
        seq![]
    } else {
        let front = all_listed_names(ls.drop_last());
        match listed_encoder_name(ls.last()) {
            Some(n) => front.push(n),
            None => front,
        }
    }
}

fn encoder_name_of_line(line: &str) -> (r: Option<String>)
    ensures
        opt_view(r) == listed_encoder_name(line@),
{
    let raw = chars_of(line);
    let t = trim_exec(&raw);
    let enc = chars_of("Encoders");
    let dash = chars_of("----");
    if t.len() == 0 || starts_with_exec(&t, &enc) || starts_with_exec(&t, &dash) {
        return None;
    }
    let parts = split_whitespace(&t);
    if parts.len() < 2 {
        return None;
    }
    assert(views(parts@)[1] == parts@[1]@);
    if chars_eq(&parts[1], &chars_of("=")) {
        return None;
    }
    Some(string_of(&parts[1]))
}

/// The names of all encoders in an FFmpeg encoder listing, in order: what
/// FFmpeg can encode with, hardware or not.
pub fn encoder_names_from_listing(listing: &str) -> (r: Vec<String>)
    ensures
        strings_view(r@) == all_listed_names(lines(listing@)),
{
    let ls = lines_of(listing);
    let ghost lv = strings_view(ls@);
    let mut out: Vec<String> = Vec::new();
    let mut i: usize = 0;
    while i < ls.len()
        invariant
            i <= ls@.len(),
            lv == strings_view(ls@),
            strings_view(out@) == all_listed_names(lv.take(i as int)),
        decreases ls.len() - i,
    {
        assert(lv.take(i + 1).drop_last() =~= lv.take(i as int));
        assert(lv.take(i + 1).last() == ls@[i as int]@);
        let ghost before = strings_view(out@);
        match encoder_name_of_line(ls[i].as_str()) {
            Some(n) => {
                out.push(n);
                assert(strings_view(out@) =~= before.push(n@));
            },
            None => {},
        }
        i += 1;
    }
    assert(lv.take(ls@.len() as int) =~= lv);
    out
}

/// Name of the FFmpeg program on the host.
pub open spec fn ffmpeg_binary_spec(os: HostOs) -> Seq<char> {
    if os == HostOs::Windows {
        "ffmpeg.exe"@
    } else {
        "ffmpeg"@
    }
}

/// Usual install locations of FFmpeg on each system.
pub open spec fn system_ffmpeg_paths(os: HostOs) -> Seq<Seq<char>> {
    match os {
        HostOs::Windows => seq![
            "C:\\ffmpeg\\bin\\ffmpeg.exe"@,
            "C:\\Program Files\\ffmpeg\\bin\\ffmpeg.exe"@,
            "C:\\Program Files (x86)\\ffmpeg\\bin\\ffmpeg.exe"@,
        ],
        HostOs::Macos => seq!["/usr/local/bin/ffmpeg"@, "/opt/homebrew/bin/ffmpeg"@, "/usr/bin/ffmpeg"@],
        _ => seq!["/usr/bin/ffmpeg"@, "/usr/local/bin/ffmpeg"@, "/opt/ffmpeg/bin/ffmpeg"@],
    }
}

/// The main path separator on each system.
pub open spec fn os_separator(os: HostOs) -> char {
    if os == HostOs::Windows {
        '\\'
    } else {
        '/'
    }
}

/// The places searched for FFmpeg, in order: the working directory, the
/// project root (when known), each directory of `PATH`, then the usual
/// install locations.
pub open spec fn ffmpeg_search_spec(
    os: HostOs,
    current_dir: Seq<char>,
    project_root: Option<Seq<char>>,
    path_dirs: Seq<Seq<char>>,
) -> Seq<Seq<char>> {
    let name = ffmpeg_binary_spec(os);
    let sep = os_separator(os);
    seq![join_spec(current_dir, name, sep)] + (match project_root {
        Some(p) => seq![join_spec(p, name, sep)],
        None => seq![],
    }) + path_dirs.map_values(|d: Seq<char>| join_spec(d, name, sep)) + system_ffmpeg_paths(os)
}

/// The candidate paths of the FFmpeg program, in the order they are tried.
pub fn ffmpeg_search_paths(os: HostOs, current_dir: &str, project_root: Option<&str>, path_dirs: &[String]) -> (r:
    Vec<String>)
    ensures
        strings_view(r@) == ffmpeg_search_spec(os, current_dir@, opt_str_view(project_root), strings_view(path_dirs@)),
{
    let name: &str = if os == HostOs::Windows {
        "ffmpeg.exe"
    } else {
        "ffmpeg"
    };
    let sep: char = if os == HostOs::Windows {
        '\\'
    } else {
        '/'
    };
    let mut r: Vec<String> = Vec::new();
    r.push(path_join_with(current_dir, name, sep));
    match project_root {
        Some(p) => r.push(path_join_with(p, name, sep)),
        None => {},
    }
    let ghost head = strings_view(r@);
    let ghost dv = strings_view(path_dirs@);
    let mut i: usize = 0;
    while i < path_dirs.len()
        invariant
            i <= path_dirs@.len(),
            name@ == ffmpeg_binary_spec(os),
            sep == os_separator(os),
            dv == strings_view(path_dirs@),
            strings_view(r@) == head + dv.take(i as int).map_values(|d: Seq<char>| join_spec(d, ffmpeg_binary_spec(os), sep)),
        decreases path_dirs.len() - i,
    {
        let ghost before = strings_view(r@);
        let p = path_join_with(path_dirs[i].as_str(), name, sep);
        r.push(p);
        assert(strings_view(r@) =~= before.push(p@));
        assert(dv.take(i + 1).map_values(|d: Seq<char>| join_spec(d, ffmpeg_binary_spec(os), sep)) =~= dv.take(
            i as int,
        ).map_values(|d: Seq<char>| join_spec(d, ffmpeg_binary_spec(os), sep)).push(join_spec(dv[i as int], ffmpeg_binary_spec(os), sep)));
        i += 1;
    }
    assert(dv.take(dv.len() as int) =~= dv);
    let ghost mid = strings_view(r@);
    let sys: Vec<&str> = match os {
        HostOs::Windows => vec![
            "C:\\ffmpeg\\bin\\ffmpeg.exe",
            "C:\\Program Files\\ffmpeg\\bin\\ffmpeg.exe",
            "C:\\Program Files (x86)\\ffmpeg\\bin\\ffmpeg.exe",
        ],
        HostOs::Macos => vec!["/usr/local/bin/ffmpeg", "/opt/homebrew/bin/ffmpeg", "/usr/bin/ffmpeg"],
        _ => vec!["/usr/bin/ffmpeg", "/usr/local/bin/ffmpeg", "/opt/ffmpeg/bin/ffmpeg"],
    };
    let mut k: usize = 0;
    while k < sys.len()
        invariant
            k <= sys@.len(),
            sys@.map_values(|s: &str| s@) == system_ffmpeg_paths(os),
            strings_view(r@) == mid + system_ffmpeg_paths(os).take(k as int),
        decreases sys.len() - k,
    {
        let ghost before = strings_view(r@);
        let item: &str = sys[k];
        let o = item.to_string();
        assert(o@ == system_ffmpeg_paths(os)[k as int]) by {
            assert(sys@.map_values(|s: &str| s@)[k as int] == sys@[k as int]@);
        }
        r.push(o);
        assert(strings_view(r@) =~= before.push(system_ffmpeg_paths(os)[k as int]));
        assert(system_ffmpeg_paths(os).take(k + 1) =~= system_ffmpeg_paths(os).take(k as int).push(
            system_ffmpeg_paths(os)[k as int],
        ));
        k += 1;
    }
    assert(system_ffmpeg_paths(os).take(sys@.len() as int) =~= system_ffmpeg_paths(os));
    assert(strings_view(r@) =~= ffmpeg_search_spec(os, current_dir@, opt_str_view(project_root), strings_view(path_dirs@)));
    r
}

/// The first candidate that exists (`exists[i]` tells of `candidates[i]`),
/// or the error that FFmpeg was not found.
pub fn find_ffmpeg(candidates: &[String], exists: &[bool]) -> (r: Result<String, String>)
    ensures
        match r {
            Ok(p) => exists|i: int|
                0 <= i < candidates@.len() && i < exists@.len() && exists@[i] && p@ == candidates@[i]@ && forall|j: int|
                    0 <= j < i ==> !(j < exists@.len() && #[trigger] exists@[j]),
            Err(e) => e@ == "FFmpeg not found in any searched location"@ && forall|i: int|
                0 <= i < candidates@.len() ==> !(i < exists@.len() && #[trigger] exists@[i]),
        },
{
    let mut i: usize = 0;
    while i < candidates.len()
        invariant
            i <= candidates@.len(),
            forall|j: int| 0 <= j < i ==> !(j < exists@.len() && #[trigger] exists@[j]),
        decreases candidates.len() - i,
    {
        if i < exists.len() && exists[i] {
            return Ok(candidates[i].clone());
        }
        i += 1;
    }
    Err("FFmpeg not found in any searched location".to_string())
}

} // verus!
