//! Preparing media for DLNA renderers: which encoder to use, the FFmpeg
//! arguments, the cache of converted files and the stream URLs.
use vstd::prelude::*;
use crate::encoder::HostOs;
use crate::text::{append, chars_of, contains, contains_str, str_eq, strings_view};

pub mod cache;
pub mod probe;
pub mod stream;

verus! {

/// The H.264 encoder used to convert media.
#[derive(Debug, Clone, Copy, PartialEq, Eq, Structural)]
pub enum HardwareEncoder {
    Software,
    Nvidia,
    IntelQsv,
    AmdVce,
    AppleVtb,
    Vaapi,
}

pub open spec fn hardware_encoder_name(e: HardwareEncoder) -> Seq<char> {
    match e {
        HardwareEncoder::Software => "Software"@,
        HardwareEncoder::Nvidia => "Nvidia"@,
        HardwareEncoder::IntelQsv => "IntelQsv"@,
        HardwareEncoder::AmdVce => "AmdVce"@,
        HardwareEncoder::AppleVtb => "AppleVtb"@,
        HardwareEncoder::Vaapi => "Vaapi"@,
    }
}

impl HardwareEncoder {
    /// The name of the encoder variant (`Nvidia`, `IntelQsv`, ...).
    pub fn name(&self) -> (r: &'static str)
        ensures
            r@ == hardware_encoder_name(*self),
    {
        match self {
            HardwareEncoder::Software => "Software",
            HardwareEncoder::Nvidia => "Nvidia",
            HardwareEncoder::IntelQsv => "IntelQsv",
            HardwareEncoder::AmdVce => "AmdVce",
            HardwareEncoder::AppleVtb => "AppleVtb",
            HardwareEncoder::Vaapi => "Vaapi",
        }
    }
}

/// The encoder that FFmpeg's encoder listing offers, tried in the order AMD,
/// NVIDIA, Intel, Apple, and VAAPI on Linux; software encoding when none
/// is listed or FFmpeg could not be run (no listing).
pub open spec fn encoder_from_listing_spec(listing: Option<Seq<char>>, os: HostOs) -> HardwareEncoder {
    match listing {
        None => HardwareEncoder::Software,
        Some(l) => if contains(l, "h264_amf"@) {
            HardwareEncoder::AmdVce
        } else if contains(l, "h264_nvenc"@) {
            HardwareEncoder::Nvidia
        } else if contains(l, "h264_qsv"@) {
            HardwareEncoder::IntelQsv
        } else if contains(l, "h264_videotoolbox"@) {
            HardwareEncoder::AppleVtb
        } else if os == HostOs::Linux && contains(l, "h264_vaapi"@) {
            HardwareEncoder::Vaapi
        } else {
            HardwareEncoder::Software
        },
    }
}

/// The FFmpeg H.264 encoder of each hardware encoder.
pub open spec fn h264_encoder_name(e: HardwareEncoder) -> Option<Seq<char>> {
    match e {
        HardwareEncoder::AmdVce => Some("h264_amf"@),
        HardwareEncoder::Nvidia => Some("h264_nvenc"@),
        HardwareEncoder::IntelQsv => Some("h264_qsv"@),
        HardwareEncoder::AppleVtb => Some("h264_videotoolbox"@),
        HardwareEncoder::Vaapi => Some("h264_vaapi"@),
        HardwareEncoder::Software => None,
    }
}

/// The hardware encoders in the order detection tries them.
pub open spec fn detection_order() -> Seq<HardwareEncoder> {
    seq![
        HardwareEncoder::AmdVce,
        HardwareEncoder::Nvidia,
        HardwareEncoder::IntelQsv,
        HardwareEncoder::AppleVtb,
        HardwareEncoder::Vaapi,
    ]
}

/// The listing names the encoder's H.264 encoder, and the encoder can be
/// used on the system (VAAPI only on Linux).
pub open spec fn listed_and_usable(e: HardwareEncoder, listing: Seq<char>, os: HostOs) -> bool {
    &&& h264_encoder_name(e) matches Some(n) && contains(listing, n)
    &&& (e == HardwareEncoder::Vaapi ==> os == HostOs::Linux)
}

/// Detection picks a hardware encoder exactly when the listing names a
/// usable one; what it picks is named in the listing; and no encoder that
/// detection tries earlier is named there. Without a listing it picks
/// software encoding.
pub proof fn lemma_detected_encoder(listing: Option<Seq<char>>, os: HostOs)
    ensures
        listing is None ==> encoder_from_listing_spec(listing, os) == HardwareEncoder::Software,
        listing matches Some(l) ==> ({
            let r = encoder_from_listing_spec(listing, os);
            &&& (r == HardwareEncoder::Software) <==> !(exists|i: int|
                0 <= i < detection_order().len() && listed_and_usable(#[trigger] detection_order()[i], l, os))
            &&& r != HardwareEncoder::Software ==> listed_and_usable(r, l, os)
            &&& forall|i: int, j: int|
                #![trigger detection_order()[i], detection_order()[j]]
                0 <= i < j < detection_order().len() && detection_order()[j] == r ==> !listed_and_usable(
                    detection_order()[i],
                    l,
                    os,
                )
        }),
{
    let o = detection_order();
    assert(o[0] == HardwareEncoder::AmdVce && o[1] == HardwareEncoder::Nvidia && o[2] == HardwareEncoder::IntelQsv);
    assert(o[3] == HardwareEncoder::AppleVtb && o[4] == HardwareEncoder::Vaapi);
    if let Some(l) = listing {
        let r = encoder_from_listing_spec(listing, os);
        if r != HardwareEncoder::Software {
            let i: int = if r == HardwareEncoder::AmdVce {
                0
            } else if r == HardwareEncoder::Nvidia {
                1
            } else if r == HardwareEncoder::IntelQsv {
                2
            } else if r == HardwareEncoder::AppleVtb {
                3
            } else {
                4
            };
            assert(listed_and_usable(o[i], l, os));
        }
    }
}

/// Pick the encoder from the output of `ffmpeg -hide_banner -encoders`.
pub fn detect_hardware_encoder(listing: Option<&str>, os: HostOs) -> (r: HardwareEncoder)
    ensures
        r == encoder_from_listing_spec(crate::text::opt_str_view(listing), os),
{
    let l = match listing {
        None => return HardwareEncoder::Software,
        Some(l) => chars_of(l),
    };
    if contains_str(&l, "h264_amf") {
        HardwareEncoder::AmdVce
    } else if contains_str(&l, "h264_nvenc") {
        HardwareEncoder::Nvidia
    } else if contains_str(&l, "h264_qsv") {
        HardwareEncoder::IntelQsv
    } else if contains_str(&l, "h264_videotoolbox") {
        HardwareEncoder::AppleVtb
    } else if os == HostOs::Linux && contains_str(&l, "h264_vaapi") {
        HardwareEncoder::Vaapi
    } else {
        HardwareEncoder::Software
    }
}

/// The encoder a preference names; none for `auto` and any other text,
/// which leave the choice to detection.
pub open spec fn preference_spec(pref: Seq<char>) -> Option<HardwareEncoder> {
    if pref == "nvidia"@ {
        Some(HardwareEncoder::Nvidia)
    } else if pref == "amd"@ {
        Some(HardwareEncoder::AmdVce)
    } else if pref == "intel"@ {
        Some(HardwareEncoder::IntelQsv)
    } else if pref == "apple"@ {
        Some(HardwareEncoder::AppleVtb)
    } else if pref == "vaapi"@ {
        Some(HardwareEncoder::Vaapi)
    } else if pref == "software"@ {
        Some(HardwareEncoder::Software)
    } else {
        None
    }
}

/// The encoder that a preference names; `None` when detection must decide.
pub fn get_encoder_from_preference(pref: &str) -> (r: Option<HardwareEncoder>)
    ensures
        r == preference_spec(pref@),
{
    if str_eq(pref, "nvidia") {
        Some(HardwareEncoder::Nvidia)
    } else if str_eq(pref, "amd") {
        Some(HardwareEncoder::AmdVce)
    } else if str_eq(pref, "intel") {
        Some(HardwareEncoder::IntelQsv)
    } else if str_eq(pref, "apple") {
        Some(HardwareEncoder::AppleVtb)
    } else if str_eq(pref, "vaapi") {
        Some(HardwareEncoder::Vaapi)
    } else if str_eq(pref, "software") {
        Some(HardwareEncoder::Software)
    } else {
        None
    }
}

/// FFmpeg video arguments of each encoder.
pub open spec fn video_args_spec(hw: HardwareEncoder) -> Seq<Seq<char>> {
    match hw {
        HardwareEncoder::Nvidia => seq![
            "-c:v"@, "h264_nvenc"@, "-preset"@, "p4"@, "-tune"@, "ll"@, "-rc"@, "constqp"@, "-qp"@,
            "18"@, "-bf"@, "0"@, "-level"@, "4.0"@,
        ],
        HardwareEncoder::IntelQsv => seq![
            "-c:v"@, "h264_qsv"@, "-preset"@, "veryfast"@, "-global_quality"@, "18"@,
        ],
        HardwareEncoder::AmdVce => seq!["-c:v"@, "h264_amf"@, "-preset"@, "quality"@, "-qp"@, "18"@],
        HardwareEncoder::AppleVtb => seq!["-c:v"@, "h264_videotoolbox"@, "-q"@, "18"@],
        HardwareEncoder::Vaapi => seq![
            "-vaapi_device"@, "/dev/dri/renderD128"@, "-vf"@, "format=nv12,hwupload"@, "-c:v"@,
            "h264_vaapi"@, "-qp"@, "18"@,
        ],
        HardwareEncoder::Software => seq![
            "-c:v"@, "libx264"@, "-preset"@, "ultrafast"@, "-tune"@, "zerolatency"@, "-crf"@, "18"@,
            "-profile:v"@, "baseline"@, "-pix_fmt"@, "yuv420p"@, "-level"@, "4.0"@,
        ],
    }
}

/// FFmpeg audio arguments: AAC at 128 kbit/s, whatever the encoder.
pub open spec fn audio_args_spec() -> Seq<Seq<char>> {
    seq!["-c:a"@, "aac"@, "-b:a"@, "128k"@]
}

fn owned(items: &[&str]) -> (r: Vec<String>)
    ensures
        strings_view(r@) == items@.map_values(|s: &str| s@),
{
    let mut out: Vec<String> = Vec::new();
    let mut i: usize = 0;
    while i < items.len()
        invariant
            i <= items@.len(),
            strings_view(out@) == items@.take(i as int).map_values(|s: &str| s@),
        decreases items.len() - i,
    {
        let ghost before = out@;
        let item: &str = items[i];
        let o = item.to_string();
        assert(o@ == items@[i as int]@);
        out.push(o);
        assert(strings_view(out@) =~= strings_view(before).push(items@[i as int]@));
        assert(items@.take(i + 1).map_values(|s: &str| s@) =~= items@.take(i as int).map_values(|s: &str| s@).push(
            items@[i as int]@,
        ));
        i += 1;
    }
    assert(items@.take(items@.len() as int) =~= items@);
    out
}

/// The FFmpeg video and audio arguments that convert to H.264 and AAC with
/// the encoder.
pub fn build_encoder_args(hw: &HardwareEncoder) -> (r: (Vec<String>, Vec<String>))
    ensures
        strings_view(r.0@) == video_args_spec(*hw),
        strings_view(r.1@) == audio_args_spec(),
{
    let video: Vec<&str> = match hw {
        HardwareEncoder::Nvidia => vec![
            "-c:v", "h264_nvenc", "-preset", "p4", "-tune", "ll", "-rc", "constqp", "-qp", "18", "-bf", "0",
            "-level", "4.0",
        ],
        HardwareEncoder::IntelQsv => vec!["-c:v", "h264_qsv", "-preset", "veryfast", "-global_quality", "18"],
        HardwareEncoder::AmdVce => vec!["-c:v", "h264_amf", "-preset", "quality", "-qp", "18"],
        HardwareEncoder::AppleVtb => vec!["-c:v", "h264_videotoolbox", "-q", "18"],
        HardwareEncoder::Vaapi => vec![
            "-vaapi_device", "/dev/dri/renderD128", "-vf", "format=nv12,hwupload", "-c:v", "h264_vaapi",
            "-qp", "18",
        ],
        HardwareEncoder::Software => vec![
            "-c:v", "libx264", "-preset", "ultrafast", "-tune", "zerolatency", "-crf", "18", "-profile:v",
            "baseline", "-pix_fmt", "yuv420p", "-level", "4.0",
        ],
    };
    let audio: Vec<&str> = vec!["-c:a", "aac", "-b:a", "128k"];
    let v = owned(&video);
    let a = owned(&audio);
    assert(strings_view(v@) =~= video_args_spec(*hw));
    assert(strings_view(a@) =~= audio_args_spec());
    (v, a)
}

/// A hardware encoder that fails is retried with software encoding.
pub fn should_fallback_to_software(encoder: &HardwareEncoder) -> (r: bool)
    ensures
        r == (*encoder != HardwareEncoder::Software),
{
    !matches!(encoder, HardwareEncoder::Software)
}

pub open spec fn fallback_message_spec(encoder: HardwareEncoder, hardware_error: Seq<char>, software_error: Seq<char>) -> Seq<
    char,
> {
    "Preferred encoder "@ + hardware_encoder_name(encoder) + " failed: "@ + hardware_error
        + "; software fallback failed: "@ + software_error
}

/// The error when both the preferred encoder and the software fallback
/// failed.
pub fn software_fallback_failure_message(encoder: &HardwareEncoder, hardware_error: &str, software_error: &str) -> (r:
    String)
    ensures
        r@ == fallback_message_spec(*encoder, hardware_error@, software_error@),
{
    let mut m = "Preferred encoder ".to_string();
    append(&mut m, encoder.name());
    append(&mut m, " failed: ");
    append(&mut m, hardware_error);
    append(&mut m, "; software fallback failed: ");
    append(&mut m, software_error);
    m
}

/// What a conversion with fallback ends in: the preferred encoder's result
/// when it succeeded or is the software encoder; else the software
/// result, its error joined with the first one.
pub open spec fn transcode_outcome_spec(
    encoder: HardwareEncoder,
    preferred: Result<Seq<char>, Seq<char>>,
    software: Result<Seq<char>, Seq<char>>,
) -> Result<Seq<char>, Seq<char>> {
    match preferred {
        Ok(p) => Ok(p),
        Err(e) => if encoder == HardwareEncoder::Software {
            Err(e)
        } else {
            match software {
                Ok(p) => Ok(p),
                Err(s) => Err(fallback_message_spec(encoder, e, s)),
            }
        },
    }
}

/// Combine the result of converting with the preferred encoder and, when
/// it failed and was a hardware encoder, the result of the software retry.
pub fn transcode_outcome(
    encoder: &HardwareEncoder,
    preferred: Result<String, String>,
    software: Option<Result<String, String>>,
) -> (r: Result<String, String>)
    requires
        preferred is Err && *encoder != HardwareEncoder::Software ==> software is Some,
    ensures
        ({
            let pv = match preferred {
                Ok(p) => Ok(p@),
                Err(e) => Err(e@),
            };
            let sv = match software {
                Some(Ok(p)) => Ok(p@),
                Some(Err(e)) => Err(e@),
                None => Err(Seq::<char>::empty()),
            };
            let o = transcode_outcome_spec(*encoder, pv, sv);
            &&& r matches Ok(p) ==> o == Ok::<Seq<char>, Seq<char>>(p@)
            &&& r matches Err(e) ==> o == Err::<Seq<char>, Seq<char>>(e@)
        }),
{
    match preferred {
        Ok(p) => Ok(p),
        Err(e) => {
            if !should_fallback_to_software(encoder) {
                return Err(e);
            }
            match software {
                Some(Ok(p)) => Ok(p),
                Some(Err(s)) => Err(software_fallback_failure_message(encoder, e.as_str(), s.as_str())),
                None => Err(e),
            }
        },
    }
}

} // verus!
