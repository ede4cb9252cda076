//! Encoders of the operating system's media frameworks (layer L2).
use vstd::prelude::*;
use crate::encoder::{enc_is, make_encoder, EncoderBackend, HostOs, HwEncoder, VideoCodec};
use crate::text::{chars_of, contains, contains_str, opt_view};

verus! {

/// What the host reported to the framework probes.
#[derive(Debug, Clone)]
pub struct OsFrameworkProbe {
    /// Output of `ffmpeg -hide_banner -encoders`, when FFmpeg ran.
    pub ffmpeg_encoders: Option<String>,
    /// Name of the VAAPI device (Linux).
    pub vaapi_device: Option<String>,
    /// A `/dev/dri/renderD*` node exists (Linux).
    pub has_render_device: bool,
    /// Standard output followed by standard error of `vainfo`, when it ran (Linux).
    pub vainfo_output: Option<String>,
    /// The Media Foundation hardware encoder registry key exists (Windows).
    pub mf_registry_present: bool,
}

/// An encoder kind: codec, backend, device and FFmpeg name.
pub type EncKind = (VideoCodec, EncoderBackend, Option<Seq<char>>, Seq<char>);

pub open spec fn listed(listing: Option<Seq<char>>, name: Seq<char>) -> bool {
    listing matches Some(l) && contains(l, name)
}

pub open spec fn when(c: bool, k: EncKind) -> Seq<EncKind> {
    if c {
        seq![k]
    } else {
        seq![]
    }
}

pub open spec fn vaapi_from_listing(listing: Option<Seq<char>>, dev: Option<Seq<char>>) -> Seq<EncKind> {
    when(listed(listing, "h264_vaapi"@), (VideoCodec::H264, EncoderBackend::Vaapi, dev, "h264_vaapi"@))
        + when(
        listed(listing, "hevc_vaapi"@),
        (VideoCodec::Hevc, EncoderBackend::Vaapi, dev, "hevc_vaapi"@),
    ) + when(listed(listing, "vp9_vaapi"@), (VideoCodec::Vp9, EncoderBackend::Vaapi, dev, "vp9_vaapi"@))
        + when(listed(listing, "av1_vaapi"@), (VideoCodec::Av1, EncoderBackend::Vaapi, dev, "av1_vaapi"@))
}

pub open spec fn vaapi_from_vainfo(out: Seq<char>, dev: Option<Seq<char>>) -> Seq<EncKind> {
    if contains(out, "VAEntrypointEncSlice"@) || contains(out, "VAEntrypointEncSliceLC"@) {
        when(
            contains(out, "H264"@) || contains(out, "AVC"@),
            (VideoCodec::H264, EncoderBackend::Vaapi, dev, "h264_vaapi"@),
        ) + when(
            contains(out, "HEVC"@) || contains(out, "H265"@),
            (VideoCodec::Hevc, EncoderBackend::Vaapi, dev, "hevc_vaapi"@),
        ) + when(contains(out, "VP9"@), (VideoCodec::Vp9, EncoderBackend::Vaapi, dev, "vp9_vaapi"@))
            + when(contains(out, "AV1"@), (VideoCodec::Av1, EncoderBackend::Vaapi, dev, "av1_vaapi"@))
    } else {
        seq![]
    }
}

pub open spec fn linux_kinds(p: OsFrameworkProbe) -> Seq<EncKind> {
    let from_ffmpeg = vaapi_from_listing(opt_view(p.ffmpeg_encoders), opt_view(p.vaapi_device));
    if from_ffmpeg.len() == 0 && p.has_render_device {
        match p.vainfo_output {
            Some(v) => vaapi_from_vainfo(v@, opt_view(p.vaapi_device)),
            None => seq![],
        }
    } else {
        from_ffmpeg
    }
}

pub open spec fn macos_kinds(p: OsFrameworkProbe) -> Seq<EncKind> {
    let l = opt_view(p.ffmpeg_encoders);
    let d = Some("Apple VideoToolbox"@);
    when(listed(l, "h264_videotoolbox"@), (VideoCodec::H264, EncoderBackend::Videotoolbox, d, "h264_videotoolbox"@))
        + when(
        listed(l, "hevc_videotoolbox"@),
        (VideoCodec::Hevc, EncoderBackend::Videotoolbox, d, "hevc_videotoolbox"@),
    ) + when(
        listed(l, "av1_videotoolbox"@),
        (VideoCodec::Av1, EncoderBackend::Videotoolbox, d, "av1_videotoolbox"@),
    )
}

pub open spec fn windows_kinds(p: OsFrameworkProbe) -> Seq<EncKind> {
    let l = opt_view(p.ffmpeg_encoders);
    let d = Some("Windows Media Foundation"@);
    let found = when(listed(l, "h264_mf"@), (VideoCodec::H264, EncoderBackend::Mf, d, "h264_mf"@))
        + when(listed(l, "hevc_mf"@), (VideoCodec::Hevc, EncoderBackend::Mf, d, "hevc_mf"@));
    if found.len() == 0 && p.mf_registry_present {
        let h = Some("Windows Media Foundation (Hardware)"@);
        seq![
            (VideoCodec::H264, EncoderBackend::Mf, h, "h264_mf"@),
            (VideoCodec::Hevc, EncoderBackend::Mf, h, "hevc_mf"@),
        ]
    } else {
        found
    }
}

/// The framework encoders of the host's operating system.
pub open spec fn framework_kinds(os: HostOs, p: OsFrameworkProbe) -> Seq<EncKind> {
    match os {
        HostOs::Windows => windows_kinds(p),
        HostOs::Macos => macos_kinds(p),
        HostOs::Linux => linux_kinds(p),
        HostOs::Other => seq![],
    }
}

/// `v` holds encoders of the given kinds, in order, at priority 2.
pub open spec fn encoders_are(v: Seq<HwEncoder>, ks: Seq<EncKind>) -> bool {
    &&& v.len() == ks.len()
    &&& forall|i: int|
        0 <= i < v.len() ==> {
            let k = #[trigger] ks[i];
            enc_is(v[i], k.0, k.1, k.2, 2, k.3)
        }
}

fn push_kind(
    out: &mut Vec<HwEncoder>,
    cond: bool,
    codec: VideoCodec,
    backend: EncoderBackend,
    device: &Option<String>,
    name: &str,
    Ghost(ks): Ghost<Seq<EncKind>>,
)
    requires
        encoders_are(old(out)@, ks),
    ensures
        encoders_are(final(out)@, ks + when(cond, (codec, backend, opt_view(*device), name@))),
{
    if cond {
        out.push(make_encoder(codec, backend, device, 2, name));
        assert(ks + when(cond, (codec, backend, opt_view(*device), name@)) =~= ks.push(
            (codec, backend, opt_view(*device), name@),
        ));
    } else {
        assert(ks + when(cond, (codec, backend, opt_view(*device), name@)) =~= ks);
    }
}

fn is_listed(listing: &Option<String>, name: &str) -> (r: bool)
    ensures
        r == listed(opt_view(*listing), name@),
{
    match listing {
        Some(l) => {
            let v = chars_of(l.as_str());
            contains_str(&v, name)
        },
        None => false,
    }
}

/// Encoders of the OS media frameworks: VAAPI on Linux (from FFmpeg's list,
/// else from `vainfo` when a render node exists), VideoToolbox on macOS,
/// Media Foundation on Windows (from FFmpeg's list, else from the registry),
/// all at priority 2.
pub fn detect_os_framework_encoders(os: HostOs, probe: &OsFrameworkProbe) -> (r: Result<
    Vec<HwEncoder>,
    String,
>)
    ensures
        r matches Ok(v) && encoders_are(v@, framework_kinds(os, *probe)),
{
    let mut out: Vec<HwEncoder> = Vec::new();
    let l = &probe.ffmpeg_encoders;
    match os {
        HostOs::Linux => {
            let d = &probe.vaapi_device;
            let ghost dv = opt_view(*d);
            let ghost lv = opt_view(*l);
            push_kind(&mut out, is_listed(l, "h264_vaapi"), VideoCodec::H264, EncoderBackend::Vaapi, d, "h264_vaapi", Ghost(Seq::<EncKind>::empty()));
            assert(Seq::<EncKind>::empty() + when(listed(lv, "h264_vaapi"@), (VideoCodec::H264, EncoderBackend::Vaapi, dv, "h264_vaapi"@)) =~= when(listed(lv, "h264_vaapi"@), (VideoCodec::H264, EncoderBackend::Vaapi, dv, "h264_vaapi"@)));
            let ghost k1 = when(listed(lv, "h264_vaapi"@), (VideoCodec::H264, EncoderBackend::Vaapi, dv, "h264_vaapi"@));
            push_kind(&mut out, is_listed(l, "hevc_vaapi"), VideoCodec::Hevc, EncoderBackend::Vaapi, d, "hevc_vaapi", Ghost(k1));
            let ghost k2 = k1 + when(listed(lv, "hevc_vaapi"@), (VideoCodec::Hevc, EncoderBackend::Vaapi, dv, "hevc_vaapi"@));
            push_kind(&mut out, is_listed(l, "vp9_vaapi"), VideoCodec::Vp9, EncoderBackend::Vaapi, d, "vp9_vaapi", Ghost(k2));
            let ghost k3 = k2 + when(listed(lv, "vp9_vaapi"@), (VideoCodec::Vp9, EncoderBackend::Vaapi, dv, "vp9_vaapi"@));
            push_kind(&mut out, is_listed(l, "av1_vaapi"), VideoCodec::Av1, EncoderBackend::Vaapi, d, "av1_vaapi", Ghost(k3));
            assert(encoders_are(out@, vaapi_from_listing(lv, dv)));
            if out.len() == 0 && probe.has_render_device {
                if let Some(v) = &probe.vainfo_output {
                    let c = chars_of(v.as_str());
                    if contains_str(&c, "VAEntrypointEncSlice") || contains_str(&c, "VAEntrypointEncSliceLC") {
                        let ghost e0: Seq<EncKind> = Seq::empty();
                        push_kind(&mut out, contains_str(&c, "H264") || contains_str(&c, "AVC"), VideoCodec::H264, EncoderBackend::Vaapi, d, "h264_vaapi", Ghost(e0));
                        let ghost e1 = e0 + when(contains(c@, "H264"@) || contains(c@, "AVC"@), (VideoCodec::H264, EncoderBackend::Vaapi, dv, "h264_vaapi"@));
                        push_kind(&mut out, contains_str(&c, "HEVC") || contains_str(&c, "H265"), VideoCodec::Hevc, EncoderBackend::Vaapi, d, "hevc_vaapi", Ghost(e1));
                        let ghost e2 = e1 + when(contains(c@, "HEVC"@) || contains(c@, "H265"@), (VideoCodec::Hevc, EncoderBackend::Vaapi, dv, "hevc_vaapi"@));
                        push_kind(&mut out, contains_str(&c, "VP9"), VideoCodec::Vp9, EncoderBackend::Vaapi, d, "vp9_vaapi", Ghost(e2));
                        let ghost e3 = e2 + when(contains(c@, "VP9"@), (VideoCodec::Vp9, EncoderBackend::Vaapi, dv, "vp9_vaapi"@));
                        push_kind(&mut out, contains_str(&c, "AV1"), VideoCodec::Av1, EncoderBackend::Vaapi, d, "av1_vaapi", Ghost(e3));
                        assert(e0 + when(contains(c@, "H264"@) || contains(c@, "AVC"@), (VideoCodec::H264, EncoderBackend::Vaapi, dv, "h264_vaapi"@)) =~= when(contains(c@, "H264"@) || contains(c@, "AVC"@), (VideoCodec::H264, EncoderBackend::Vaapi, dv, "h264_vaapi"@)));
                    }
                }
            }
        },
        HostOs::Macos => {
            let d = Some("Apple VideoToolbox".to_owned());
            let ghost dv = opt_view(d);
            let ghost lv = opt_view(*l);
            push_kind(&mut out, is_listed(l, "h264_videotoolbox"), VideoCodec::H264, EncoderBackend::Videotoolbox, &d, "h264_videotoolbox", Ghost(Seq::<EncKind>::empty()));
            let ghost k1 = when(listed(lv, "h264_videotoolbox"@), (VideoCodec::H264, EncoderBackend::Videotoolbox, dv, "h264_videotoolbox"@));
            assert(Seq::<EncKind>::empty() + k1 =~= k1);
            push_kind(&mut out, is_listed(l, "hevc_videotoolbox"), VideoCodec::Hevc, EncoderBackend::Videotoolbox, &d, "hevc_videotoolbox", Ghost(k1));
            let ghost k2 = k1 + when(listed(lv, "hevc_videotoolbox"@), (VideoCodec::Hevc, EncoderBackend::Videotoolbox, dv, "hevc_videotoolbox"@));
            push_kind(&mut out, is_listed(l, "av1_videotoolbox"), VideoCodec::Av1, EncoderBackend::Videotoolbox, &d, "av1_videotoolbox", Ghost(k2));
        },
        HostOs::Windows => {
            let d = Some("Windows Media Foundation".to_owned());
            let ghost dv = opt_view(d);
            let ghost lv = opt_view(*l);
            push_kind(&mut out, is_listed(l, "h264_mf"), VideoCodec::H264, EncoderBackend::Mf, &d, "h264_mf", Ghost(Seq::<EncKind>::empty()));
            let ghost k1 = when(listed(lv, "h264_mf"@), (VideoCodec::H264, EncoderBackend::Mf, dv, "h264_mf"@));
            assert(Seq::<EncKind>::empty() + k1 =~= k1);
            push_kind(&mut out, is_listed(l, "hevc_mf"), VideoCodec::Hevc, EncoderBackend::Mf, &d, "hevc_mf", Ghost(k1));
            if out.len() == 0 && probe.mf_registry_present {
                let h = Some("Windows Media Foundation (Hardware)".to_owned());
                out.push(make_encoder(VideoCodec::H264, EncoderBackend::Mf, &h, 2, "h264_mf"));
                out.push(make_encoder(VideoCodec::Hevc, EncoderBackend::Mf, &h, 2, "hevc_mf"));
            }
        },
        HostOs::Other => {},
    }
    Ok(out)
}


/// Whether a `/dev/dri` listing has a render node (`renderD*`).
pub fn has_render_node(names: &[String]) -> (r: bool)
    ensures
        r == exists|i: int| 0 <= i < names@.len() && crate::text::starts_with(#[trigger] names@[i]@, "renderD"@),
{
    let prefix = chars_of("renderD");
    let mut i: usize = 0;
    while i < names.len()
        invariant
            i <= names@.len(),
            prefix@ == "renderD"@,
            forall|j: int| 0 <= j < i ==> !crate::text::starts_with(#[trigger] names@[j]@, "renderD"@),
        decreases names.len() - i,
    {
        if crate::text::starts_with_exec(&chars_of(names[i].as_str()), &prefix) {
            return true;
        }
        i += 1;
    }
    false
}

/// What the `device/driver` link of a DRM card points to.
#[derive(Debug, Clone)]
pub enum DriverLink {
    /// The link could not be read.
    Unreadable,
    /// The link's target has no file name.
    Unnamed,
    /// The file name of the link's target: the driver.
    Named(String),
}

/// A DRM card: its entry name and its driver link.
#[derive(Debug, Clone)]
pub struct DrmCard {
    pub name: String,
    pub driver: DriverLink,
}

/// Drivers known to offer VAAPI.
pub open spec fn is_vaapi_driver(d: Seq<char>) -> bool {
    ||| contains(d, "i915"@)
    ||| contains(d, "amdgpu"@)
    ||| contains(d, "nvidia"@)
    ||| contains(d, "radeon"@)
    ||| contains(d, "virtio_gpu"@)
    ||| contains(d, " nouveau"@)
}

/// The VAAPI device name from the cards at or after `i`: the driver of the
/// first card with a VAAPI driver, as `<driver> (VAAPI)`, else plain `VAAPI`;
/// the search ends without a name at a card whose driver link has no file name.
pub open spec fn vaapi_name_from(cards: Seq<DrmCard>, i: int) -> Option<Seq<char>>
    decreases cards.len() - i,
{
    if i < 0 || i >= cards.len() {
        Some("VAAPI"@)
    } else if crate::text::starts_with(cards[i].name@, "card"@) {
        match cards[i].driver {
            DriverLink::Unnamed => None,
            DriverLink::Named(d) => if is_vaapi_driver(d@) {
                Some(d@ + " (VAAPI)"@)
            } else {
                vaapi_name_from(cards, i + 1)
            },
            DriverLink::Unreadable => vaapi_name_from(cards, i + 1),
        }
    } else {
        vaapi_name_from(cards, i + 1)
    }
}

/// Name of the VAAPI device from the DRM cards, in the order listed.
pub fn detect_vaapi_device_name(cards: &[DrmCard]) -> (r: Option<String>)
    ensures
        opt_view(r) == vaapi_name_from(cards@, 0),
{
    let card = chars_of("card");
    let mut i: usize = 0;
    while i < cards.len()
        invariant
            i <= cards@.len(),
            card@ == "card"@,
            vaapi_name_from(cards@, 0) == vaapi_name_from(cards@, i as int),
        decreases cards.len() - i,
    {
        if crate::text::starts_with_exec(&chars_of(cards[i].name.as_str()), &card) {
            match &cards[i].driver {
                DriverLink::Unnamed => return None,
                DriverLink::Named(d) => {
                    let dv = chars_of(d.as_str());
                    let known = contains_str(&dv, "i915") || contains_str(&dv, "amdgpu") || contains_str(&dv, "nvidia")
                        || contains_str(&dv, "radeon") || contains_str(&dv, "virtio_gpu") || contains_str(
                        &dv,
                        " nouveau",
                    );
                    if known {
                        let mut n = d.clone();
                        crate::text::append(&mut n, " (VAAPI)");
                        return Some(n);
                    }
                },
                DriverLink::Unreadable => {},
            }
        }
        i += 1;
    }
    Some("VAAPI".to_owned())
}

} // verus!
