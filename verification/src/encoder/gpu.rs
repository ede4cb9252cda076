//! GPU vendors and the encoders their native APIs offer (layer L1).
use vstd::prelude::*;
use crate::encoder::{
    enc_is, make_encoder, EncoderBackend, HostOs, HwEncoder, VideoCodec,
};
use crate::text::{
    ascii_lower, chars_of, contains, contains_exec, contains_str, lines, lines_of, nth_field, nth_field_exec,
    opt_view, string_of, strings_view, strip_all_prefix, strip_all_prefix_exec, to_ascii_lower, trim,
    trim_exec, to_lowercase, unicode_lowercase, starts_with,
};

verus! {

/// GPU vendors with hardware encoders.
#[derive(Debug, Clone, Copy, PartialEq, Eq, Structural)]
pub enum GpuVendor {
    Nvidia,
    Intel,
    Amd,
}

/// The detected vendors, in the order NVIDIA, Intel, AMD.
pub open spec fn vendors_spec(nvidia: bool, intel: bool, amd: bool) -> Seq<GpuVendor> {
    (if nvidia { seq![GpuVendor::Nvidia] } else { seq![] }) + (if intel {
        seq![GpuVendor::Intel]
    } else {
        seq![]
    }) + (if amd { seq![GpuVendor::Amd] } else { seq![] })
}

/// Vendors whose presence checks succeeded.
pub fn detect_gpu_vendors(nvidia_present: bool, intel_present: bool, amd_present: bool) -> (r: Vec<
    GpuVendor,
>)
    ensures
        r@ == vendors_spec(nvidia_present, intel_present, amd_present),
{
    let mut vendors: Vec<GpuVendor> = Vec::new();
    if nvidia_present {
        vendors.push(GpuVendor::Nvidia);
    }
    if intel_present {
        vendors.push(GpuVendor::Intel);
    }
    if amd_present {
        vendors.push(GpuVendor::Amd);
    }
    assert(vendors@ =~= vendors_spec(nvidia_present, intel_present, amd_present));
    vendors
}

fn has_vendor(vendors: &[GpuVendor], v: GpuVendor) -> (r: bool)
    ensures
        r == vendors@.contains(v),
{
    let mut i: usize = 0;
    while i < vendors.len()
        invariant
            i <= vendors@.len(),
            forall|j: int| 0 <= j < i ==> vendors@[j] != v,
        decreases vendors.len() - i,
    {
        if vendors[i] == v {
            return true;
        }
        i += 1;
    }
    false
}

/// Hardware that a backend needs is present.
pub open spec fn backend_matches_spec(backend: EncoderBackend, vendors: Seq<GpuVendor>, os: HostOs) -> bool {
    match backend {
        EncoderBackend::Nvenc => vendors.contains(GpuVendor::Nvidia),
        EncoderBackend::Qsv => vendors.contains(GpuVendor::Intel),
        EncoderBackend::Amf => vendors.contains(GpuVendor::Amd),
        EncoderBackend::Vaapi => vendors.contains(GpuVendor::Intel) || vendors.contains(
            GpuVendor::Amd,
        ) || vendors.contains(GpuVendor::Nvidia),
        EncoderBackend::Videotoolbox => os == HostOs::Macos,
        EncoderBackend::Mf => os == HostOs::Windows,
        EncoderBackend::Software => true,
    }
}

/// Whether the hardware a backend needs was detected.
pub fn backend_matches_detected_gpu(backend: EncoderBackend, vendors: &[GpuVendor], os: HostOs) -> (r:
    bool)
    ensures
        r == backend_matches_spec(backend, vendors@, os),
{
    match backend {
        EncoderBackend::Nvenc => has_vendor(vendors, GpuVendor::Nvidia),
        EncoderBackend::Qsv => has_vendor(vendors, GpuVendor::Intel),
        EncoderBackend::Amf => has_vendor(vendors, GpuVendor::Amd),
        EncoderBackend::Vaapi => has_vendor(vendors, GpuVendor::Intel) || has_vendor(
            vendors,
            GpuVendor::Amd,
        ) || has_vendor(vendors, GpuVendor::Nvidia),
        EncoderBackend::Videotoolbox => os == HostOs::Macos,
        EncoderBackend::Mf => os == HostOs::Windows,
        EncoderBackend::Software => true,
    }
}

/// NVENC encoders (H.264, HEVC, AV1) at priority 1.
pub fn nvidia_encoders(device: &Option<String>) -> (r: Vec<HwEncoder>)
    ensures
        r@.len() == 3,
        enc_is(r@[0], VideoCodec::H264, EncoderBackend::Nvenc, opt_view(*device), 1, "h264_nvenc"@),
        enc_is(r@[1], VideoCodec::Hevc, EncoderBackend::Nvenc, opt_view(*device), 1, "hevc_nvenc"@),
        enc_is(r@[2], VideoCodec::Av1, EncoderBackend::Nvenc, opt_view(*device), 1, "av1_nvenc"@),
{
    let mut r: Vec<HwEncoder> = Vec::new();
    r.push(make_encoder(VideoCodec::H264, EncoderBackend::Nvenc, device, 1, "h264_nvenc"));
    r.push(make_encoder(VideoCodec::Hevc, EncoderBackend::Nvenc, device, 1, "hevc_nvenc"));
    r.push(make_encoder(VideoCodec::Av1, EncoderBackend::Nvenc, device, 1, "av1_nvenc"));
    r
}

/// Quick Sync encoders (H.264, HEVC) at priority 1.
pub fn intel_encoders(device: &Option<String>) -> (r: Vec<HwEncoder>)
    ensures
        r@.len() == 2,
        enc_is(r@[0], VideoCodec::H264, EncoderBackend::Qsv, opt_view(*device), 1, "h264_qsv"@),
        enc_is(r@[1], VideoCodec::Hevc, EncoderBackend::Qsv, opt_view(*device), 1, "hevc_qsv"@),
{
    let mut r: Vec<HwEncoder> = Vec::new();
    r.push(make_encoder(VideoCodec::H264, EncoderBackend::Qsv, device, 1, "h264_qsv"));
    r.push(make_encoder(VideoCodec::Hevc, EncoderBackend::Qsv, device, 1, "hevc_qsv"));
    r
}

/// AMF encoders (H.264, HEVC) at priority 1.
pub fn amd_encoders(device: &Option<String>) -> (r: Vec<HwEncoder>)
    ensures
        r@.len() == 2,
        enc_is(r@[0], VideoCodec::H264, EncoderBackend::Amf, opt_view(*device), 1, "h264_amf"@),
        enc_is(r@[1], VideoCodec::Hevc, EncoderBackend::Amf, opt_view(*device), 1, "hevc_amf"@),
{
    let mut r: Vec<HwEncoder> = Vec::new();
    r.push(make_encoder(VideoCodec::H264, EncoderBackend::Amf, device, 1, "h264_amf"));
    r.push(make_encoder(VideoCodec::Hevc, EncoderBackend::Amf, device, 1, "hevc_amf"));
    r
}

/// Codec, backend and FFmpeg name of the L1 encoders for the detected vendors.
pub open spec fn gpu_encoder_kinds(vendors: Seq<GpuVendor>) -> Seq<(VideoCodec, EncoderBackend, Seq<char>)> {
    (if vendors.contains(GpuVendor::Nvidia) {
        seq![
            (VideoCodec::H264, EncoderBackend::Nvenc, "h264_nvenc"@),
            (VideoCodec::Hevc, EncoderBackend::Nvenc, "hevc_nvenc"@),
            (VideoCodec::Av1, EncoderBackend::Nvenc, "av1_nvenc"@),
        ]
    } else {
        seq![]
    }) + (if vendors.contains(GpuVendor::Intel) {
        seq![
            (VideoCodec::H264, EncoderBackend::Qsv, "h264_qsv"@),
            (VideoCodec::Hevc, EncoderBackend::Qsv, "hevc_qsv"@),
        ]
    } else {
        seq![]
    }) + (if vendors.contains(GpuVendor::Amd) {
        seq![
            (VideoCodec::H264, EncoderBackend::Amf, "h264_amf"@),
            (VideoCodec::Hevc, EncoderBackend::Amf, "hevc_amf"@),
        ]
    } else {
        seq![]
    })
}

/// Device name reported for an L1 encoder of the given backend.
pub open spec fn device_for(
    backend: EncoderBackend,
    nvidia: Option<Seq<char>>,
    intel: Option<Seq<char>>,
    amd: Option<Seq<char>>,
) -> Option<Seq<char>> {
    match backend {
        EncoderBackend::Nvenc => nvidia,
        EncoderBackend::Qsv => intel,
        _ => amd,
    }
}

/// Encoders of the native GPU APIs (L1) for the detected vendors: NVENC
/// for NVIDIA, Quick Sync for Intel, AMF for AMD, at priority 1.
pub fn detect_gpu_encoders(
    vendors: &[GpuVendor],
    nvidia_device: &Option<String>,
    intel_device: &Option<String>,
    amd_device: &Option<String>,
) -> (r: Result<Vec<HwEncoder>, String>)
    ensures
        r matches Ok(v) && v@.len() == gpu_encoder_kinds(vendors@).len() && forall|i: int|
            0 <= i < v@.len() ==> {
                let k = #[trigger] gpu_encoder_kinds(vendors@)[i];
                enc_is(
                    v@[i],
                    k.0,
                    k.1,
                    device_for(k.1, opt_view(*nvidia_device), opt_view(*intel_device), opt_view(*amd_device)),
                    1,
                    k.2,
                )
            },
{
    let mut encoders: Vec<HwEncoder> = Vec::new();
    let has_nvidia = has_vendor(vendors, GpuVendor::Nvidia);
    let has_intel = has_vendor(vendors, GpuVendor::Intel);
    let has_amd = has_vendor(vendors, GpuVendor::Amd);
    if has_nvidia {
        let mut n = nvidia_encoders(nvidia_device);
        encoders.append(&mut n);
    }
    let ghost after_nvidia = encoders@;
    if has_intel {
        let mut n = intel_encoders(intel_device);
        encoders.append(&mut n);
    }
    let ghost after_intel = encoders@;
    if has_amd {
        let mut n = amd_encoders(amd_device);
        encoders.append(&mut n);
    }
    proof {
        let ks = gpu_encoder_kinds(vendors@);
        assert(encoders@.len() == ks.len());
        assert forall|i: int| 0 <= i < encoders@.len() implies {
            let k = #[trigger] ks[i];
            enc_is(
                encoders@[i],
                k.0,
                k.1,
                device_for(k.1, opt_view(*nvidia_device), opt_view(*intel_device), opt_view(*amd_device)),
                1,
                k.2,
            )
        } by {
            let n1 = if has_nvidia { 3int } else { 0 };
            let n2 = if has_intel { 2int } else { 0 };
            if i < n1 {
                assert(encoders@[i] == after_nvidia[i]);
            } else if i < n1 + n2 {
                assert(encoders@[i] == after_intel[i]);
            }
        }
    }
    Ok(encoders)
}

// ---------------------------------------------------------------------------
// Reading device names and PCI listings
// ---------------------------------------------------------------------------

/// The GPU name printed by `nvidia-smi`, trimmed; none when empty.
pub open spec fn smi_name_spec(stdout: Seq<char>) -> Option<Seq<char>> {
    if trim(stdout).len() == 0 {
        None
    } else {
        Some(trim(stdout))
    }
}

/// Device name from the output of `nvidia-smi --query-gpu=name`.
pub fn nvidia_name_from_smi(stdout: &str) -> (r: Option<String>)
    ensures
        opt_view(r) == smi_name_spec(stdout@),
{
    let v = chars_of(stdout);
    let t = trim_exec(&v);
    if t.len() == 0 {
        None
    } else {
        Some(string_of(&t))
    }
}

pub open spec fn is_display_line(l: Seq<char>) -> bool {
    contains(l, "VGA"@) || contains(l, "Display"@)
}

pub open spec fn is_amd_display_line(l: Seq<char>) -> bool {
    (contains(l, "AMD"@) || contains(l, "Radeon"@)) && is_display_line(l)
}

/// The first line of `ls` that `p` accepts.
pub open spec fn first_line_where(ls: Seq<Seq<char>>, p: spec_fn(Seq<char>) -> bool) -> Option<Seq<char>>
    decreases ls.len(),
{
    if ls.len() == 0 {
        None
    } else if p(ls[0]) {
        Some(ls[0])
    } else {
        first_line_where(ls.drop_first(), p)
    }
}

/// The device part of an `lspci -v` line (its third `:`-separated field,
/// trimmed), or the fallback name.
pub open spec fn lspci_device(l: Seq<char>, fallback: Seq<char>) -> Seq<char> {
    match nth_field(l, ':', 2) {
        Some(f) => trim(f),
        None => fallback,
    }
}

pub open spec fn name_from_lspci_spec(output: Seq<char>, amd: bool, fallback: Seq<char>) -> Seq<char> {
    match first_line_where(
        lines(output),
        if amd {
            |l: Seq<char>| is_amd_display_line(l)
        } else {
            |l: Seq<char>| is_display_line(l)
        },
    ) {
        Some(l) => lspci_device(l, fallback),
        None => fallback,
    }
}

/// Device name from `lspci -v` output: the first display line's device part.
pub fn name_from_lspci(output: &str, amd: bool, fallback: &str) -> (r: String)
    ensures
        r@ == name_from_lspci_spec(output@, amd, fallback@),
{
    let ls = lines_of(output);
    let ghost lv = strings_view(ls@);
    let ghost p = if amd {
        |l: Seq<char>| is_amd_display_line(l)
    } else {
        |l: Seq<char>| is_display_line(l)
    };
    let mut i: usize = 0;
    assert(lv.skip(0) =~= lv);
    while i < ls.len()
        invariant
            i <= ls@.len(),
            lv == strings_view(ls@),
            lv == lines(output@),
            p == (if amd {
                |l: Seq<char>| is_amd_display_line(l)
            } else {
                |l: Seq<char>| is_display_line(l)
            }),
            first_line_where(lv, p) == first_line_where(lv.skip(i as int), p),
        decreases ls.len() - i,
    {
        let l = chars_of(ls[i].as_str());
        let display = contains_str(&l, "VGA") || contains_str(&l, "Display");
        let accept = if amd {
            (contains_str(&l, "AMD") || contains_str(&l, "Radeon")) && display
        } else {
            display
        };
        assert(lv.skip(i as int)[0] == l@);
        assert(lv.skip(i as int).drop_first() =~= lv.skip(i + 1));
        assert(accept == p(l@));
        if accept {
            return match nth_field_exec(&l, ':', 2) {
                Some(f) => {
                    let t = trim_exec(&f);
                    string_of(&t)
                },
                None => fallback.to_owned(),
            };
        }
        i += 1;
    }
    assert(lv.skip(i as int) =~= Seq::<Seq<char>>::empty());
    fallback.to_owned()
}

/// Intel device name: generic on Windows, from `lspci -v -s 00:02.0` on
/// Linux (generic when it failed or named no display), none elsewhere.
pub fn intel_device_name(os: HostOs, lspci_output: Option<&str>) -> (r: Option<String>)
    ensures
        match os {
            HostOs::Windows => opt_view(r) == Some("Intel GPU"@),
            HostOs::Linux => opt_view(r) == Some(
                match lspci_output {
                    Some(o) => name_from_lspci_spec(o@, false, "Intel GPU"@),
                    None => "Intel GPU"@,
                },
            ),
            _ => r is None,
        },
{
    match os {
        HostOs::Windows => Some("Intel GPU".to_owned()),
        HostOs::Linux => match lspci_output {
            Some(o) => Some(name_from_lspci(o, false, "Intel GPU")),
            None => Some("Intel GPU".to_owned()),
        },
        _ => None,
    }
}

/// AMD device name: generic on Windows, from `lspci -v` on Linux (generic
/// when it failed or named no AMD display), none elsewhere.
pub fn amd_device_name(os: HostOs, lspci_output: Option<&str>) -> (r: Option<String>)
    ensures
        match os {
            HostOs::Windows => opt_view(r) == Some("AMD GPU"@),
            HostOs::Linux => opt_view(r) == Some(
                match lspci_output {
                    Some(o) => name_from_lspci_spec(o@, true, "AMD GPU"@),
                    None => "AMD GPU"@,
                },
            ),
            _ => r is None,
        },
{
    match os {
        HostOs::Windows => Some("AMD GPU".to_owned()),
        HostOs::Linux => match lspci_output {
            Some(o) => Some(name_from_lspci(o, true, "AMD GPU")),
            None => Some("AMD GPU".to_owned()),
        },
        _ => None,
    }
}

/// A line of `lspci -n` output that describes a display controller.
pub open spec fn is_display_class(lower: Seq<char>) -> bool {
    contains(lower, "vga"@) || contains(lower, "display"@) || contains(lower, "3d controller"@)
}

pub open spec fn vendor_display_line(l: Seq<char>, vendor: Seq<char>) -> bool {
    is_display_class(ascii_lower(l)) && contains(ascii_lower(l), vendor)
}

/// Some line of `lspci -n` output is a display controller of the vendor.
pub open spec fn lspci_has_display_spec(output: Seq<char>, vendor_id: Seq<char>) -> bool {
    let vendor = ascii_lower(strip_all_prefix(vendor_id, "0x"@));
    exists|i: int| 0 <= i < lines(output).len() && vendor_display_line(#[trigger] lines(output)[i], vendor)
}

/// Whether `lspci -n` lists a display controller (VGA, display or 3D) of the
/// vendor, on one line.
pub fn lspci_vendor_has_display(output: &str, vendor_id: &str) -> (r: bool)
    ensures
        r == lspci_has_display_spec(output@, vendor_id@),
{
    let id = chars_of(vendor_id);
    let prefix = chars_of("0x");
    let stripped = strip_all_prefix_exec(&id, &prefix);
    let vendor = to_ascii_lower(&stripped);
    let ls = lines_of(output);
    let ghost lv = strings_view(ls@);
    let mut i: usize = 0;
    while i < ls.len()
        invariant
            i <= ls@.len(),
            lv == strings_view(ls@),
            lv == lines(output@),
            vendor@ == ascii_lower(strip_all_prefix(vendor_id@, "0x"@)),
            forall|j: int| 0 <= j < i ==> !vendor_display_line(#[trigger] lv[j], vendor@),
        decreases ls.len() - i,
    {
        let l = chars_of(ls[i].as_str());
        let lower = to_ascii_lower(&l);
        let is_display = contains_str(&lower, "vga") || contains_str(&lower, "display") || contains_str(
            &lower,
            "3d controller",
        );
        assert(lv[i as int] == l@);
        if is_display && contains_exec(&lower, &vendor) {
            return true;
        }
        i += 1;
    }
    false
}


/// A DRM entry of `/sys/class/drm`: its name, and the contents of its
/// `device/vendor` file when it could be read.
#[derive(Debug, Clone)]
pub struct DrmEntry {
    pub name: String,
    pub vendor: Option<String>,
}

/// A card entry (`card<N>`, not a connector like `card0-HDMI-A-1`) whose
/// vendor id is `vendor_id` (ASCII case-insensitive, the file trimmed).
pub open spec fn is_vendor_card(e: DrmEntry, vendor_id: Seq<char>) -> bool {
    &&& starts_with(e.name@, "card"@)
    &&& !contains(e.name@, "-"@)
    &&& e.vendor matches Some(v) && ascii_lower(trim(v@)) == ascii_lower(vendor_id)
}

/// Whether some DRM card has the vendor id (`0x8086`, `0x1002`, ...).
pub fn drm_vendor_exists(entries: &[DrmEntry], vendor_id: &str) -> (r: bool)
    ensures
        r == exists|i: int| 0 <= i < entries@.len() && is_vendor_card(#[trigger] entries@[i], vendor_id@),
{
    let want = to_ascii_lower(&chars_of(vendor_id));
    let mut i: usize = 0;
    while i < entries.len()
        invariant
            i <= entries@.len(),
            want@ == ascii_lower(vendor_id@),
            forall|j: int| 0 <= j < i ==> !is_vendor_card(#[trigger] entries@[j], vendor_id@),
        decreases entries.len() - i,
    {
        let e = &entries[i];
        let name = chars_of(e.name.as_str());
        let card = crate::text::starts_with_exec(&name, &chars_of("card")) && !contains_str(&name, "-");
        if card {
            match &e.vendor {
                Some(v) => {
                    let t = to_ascii_lower(&trim_exec(&chars_of(v.as_str())));
                    if crate::text::chars_eq(&t, &want) {
                        return true;
                    }
                },
                None => {},
            }
        }
        i += 1;
    }
    false
}

/// Some needle occurs in the (lower-cased) names of the video controllers.
pub open spec fn gpu_names_match_spec(lowered: Option<Seq<char>>, needles: Seq<Seq<char>>) -> bool {
    lowered matches Some(l) && exists|i: int| 0 <= i < needles.len() && contains(l, #[trigger] needles[i])
}

/// Whether the video controller names that PowerShell listed (none when it
/// failed) mention one of the needles, compared in lower case.
pub fn windows_gpu_name_matches(names_output: Option<&str>, needles: &[&str]) -> (r: bool)
    ensures
        r == gpu_names_match_spec(
            match names_output {
                Some(o) => Some(unicode_lowercase(o@)),
                None => None,
            },
            needles@.map_values(|n: &str| n@),
        ),
{
    let out = match names_output {
        None => return false,
        Some(o) => o,
    };
    let lower = to_lowercase(out);
    let l = chars_of(lower.as_str());
    let ghost nv = needles@.map_values(|n: &str| n@);
    let mut i: usize = 0;
    while i < needles.len()
        invariant
            i <= needles@.len(),
            l@ == unicode_lowercase(out@),
            names_output == Some(out),
            nv == needles@.map_values(|n: &str| n@),
            forall|j: int| 0 <= j < i ==> !contains(l@, #[trigger] nv[j]),
        decreases needles.len() - i,
    {
        assert(nv[i as int] == needles@[i as int]@);
        if contains_str(&l, needles[i]) {
            assert(contains(l@, nv[i as int]));
            return true;
        }
        i += 1;
    }
    false
}

} // verus!
