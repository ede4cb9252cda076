//! Hardware video encoders: what was detected and which one to prefer.
use vstd::prelude::*;
use crate::encoder::gpu::{backend_matches_detected_gpu, backend_matches_spec, GpuVendor};
use crate::text::{append, opt_view};

pub mod ffmpeg;
pub mod gpu;
pub mod os_framework;
pub mod runtime;

verus! {

/// Backend type of a hardware encoder.
#[derive(Debug, Clone, Copy, PartialEq, Eq, Hash, Structural)]
pub enum EncoderBackend {
    /// NVIDIA NVENC
    Nvenc,
    /// Intel Quick Sync Video
    Qsv,
    /// Video Acceleration API (Linux)
    Vaapi,
    /// AMD Advanced Media Framework
    Amf,
    /// Apple VideoToolbox
    Videotoolbox,
    /// Windows Media Foundation
    Mf,
    /// Software encoding (fallback)
    Software,
}

pub open spec fn backend_name(b: EncoderBackend) -> Seq<char> {
    match b {
        EncoderBackend::Nvenc => "nvenc"@,
        EncoderBackend::Qsv => "qsv"@,
        EncoderBackend::Vaapi => "vaapi"@,
        EncoderBackend::Amf => "amf"@,
        EncoderBackend::Videotoolbox => "videotoolbox"@,
        EncoderBackend::Mf => "mf"@,
        EncoderBackend::Software => "software"@,
    }
}

impl EncoderBackend {
    /// Lower-case name of the backend (`nvenc`, `qsv`, ...).
    pub fn to_string(&self) -> (r: String)
        ensures
            r@ == backend_name(*self),
    {
        match self {
            EncoderBackend::Nvenc => "nvenc".to_owned(),
            EncoderBackend::Qsv => "qsv".to_owned(),
            EncoderBackend::Vaapi => "vaapi".to_owned(),
            EncoderBackend::Amf => "amf".to_owned(),
            EncoderBackend::Videotoolbox => "videotoolbox".to_owned(),
            EncoderBackend::Mf => "mf".to_owned(),
            EncoderBackend::Software => "software".to_owned(),
        }
    }
}

/// Supported video codecs.
#[derive(Debug, Clone, Copy, PartialEq, Eq, Hash, Structural)]
pub enum VideoCodec {
    H264,
    Hevc,
    Av1,
    Vp9,
}

pub open spec fn codec_name(c: VideoCodec) -> Seq<char> {
    match c {
        VideoCodec::H264 => "h264"@,
        VideoCodec::Hevc => "hevc"@,
        VideoCodec::Av1 => "av1"@,
        VideoCodec::Vp9 => "vp9"@,
    }
}

impl VideoCodec {
    /// Lower-case name of the codec (`h264`, `hevc`, ...).
    pub fn to_string(&self) -> (r: String)
        ensures
            r@ == codec_name(*self),
    {
        match self {
            VideoCodec::H264 => "h264".to_owned(),
            VideoCodec::Hevc => "hevc".to_owned(),
            VideoCodec::Av1 => "av1".to_owned(),
            VideoCodec::Vp9 => "vp9".to_owned(),
        }
    }
}

/// A hardware video encoder.
#[derive(Debug, Clone)]
pub struct HwEncoder {
    /// Video codec (h264, hevc, av1, vp9)
    pub codec: VideoCodec,
    /// Backend type (nvenc, qsv, vaapi, etc.)
    pub backend: EncoderBackend,
    /// Device identifier (e.g., "NVIDIA GeForce RTX 3080")
    pub device: Option<String>,
    /// Priority: 1 = native GPU API, 2 = OS framework, 3 = FFmpeg
    pub priority: u8,
    /// FFmpeg encoder name (e.g., "h264_nvenc")
    pub ffmpeg_name: String,
}

pub fn clone_opt_string(o: &Option<String>) -> (r: Option<String>)
    ensures
        r == *o,
{
    match o {
        Some(s) => Some(s.clone()),
        None => None,
    }
}

impl HwEncoder {
    /// A copy of this encoder.
    pub fn duplicate(&self) -> (r: HwEncoder)
        ensures
            r == *self,
    {
        HwEncoder {
            codec: self.codec,
            backend: self.backend,
            device: clone_opt_string(&self.device),
            priority: self.priority,
            ffmpeg_name: self.ffmpeg_name.clone(),
        }
    }
}

/// Detection source layer.
#[derive(Debug, Clone, Copy, PartialEq, Eq, Structural)]
pub enum DetectionSource {
    /// L1: Native GPU vendor APIs
    L1GpuApi,
    /// L2: OS media frameworks (VideoToolbox, VAAPI, MF)
    L2OsFramework,
    /// L3: FFmpeg encoder probing
    L3Ffmpeg,
    /// L4: Runtime validation
    L4Runtime,
}

/// Result of hardware encoder detection.
#[derive(Debug, Clone)]
pub struct DetectionResult {
    /// All detected encoders
    pub encoders: Vec<HwEncoder>,
    /// Primary (best) encoder recommendation
    pub primary: Option<HwEncoder>,
    /// Time taken for detection in milliseconds
    pub detection_time_ms: u64,
    /// Sources that were probed during detection
    pub sources: Vec<DetectionSource>,
}

/// Operating system of the host, for backends that exist on one system only.
#[derive(Debug, Clone, Copy, PartialEq, Eq, Structural)]
pub enum HostOs {
    Windows,
    Macos,
    Linux,
    Other,
}

// ---------------------------------------------------------------------------
// Choosing an encoder
// ---------------------------------------------------------------------------

pub open spec fn backend_rank_spec(b: EncoderBackend) -> int {
    match b {
        EncoderBackend::Nvenc => 0,
        EncoderBackend::Qsv => 1,
        EncoderBackend::Amf => 2,
        EncoderBackend::Videotoolbox => 3,
        EncoderBackend::Vaapi => 4,
        EncoderBackend::Mf => 5,
        EncoderBackend::Software => 10,
    }
}

/// Tie-break between encoders of equal priority.
pub fn backend_rank(backend: EncoderBackend) -> (r: u8)
    ensures
        r == backend_rank_spec(backend),
{
    match backend {
        EncoderBackend::Nvenc => 0,
        EncoderBackend::Qsv => 1,
        EncoderBackend::Amf => 2,
        EncoderBackend::Videotoolbox => 3,
        EncoderBackend::Vaapi => 4,
        EncoderBackend::Mf => 5,
        EncoderBackend::Software => 10,
    }
}

/// The pair (priority, backend rank), ordered lexicographically.
pub open spec fn rank_spec(e: HwEncoder) -> (int, int) {
    (e.priority as int, backend_rank_spec(e.backend))
}

pub open spec fn rank_lt(a: (int, int), b: (int, int)) -> bool {
    a.0 < b.0 || (a.0 == b.0 && a.1 < b.1)
}

pub open spec fn rank_le(a: (int, int), b: (int, int)) -> bool {
    !rank_lt(b, a)
}

/// Rank of an encoder: lower is better.
pub fn encoder_rank(encoder: &HwEncoder) -> (r: (u8, u8))
    ensures
        r.0 == rank_spec(*encoder).0,
        r.1 == rank_spec(*encoder).1,
{
    (encoder.priority, backend_rank(encoder.backend))
}

/// `k` is the first position of an encoder of least rank.
pub open spec fn is_first_best(s: Seq<HwEncoder>, k: int) -> bool {
    &&& 0 <= k < s.len()
    &&& forall|j: int| 0 <= j < k ==> rank_lt(rank_spec(s[k]), rank_spec(#[trigger] s[j]))
    &&& forall|j: int| k <= j < s.len() ==> rank_le(rank_spec(s[k]), rank_spec(#[trigger] s[j]))
}

/// The best encoder: least priority, then least backend rank; the first one
/// of those when several tie.
pub fn choose_primary_encoder(encoders: Vec<HwEncoder>) -> (r: Option<HwEncoder>)
    ensures
        encoders@.len() == 0 ==> r is None,
        encoders@.len() > 0 ==> exists|k: int| is_first_best(encoders@, k) && r == Some(encoders@[k]),
{
    if encoders.len() == 0 {
        return None;
    }
    let mut best: usize = 0;
    let mut best_rank = encoder_rank(&encoders[0]);
    let mut i: usize = 1;
    while i < encoders.len()
        invariant
            1 <= i <= encoders@.len(),
            best < i,
            best_rank.0 == rank_spec(encoders@[best as int]).0,
            best_rank.1 == rank_spec(encoders@[best as int]).1,
            forall|j: int|
                0 <= j < best ==> rank_lt(
                    rank_spec(encoders@[best as int]),
                    rank_spec(#[trigger] encoders@[j]),
                ),
            forall|j: int|
                best <= j < i ==> rank_le(
                    rank_spec(encoders@[best as int]),
                    rank_spec(#[trigger] encoders@[j]),
                ),
        decreases encoders.len() - i,
    {
        let r = encoder_rank(&encoders[i]);
        if r.0 < best_rank.0 || (r.0 == best_rank.0 && r.1 < best_rank.1) {
            best = i;
            best_rank = r;
        }
        i += 1;
    }
    assert(is_first_best(encoders@, best as int));
    Some(encoders[best].duplicate())
}

/// The backends in the order they are preferred among encoders of equal
/// priority: NVENC, QSV, AMF, VideoToolbox, VAAPI, Media Foundation, then
/// software.
pub open spec fn backend_preference() -> Seq<EncoderBackend> {
    seq![
        EncoderBackend::Nvenc,
        EncoderBackend::Qsv,
        EncoderBackend::Amf,
        EncoderBackend::Videotoolbox,
        EncoderBackend::Vaapi,
        EncoderBackend::Mf,
        EncoderBackend::Software,
    ]
}

/// The tie-break rank follows the preference order strictly: a backend
/// earlier in it ranks lower (better) than every later one.
pub proof fn lemma_backend_rank_follows_preference()
    ensures
        forall|i: int, j: int|
            0 <= i < j < backend_preference().len() ==> backend_rank_spec(#[trigger] backend_preference()[i])
                < backend_rank_spec(#[trigger] backend_preference()[j]),
{
    let p = backend_preference();
    assert(p[0] == EncoderBackend::Nvenc && p[1] == EncoderBackend::Qsv && p[2] == EncoderBackend::Amf);
    assert(p[3] == EncoderBackend::Videotoolbox && p[4] == EncoderBackend::Vaapi && p[5] == EncoderBackend::Mf);
    assert(p[6] == EncoderBackend::Software);
}

/// The primary encoder has the least priority of all, and among the
/// encoders of that priority its backend comes first in the preference
/// order (NVENC before QSV before AMF, ...).
pub proof fn lemma_primary_prefers_backends(s: Seq<HwEncoder>, k: int, m: int, i: int, j: int)
    requires
        is_first_best(s, k),
        0 <= m < s.len(),
        0 <= i < backend_preference().len(),
        0 <= j < backend_preference().len(),
        s[k].backend == backend_preference()[i],
        s[m].backend == backend_preference()[j],
    ensures
        s[k].priority <= s[m].priority,
        s[k].priority == s[m].priority ==> i <= j,
{
    lemma_backend_rank_follows_preference();
    if m < k {
        assert(rank_lt(rank_spec(s[k]), rank_spec(s[m])));
    } else {
        assert(rank_le(rank_spec(s[k]), rank_spec(s[m])));
    }
    if s[k].priority == s[m].priority && j < i {
        assert(backend_rank_spec(backend_preference()[j]) < backend_rank_spec(backend_preference()[i]));
    }
}

// ---------------------------------------------------------------------------
// Removing duplicates
// ---------------------------------------------------------------------------

/// Encoders with the same backend, codec and FFmpeg name are the same encoder.
pub open spec fn same_key(a: HwEncoder, b: HwEncoder) -> bool {
    a.backend == b.backend && a.codec == b.codec && a.ffmpeg_name@ == b.ffmpeg_name@
}

pub open spec fn has_key(s: Seq<HwEncoder>, e: HwEncoder) -> bool {
    exists|j: int| 0 <= j < s.len() && same_key(#[trigger] s[j], e)
}

/// The encoders in order, each kept only where its key first occurs.
pub open spec fn dedupe_spec(s: Seq<HwEncoder>) -> Seq<HwEncoder>
    decreases s.len(),
{
    if s.len() == 0 {
        seq![]
    } else {
        let d = dedupe_spec(s.drop_last());
        if has_key(d, s.last()) {
            d
        } else {
            d.push(s.last())
        }
    }
}

fn key_eq(a: &HwEncoder, b: &HwEncoder) -> (r: bool)
    ensures
        r == same_key(*a, *b),
{
    a.backend == b.backend && a.codec == b.codec && a.ffmpeg_name == b.ffmpeg_name
}

/// Drop encoders whose backend, codec and FFmpeg name occurred before.
pub fn dedupe_encoders(encoders: Vec<HwEncoder>) -> (r: Vec<HwEncoder>)
    ensures
        r@ == dedupe_spec(encoders@),
{
    let mut unique: Vec<HwEncoder> = Vec::new();
    let mut i: usize = 0;
    while i < encoders.len()
        invariant
            i <= encoders@.len(),
            unique@ == dedupe_spec(encoders@.take(i as int)),
        decreases encoders.len() - i,
    {
        let e = &encoders[i];
        let mut seen = false;
        let mut j: usize = 0;
        while j < unique.len()
            invariant
                j <= unique@.len(),
                seen == exists|k: int| 0 <= k < j && same_key(#[trigger] unique@[k], *e),
            decreases unique.len() - j,
        {
            if key_eq(&unique[j], e) {
                seen = true;
            }
            j += 1;
        }
        assert(encoders@.take(i + 1).drop_last() =~= encoders@.take(i as int));
        assert(encoders@.take(i + 1).last() == *e);
        if !seen {
            unique.push(e.duplicate());
        }
        i += 1;
    }
    assert(encoders@.take(encoders@.len() as int) =~= encoders@);
    unique
}

/// After removing duplicates no key occurs twice, every key of the input
/// still occurs, and each kept encoder is the first of its key in the input.
pub proof fn lemma_dedupe(s: Seq<HwEncoder>)
    ensures
        forall|i: int, j: int|
            0 <= i < j < dedupe_spec(s).len() ==> !same_key(
                #[trigger] dedupe_spec(s)[i],
                #[trigger] dedupe_spec(s)[j],
            ),
        forall|i: int| 0 <= i < s.len() ==> has_key(dedupe_spec(s), #[trigger] s[i]),
        forall|i: int|
            #![trigger dedupe_spec(s)[i]]
            0 <= i < dedupe_spec(s).len() ==> exists|k: int|
                0 <= k < s.len() && s[k] == dedupe_spec(s)[i] && !has_key(s.take(k), s[k]),
    decreases s.len(),
{
    if s.len() > 0 {
        let p = s.drop_last();
        lemma_dedupe(p);
        let d = dedupe_spec(p);
        assert forall|i: int| 0 <= i < s.len() implies has_key(dedupe_spec(s), #[trigger] s[i]) by {
            if i < s.len() - 1 {
                assert(p[i] == s[i]);
                assert(has_key(d, p[i]));
                let j = choose|j: int| 0 <= j < d.len() && same_key(#[trigger] d[j], p[i]);
                if has_key(d, s.last()) {
                } else {
                    assert(d.push(s.last())[j] == d[j]);
                }
            } else {
                if has_key(d, s.last()) {
                } else {
                    assert(d.push(s.last())[d.len() as int] == s.last());
                }
            }
        }
        assert forall|i: int|
            #![trigger dedupe_spec(s)[i]]
            0 <= i < dedupe_spec(s).len() implies exists|k: int|
                0 <= k < s.len() && s[k] == dedupe_spec(s)[i] && !has_key(s.take(k), s[k]) by {
            if i < d.len() {
                let k = choose|k: int|
                    0 <= k < p.len() && p[k] == d[i] && !has_key(p.take(k), p[k]);
                assert(p.take(k) =~= s.take(k));
                assert(s[k] == p[k]);
                if !has_key(d, s.last()) {
                    assert(d.push(s.last())[i] == d[i]);
                }
            } else {
                let k = s.len() - 1;
                assert(s.take(k) =~= p);
                assert(dedupe_spec(s)[i] == s.last());
                if has_key(p, s.last()) {
                    let m = choose|m: int| 0 <= m < p.len() && same_key(#[trigger] p[m], s.last());
                    assert(has_key(d, p[m]));
                    let j = choose|j: int| 0 <= j < d.len() && same_key(#[trigger] d[j], p[m]);
                    assert(same_key(d[j], s.last()));
                }
            }
        }
    }
}

/// `r` takes the elements of `s` at the strictly increasing positions `idx`.
pub open spec fn picks_in_order(r: Seq<HwEncoder>, s: Seq<HwEncoder>, idx: Seq<int>) -> bool {
    &&& idx.len() == r.len()
    &&& forall|i: int| 0 <= i < idx.len() ==> 0 <= #[trigger] idx[i] < s.len() && r[i] == s[idx[i]]
    &&& forall|i: int, j: int| 0 <= i < j < idx.len() ==> #[trigger] idx[i] < #[trigger] idx[j]
}

proof fn dedupe_positions(s: Seq<HwEncoder>) -> (idx: Seq<int>)
    ensures
        picks_in_order(dedupe_spec(s), s, idx),
    decreases s.len(),
{
    if s.len() == 0 {
        seq![]
    } else {
        let p = s.drop_last();
        let ip = dedupe_positions(p);
        let d = dedupe_spec(p);
        if has_key(d, s.last()) {
            assert forall|i: int| 0 <= i < ip.len() implies 0 <= #[trigger] ip[i] < s.len() && d[i] == s[ip[i]] by {
                assert(s[ip[i]] == p[ip[i]]);
            }
            ip
        } else {
            let iq = ip.push(s.len() - 1);
            let r = d.push(s.last());
            assert forall|i: int| 0 <= i < iq.len() implies 0 <= #[trigger] iq[i] < s.len() && r[i] == s[iq[i]] by {
                if i < ip.len() {
                    assert(iq[i] == ip[i]);
                    assert(s[ip[i]] == p[ip[i]]);
                }
            }
            assert forall|i: int, j: int| 0 <= i < j < iq.len() implies #[trigger] iq[i] < #[trigger] iq[j] by {
                if j < ip.len() {
                    assert(iq[i] == ip[i] && iq[j] == ip[j]);
                } else {
                    assert(iq[i] == ip[i]);
                }
            }
            iq
        }
    }
}

/// Removing duplicates keeps the order of the input: the result takes
/// encoders of the input at increasing positions.
pub proof fn lemma_dedupe_keeps_order(s: Seq<HwEncoder>)
    ensures
        exists|idx: Seq<int>| #[trigger] picks_in_order(dedupe_spec(s), s, idx),
{
    let idx = dedupe_positions(s);
    assert(picks_in_order(dedupe_spec(s), s, idx));
}

/// A list whose keys are all different is its own deduplication.
pub proof fn lemma_dedupe_distinct(s: Seq<HwEncoder>)
    requires
        forall|i: int, j: int| 0 <= i < j < s.len() ==> !same_key(#[trigger] s[i], #[trigger] s[j]),
    ensures
        dedupe_spec(s) == s,
    decreases s.len(),
{
    if s.len() > 0 {
        let p = s.drop_last();
        assert forall|i: int, j: int| 0 <= i < j < p.len() implies !same_key(#[trigger] p[i], #[trigger] p[j]) by {
            assert(p[i] == s[i] && p[j] == s[j]);
        }
        lemma_dedupe_distinct(p);
        if has_key(p, s.last()) {
            let m = choose|m: int| 0 <= m < p.len() && same_key(#[trigger] p[m], s.last());
            assert(p[m] == s[m]);
            assert(s[s.len() - 1] == s.last());
            assert(!same_key(s[m], s[s.len() - 1]));
        }
        assert(p.push(s.last()) =~= s);
    }
}

/// Removing duplicates twice changes nothing more.
pub proof fn lemma_dedupe_idempotent(s: Seq<HwEncoder>)
    ensures
        dedupe_spec(dedupe_spec(s)) == dedupe_spec(s),
{
    lemma_dedupe(s);
    lemma_dedupe_distinct(dedupe_spec(s));
}

// ---------------------------------------------------------------------------
// Filters
// ---------------------------------------------------------------------------

/// The FFmpeg encoder that a backend offers for a codec (`h264_qsv`, ...);
/// none for software encoding.
pub open spec fn ffmpeg_name_for_spec(backend: EncoderBackend, codec: VideoCodec) -> Option<Seq<char>> {
    if backend == EncoderBackend::Software {
        None
    } else {
        Some(codec_name(codec) + "_"@ + backend_name(backend))
    }
}

/// FFmpeg encoder name of a backend and codec.
pub fn ffmpeg_encoder_name_for_backend(backend: EncoderBackend, codec: VideoCodec) -> (r: Option<
    String,
>)
    ensures
        match r {
            Some(n) => ffmpeg_name_for_spec(backend, codec) == Some(n@),
            None => ffmpeg_name_for_spec(backend, codec) is None,
        },
{
    if backend == EncoderBackend::Software {
        return None;
    }
    let mut n = codec.to_string();
    append(&mut n, "_");
    let b = backend.to_string();
    append(&mut n, b.as_str());
    Some(n)
}

/// The encoders of `s` that satisfy `p`, in order.
pub open spec fn filter_enc(s: Seq<HwEncoder>, p: spec_fn(HwEncoder) -> bool) -> Seq<HwEncoder>
    decreases s.len(),
{
    if s.len() == 0 {
        seq![]
    } else {
        let f = filter_enc(s.drop_last(), p);
        if p(s.last()) {
            f.push(s.last())
        } else {
            f
        }
    }
}

pub open spec fn names_view(v: Seq<String>) -> Seq<Seq<char>> {
    v.map_values(|s: String| s@)
}

/// FFmpeg provides the encoder (or the backend needs no FFmpeg encoder).
pub open spec fn ffmpeg_supports(names: Seq<Seq<char>>, e: HwEncoder) -> bool {
    match ffmpeg_name_for_spec(e.backend, e.codec) {
        Some(n) => names.contains(n),
        None => true,
    }
}

fn contains_name(names: &[String], n: &String) -> (r: bool)
    ensures
        r == names_view(names@).contains(n@),
{
    let mut i: usize = 0;
    while i < names.len()
        invariant
            i <= names@.len(),
            forall|j: int| 0 <= j < i ==> names@[j]@ != n@,
        decreases names.len() - i,
    {
        if names[i] == *n {
            assert(names_view(names@)[i as int] == n@);
            return true;
        }
        i += 1;
    }
    proof {
        if names_view(names@).contains(n@) {
            let j = choose|j: int| 0 <= j < names_view(names@).len() && names_view(names@)[j] == n@;
            assert(names@[j]@ == n@);
        }
    }
    false
}

/// The encoders of `s` that FFmpeg provides, in order.
pub open spec fn supported_by_ffmpeg(names: Seq<Seq<char>>, s: Seq<HwEncoder>) -> Seq<HwEncoder> {
    filter_enc(s, |e: HwEncoder| ffmpeg_supports(names, e))
}

/// Keep the encoders whose FFmpeg encoder is among `ffmpeg_encoder_names`.
pub fn filter_encoders_with_ffmpeg_support(encoders: Vec<HwEncoder>, ffmpeg_encoder_names: &[String]) -> (r:
    Vec<HwEncoder>)
    ensures
        r@ == supported_by_ffmpeg(names_view(ffmpeg_encoder_names@), encoders@),
{
    let ghost p = |e: HwEncoder| ffmpeg_supports(names_view(ffmpeg_encoder_names@), e);
    let mut out: Vec<HwEncoder> = Vec::new();
    let mut i: usize = 0;
    while i < encoders.len()
        invariant
            i <= encoders@.len(),
            p == (|e: HwEncoder| ffmpeg_supports(names_view(ffmpeg_encoder_names@), e)),
            out@ == filter_enc(encoders@.take(i as int), p),
        decreases encoders.len() - i,
    {
        let e = &encoders[i];
        let keep = match ffmpeg_encoder_name_for_backend(e.backend, e.codec) {
            Some(n) => contains_name(ffmpeg_encoder_names, &n),
            None => true,
        };
        assert(encoders@.take(i + 1).drop_last() =~= encoders@.take(i as int));
        if keep {
            out.push(e.duplicate());
        }
        i += 1;
    }
    assert(encoders@.take(encoders@.len() as int) =~= encoders@);
    out
}

/// `e` has the given codec, backend, device, priority and FFmpeg name.
pub open spec fn enc_is(
    e: HwEncoder,
    codec: VideoCodec,
    backend: EncoderBackend,
    device: Option<Seq<char>>,
    priority: int,
    name: Seq<char>,
) -> bool {
    &&& e.codec == codec
    &&& e.backend == backend
    &&& opt_view(e.device) == device
    &&& e.priority == priority
    &&& e.ffmpeg_name@ == name
}

/// A new encoder entry.
pub fn make_encoder(
    codec: VideoCodec,
    backend: EncoderBackend,
    device: &Option<String>,
    priority: u8,
    name: &str,
) -> (e: HwEncoder)
    ensures
        enc_is(e, codec, backend, opt_view(*device), priority as int, name@),
        e.device == *device,
{
    HwEncoder { codec, backend, device: clone_opt_string(device), priority, ffmpeg_name: name.to_owned() }
}

// ---------------------------------------------------------------------------
// Putting the layers together
// ---------------------------------------------------------------------------

/// The encoders of `s` whose hardware was detected, in order.
pub open spec fn matching_hardware(s: Seq<HwEncoder>, vendors: Seq<GpuVendor>, os: HostOs) -> Seq<HwEncoder> {
    filter_enc(s, |e: HwEncoder| backend_matches_spec(e.backend, vendors, os))
}

/// Keep the FFmpeg encoders whose hardware was detected.
pub fn filter_ffmpeg_encoders_by_detected_hardware(encoders: Vec<HwEncoder>, vendors: &[GpuVendor], os: HostOs) -> (r:
    Vec<HwEncoder>)
    ensures
        r@ == matching_hardware(encoders@, vendors@, os),
{
    let ghost p = |e: HwEncoder| backend_matches_spec(e.backend, vendors@, os);
    let mut out: Vec<HwEncoder> = Vec::new();
    let mut i: usize = 0;
    while i < encoders.len()
        invariant
            i <= encoders@.len(),
            p == (|e: HwEncoder| backend_matches_spec(e.backend, vendors@, os)),
            out@ == filter_enc(encoders@.take(i as int), p),
        decreases encoders.len() - i,
    {
        let e = &encoders[i];
        assert(encoders@.take(i + 1).drop_last() =~= encoders@.take(i as int));
        if backend_matches_detected_gpu(e.backend, vendors, os) {
            out.push(e.duplicate());
        }
        i += 1;
    }
    assert(encoders@.take(encoders@.len() as int) =~= encoders@);
    out
}

/// What a detection layer found: its encoders, none when it failed.
pub open spec fn found(r: Result<Vec<HwEncoder>, String>) -> Seq<HwEncoder> {
    match r {
        Ok(v) => v@,
        Err(_) => seq![],
    }
}

/// The encoders of the three layers: those of the GPU APIs and of the OS
/// frameworks that FFmpeg provides, then those of FFmpeg whose hardware
/// was detected.
pub open spec fn combined_spec(
    gpu: Result<Vec<HwEncoder>, String>,
    os_layer: Result<Vec<HwEncoder>, String>,
    ffmpeg: Result<Vec<HwEncoder>, String>,
    names: Seq<Seq<char>>,
    vendors: Seq<GpuVendor>,
    os: HostOs,
) -> Seq<HwEncoder> {
    supported_by_ffmpeg(names, found(gpu)) + supported_by_ffmpeg(names, found(os_layer)) + matching_hardware(
        found(ffmpeg),
        vendors,
        os,
    )
}

/// The layers that found at least one encoder, in order.
pub open spec fn sources_spec(
    gpu: Result<Vec<HwEncoder>, String>,
    os_layer: Result<Vec<HwEncoder>, String>,
    ffmpeg: Result<Vec<HwEncoder>, String>,
) -> Seq<DetectionSource> {
    (if found(gpu).len() > 0 { seq![DetectionSource::L1GpuApi] } else { seq![] }) + (if found(os_layer).len()
        > 0 {
        seq![DetectionSource::L2OsFramework]
    } else {
        seq![]
    }) + (if found(ffmpeg).len() > 0 { seq![DetectionSource::L3Ffmpeg] } else { seq![] })
}

fn layer_found(r: Result<Vec<HwEncoder>, String>) -> (v: Vec<HwEncoder>)
    ensures
        v@ == found(r),
{
    match r {
        Ok(v) => v,
        Err(_) => Vec::new(),
    }
}

/// Gather the encoders of the three detection layers (GPU APIs, OS
/// frameworks, FFmpeg) and the layers that found any; `ffmpeg_encoder_names`
/// is FFmpeg's list of encoders (empty when it could not be read).
pub fn combine_detection_layers(
    gpu: Result<Vec<HwEncoder>, String>,
    os_layer: Result<Vec<HwEncoder>, String>,
    ffmpeg: Result<Vec<HwEncoder>, String>,
    ffmpeg_encoder_names: &[String],
    vendors: &[GpuVendor],
    os: HostOs,
) -> (r: (Vec<HwEncoder>, Vec<DetectionSource>))
    ensures
        r.0@ == combined_spec(gpu, os_layer, ffmpeg, names_view(ffmpeg_encoder_names@), vendors@, os),
        r.1@ == sources_spec(gpu, os_layer, ffmpeg),
{
    let ghost (g0, o0, f0) = (gpu, os_layer, ffmpeg);
    let mut encoders: Vec<HwEncoder> = Vec::new();
    let mut sources: Vec<DetectionSource> = Vec::new();
    let g = layer_found(gpu);
    if g.len() > 0 {
        sources.push(DetectionSource::L1GpuApi);
    }
    let mut a = filter_encoders_with_ffmpeg_support(g, ffmpeg_encoder_names);
    encoders.append(&mut a);
    let o = layer_found(os_layer);
    if o.len() > 0 {
        sources.push(DetectionSource::L2OsFramework);
    }
    let mut b = filter_encoders_with_ffmpeg_support(o, ffmpeg_encoder_names);
    encoders.append(&mut b);
    let f = layer_found(ffmpeg);
    if f.len() > 0 {
        sources.push(DetectionSource::L3Ffmpeg);
    }
    let mut c = filter_ffmpeg_encoders_by_detected_hardware(f, vendors, os);
    encoders.append(&mut c);
    assert(sources@ =~= sources_spec(g0, o0, f0));
    (encoders, sources)
}

/// The software encoder used when no hardware encoder was found.
pub open spec fn is_software_fallback(e: HwEncoder) -> bool {
    enc_is(e, VideoCodec::H264, EncoderBackend::Software, None, 10, "libx264"@)
}

/// `k` is the first position of an encoder of least priority.
pub open spec fn is_first_min_priority(s: Seq<HwEncoder>, k: int) -> bool {
    &&& 0 <= k < s.len()
    &&& forall|j: int| 0 <= j < k ==> s[k].priority < (#[trigger] s[j]).priority
    &&& forall|j: int| k <= j < s.len() ==> s[k].priority <= (#[trigger] s[j]).priority
}

/// The encoder of least priority; the first one of those when several tie.
pub fn min_priority_encoder(encoders: &[HwEncoder]) -> (r: Option<HwEncoder>)
    ensures
        encoders@.len() == 0 ==> r is None,
        encoders@.len() > 0 ==> exists|k: int| is_first_min_priority(encoders@, k) && r == Some(encoders@[k]),
{
    if encoders.len() == 0 {
        return None;
    }
    let mut best: usize = 0;
    let mut i: usize = 1;
    while i < encoders.len()
        invariant
            1 <= i <= encoders@.len(),
            best < i,
            forall|j: int| 0 <= j < best ==> encoders@[best as int].priority < (#[trigger] encoders@[j]).priority,
            forall|j: int| best <= j < i ==> encoders@[best as int].priority <= (#[trigger] encoders@[j]).priority,
        decreases encoders.len() - i,
    {
        if encoders[i].priority < encoders[best].priority {
            best = i;
        }
        i += 1;
    }
    assert(is_first_min_priority(encoders@, best as int));
    Some(encoders[best].duplicate())
}

/// The detection result: the encoders without duplicates (the software
/// encoder when none is left), the first of least priority as primary, the
/// elapsed time, and the layers that found encoders, with runtime
/// validation last when it ran.
pub fn finish_detection(
    encoders: Vec<HwEncoder>,
    sources: Vec<DetectionSource>,
    runtime_validated: bool,
    detection_time_ms: u64,
) -> (r: DetectionResult)
    ensures
        dedupe_spec(encoders@).len() > 0 ==> r.encoders@ == dedupe_spec(encoders@),
        dedupe_spec(encoders@).len() == 0 ==> r.encoders@.len() == 1 && is_software_fallback(r.encoders@[0]),
        r.encoders@.len() > 0,
        r.primary is Some,
        exists|k: int| is_first_min_priority(r.encoders@, k) && r.primary == Some(r.encoders@[k]),
        r.detection_time_ms == detection_time_ms,
        r.sources@ == sources@ + (if runtime_validated {
            seq![DetectionSource::L4Runtime]
        } else {
            seq![]
        }),
{
    let mut sources = sources;
    let ghost s0 = sources@;
    if runtime_validated {
        sources.push(DetectionSource::L4Runtime);
    }
    assert(sources@ =~= s0 + (if runtime_validated {
        seq![DetectionSource::L4Runtime]
    } else {
        seq![]
    }));
    let mut unique = dedupe_encoders(encoders);
    if unique.len() == 0 {
        unique.push(make_encoder(VideoCodec::H264, EncoderBackend::Software, &None, 10, "libx264"));
    }
    let primary = min_priority_encoder(&unique);
    DetectionResult { encoders: unique, primary, detection_time_ms, sources }
}

/// H.264 encoders that are not software encoders.
pub open spec fn is_h264_hardware(e: HwEncoder) -> bool {
    e.codec == VideoCodec::H264 && e.backend != EncoderBackend::Software
}

pub open spec fn h264_hardware(s: Seq<HwEncoder>) -> Seq<HwEncoder> {
    filter_enc(s, |e: HwEncoder| is_h264_hardware(e))
}

/// Keep the H.264 hardware encoders.
pub fn filter_h264_hardware(encoders: Vec<HwEncoder>) -> (r: Vec<HwEncoder>)
    ensures
        r@ == h264_hardware(encoders@),
{
    let ghost p = |e: HwEncoder| is_h264_hardware(e);
    let mut out: Vec<HwEncoder> = Vec::new();
    let mut i: usize = 0;
    while i < encoders.len()
        invariant
            i <= encoders@.len(),
            p == (|e: HwEncoder| is_h264_hardware(e)),
            out@ == filter_enc(encoders@.take(i as int), p),
        decreases encoders.len() - i,
    {
        let e = &encoders[i];
        assert(encoders@.take(i + 1).drop_last() =~= encoders@.take(i as int));
        if e.codec == VideoCodec::H264 && e.backend != EncoderBackend::Software {
            out.push(e.duplicate());
        }
        i += 1;
    }
    assert(encoders@.take(encoders@.len() as int) =~= encoders@);
    out
}

/// The H.264 hardware encoders of the three layers, without duplicates.
pub open spec fn preferred_candidates(
    gpu: Result<Vec<HwEncoder>, String>,
    os_layer: Result<Vec<HwEncoder>, String>,
    ffmpeg: Result<Vec<HwEncoder>, String>,
    names: Seq<Seq<char>>,
    vendors: Seq<GpuVendor>,
    os: HostOs,
) -> Seq<HwEncoder> {
    h264_hardware(dedupe_spec(combined_spec(gpu, os_layer, ffmpeg, names, vendors, os)))
}

/// The best H.264 hardware encoder that the three detection layers found:
/// least priority, then least backend rank; none when there is none.
pub fn detect_preferred_h264_encoder(
    gpu: Result<Vec<HwEncoder>, String>,
    os_layer: Result<Vec<HwEncoder>, String>,
    ffmpeg: Result<Vec<HwEncoder>, String>,
    ffmpeg_encoder_names: &[String],
    vendors: &[GpuVendor],
    os: HostOs,
) -> (r: Option<HwEncoder>)
    ensures
        ({
            let c = preferred_candidates(gpu, os_layer, ffmpeg, names_view(ffmpeg_encoder_names@), vendors@, os);
            &&& c.len() == 0 ==> r is None
            &&& c.len() > 0 ==> exists|k: int| is_first_best(c, k) && r == Some(c[k])
        }),
{
    let (all, _sources) = combine_detection_layers(gpu, os_layer, ffmpeg, ffmpeg_encoder_names, vendors, os);
    let unique = dedupe_encoders(all);
    let candidates = filter_h264_hardware(unique);
    choose_primary_encoder(candidates)
}

} // verus!
