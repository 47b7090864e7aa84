//! Selection of the acceleration backend, and the encoder, filters and decoder that each
//! backend is given.
//!
//! - NVIDIA CUDA (nvenc, cuvid, cuda filters)
//! - Apple VideoToolbox (`scale_vt`, macOS)
//! - VAAPI (`scale_vaapi`, Intel and AMD on Linux)
//! - Intel Quick Sync (`vpp_qsv`, `scale_qsv`)
//! - AMD AMF (software filters)
//! - Rockchip RKMPP (software filters)
//! - Software (libx264, libx265)
pub mod amf;
pub mod cuda;
pub mod laws;
pub mod qsv;
pub mod rkmpp;
pub mod software;
pub mod vaapi;
pub mod videotoolbox;

use crate::hw_detect;
use crate::hw_detect::{HwCapabilities, HwFindings, Platform};
use crate::number;
use crate::text;
use crate::types::TonemapOptions;
use vstd::prelude::*;
use vstd::string::*;

pub use cuda::build_cuda_tonemap;
pub use software::build_sw_tonemap;

verus! {

broadcast use vstd::string::group_string_axioms;

// ── Selection ────────────────────────────────────────────────────────────────

/// The backend of a session.
#[derive(Debug, Clone, Copy, PartialEq, Eq, Structural)]
pub enum HwBackend {
    /// NVIDIA: `h264_nvenc` or `hevc_nvenc`.
    Cuda,
    /// Apple VideoToolbox: `h264_videotoolbox` or `hevc_videotoolbox`.
    VideoToolbox,
    /// VAAPI: `h264_vaapi` or `hevc_vaapi`.
    Vaapi,
    /// Intel Quick Sync: `h264_qsv` or `hevc_qsv`.
    Qsv,
    /// AMD AMF: `h264_amf` or `hevc_amf`.
    Amf,
    /// Rockchip RKMPP: `h264_rkmpp` or `hevc_rkmpp`.
    Rkmpp,
    /// libx264 or libx265.
    Software,
}

impl HwBackend {
    /// The name of the backend.
    pub open spec fn name(self) -> Seq<char> {
        match self {
            HwBackend::Cuda => "cuda"@,
            HwBackend::VideoToolbox => "videotoolbox"@,
            HwBackend::Vaapi => "vaapi"@,
            HwBackend::Qsv => "qsv"@,
            HwBackend::Amf => "amf"@,
            HwBackend::Rkmpp => "rkmpp"@,
            HwBackend::Software => "software"@,
        }
    }

    /// The name of the backend.
    pub fn label(self) -> (r: &'static str)
        ensures
            r@ == self.name(),
    {
        match self {
            HwBackend::Cuda => "cuda",
            HwBackend::VideoToolbox => "videotoolbox",
            HwBackend::Vaapi => "vaapi",
            HwBackend::Qsv => "qsv",
            HwBackend::Amf => "amf",
            HwBackend::Rkmpp => "rkmpp",
            HwBackend::Software => "software",
        }
    }

    /// Whether the backend encodes in hardware.
    pub fn is_hw_encoder(self) -> (r: bool)
        ensures
            r == (self != HwBackend::Software),
    {
        !matches!(self, HwBackend::Software)
    }
}

/// Whether the capabilities hold what the backend needs.
pub open spec fn available(caps: HwCapabilities, backend: HwBackend) -> bool {
    match backend {
        HwBackend::Cuda => caps.has_nvenc,
        HwBackend::VideoToolbox => caps.has_videotoolbox,
        HwBackend::Vaapi => caps.has_vaapi,
        HwBackend::Qsv => caps.has_qsv,
        HwBackend::Amf => caps.has_amf,
        HwBackend::Rkmpp => caps.has_rkmpp,
        HwBackend::Software => true,
    }
}

/// The backends, the preferred ones first.
pub open spec fn preference() -> Seq<HwBackend> {
    seq![
        HwBackend::Cuda,
        HwBackend::VideoToolbox,
        HwBackend::Vaapi,
        HwBackend::Qsv,
        HwBackend::Amf,
        HwBackend::Rkmpp,
        HwBackend::Software,
    ]
}

/// Whether the backend is the first available one.
pub open spec fn is_selected(caps: HwCapabilities, backend: HwBackend) -> bool {
    exists|i: int|
        {
            &&& 0 <= i < preference().len()
            &&& #[trigger] preference()[i] == backend
            &&& available(caps, backend)
            &&& forall|j: int| 0 <= j < i ==> !available(caps, #[trigger] preference()[j])
        }
}

/// One backend is selected and no other.
pub proof fn selection_is_unique(caps: HwCapabilities, a: HwBackend, b: HwBackend)
    requires
        is_selected(caps, a),
    ensures
        is_selected(caps, b) <==> a == b,
{
    let i = choose|i: int|
        {
            &&& 0 <= i < preference().len()
            &&& #[trigger] preference()[i] == a
            &&& available(caps, a)
            &&& forall|j: int| 0 <= j < i ==> !available(caps, #[trigger] preference()[j])
        };
    if is_selected(caps, b) {
        let k = choose|k: int|
            {
                &&& 0 <= k < preference().len()
                &&& #[trigger] preference()[k] == b
                &&& available(caps, b)
                &&& forall|j: int| 0 <= j < k ==> !available(caps, #[trigger] preference()[j])
            };
        if i < k {
            assert(!available(caps, preference()[i]));
        } else if k < i {
            assert(!available(caps, preference()[k]));
        }
    }
}

/// Software is the last resort: it is selected exactly where no hardware backend is
/// available.
pub proof fn software_is_the_last_resort(caps: HwCapabilities)
    ensures
        is_selected(caps, HwBackend::Software) <==> forall|b: HwBackend|
            b != HwBackend::Software ==> !available(caps, b),
{
    if is_selected(caps, HwBackend::Software) {
        assert forall|b: HwBackend| b != HwBackend::Software implies !available(caps, b) by {
            let place: int = match b {
                HwBackend::Cuda => 0,
                HwBackend::VideoToolbox => 1,
                HwBackend::Vaapi => 2,
                HwBackend::Qsv => 3,
                HwBackend::Amf => 4,
                HwBackend::Rkmpp => 5,
                HwBackend::Software => 6,
            };
            assert(preference()[place] == b);
        }
    }
    if forall|b: HwBackend| b != HwBackend::Software ==> !available(caps, b) {
        assert(preference()[6] == HwBackend::Software);
    }
}

/// The first available backend.
pub fn select_backend(caps: &HwCapabilities) -> (r: HwBackend)
    ensures
        is_selected(*caps, r),
{
    if caps.has_nvenc {
        assert(preference()[0] == HwBackend::Cuda);
        return HwBackend::Cuda;
    }
    if caps.has_videotoolbox {
        assert(preference()[1] == HwBackend::VideoToolbox);
        return HwBackend::VideoToolbox;
    }
    if caps.has_vaapi {
        assert(preference()[2] == HwBackend::Vaapi);
        return HwBackend::Vaapi;
    }
    if caps.has_qsv {
        assert(preference()[3] == HwBackend::Qsv);
        return HwBackend::Qsv;
    }
    if caps.has_amf {
        assert(preference()[4] == HwBackend::Amf);
        return HwBackend::Amf;
    }
    if caps.has_rkmpp {
        assert(preference()[5] == HwBackend::Rkmpp);
        return HwBackend::Rkmpp;
    }
    assert(preference()[6] == HwBackend::Software);
    HwBackend::Software
}

// ── Configuration ────────────────────────────────────────────────────────────

/// How the video is decoded, filtered and encoded.
#[derive(Debug, Clone)]
pub struct PipelineConfig {
    /// The encoder.
    pub encoder: String,
    /// The preset of the encoder; empty for none.
    pub preset: String,
    /// The target bit rate, such as 1716k.
    pub bitrate: Option<String>,
    pub maxrate: Option<String>,
    /// The size of the rate buffer.
    pub bufsize: Option<String>,
    /// The constant rate factor, in software only.
    pub crf: Option<u32>,
    /// The profile of the output.
    pub profile: Option<String>,
    /// The distance in seconds at which keyframes are forced, in software only.
    pub force_kf: Option<u32>,
    /// The length of a group of pictures in frames.
    pub gop: Option<i32>,
    pub keyint_min: Option<i32>,
    /// The hardware that decodes; none for software.
    pub decode: Option<String>,
    /// The hardware that filters; none for software: the filters then get frames in memory,
    /// whatever decodes them.
    pub filter_backend: Option<String>,
    /// The chain of filters.
    pub video_filter: Option<String>,
    /// Whether a named CUVID decoder is used.
    pub use_cuvid: bool,
}

/// What a `PipelineConfig` says.
pub struct ConfigView {
    pub encoder: Seq<char>,
    pub preset: Seq<char>,
    pub bitrate: Option<Seq<char>>,
    pub maxrate: Option<Seq<char>>,
    pub bufsize: Option<Seq<char>>,
    pub crf: Option<u32>,
    pub profile: Option<Seq<char>>,
    pub force_kf: Option<u32>,
    pub gop: Option<i32>,
    pub keyint_min: Option<i32>,
    pub decode: Option<Seq<char>>,
    pub filter_backend: Option<Seq<char>>,
    pub video_filter: Option<Seq<char>>,
    pub use_cuvid: bool,
}

impl View for PipelineConfig {
    type V = ConfigView;

    open spec fn view(&self) -> ConfigView {
        ConfigView {
            encoder: self.encoder@,
            preset: self.preset@,
            bitrate: text::opt_string(self.bitrate),
            maxrate: text::opt_string(self.maxrate),
            bufsize: text::opt_string(self.bufsize),
            crf: self.crf,
            profile: text::opt_string(self.profile),
            force_kf: self.force_kf,
            gop: self.gop,
            keyint_min: self.keyint_min,
            decode: text::opt_string(self.decode),
            filter_backend: text::opt_string(self.filter_backend),
            video_filter: text::opt_string(self.video_filter),
            use_cuvid: self.use_cuvid,
        }
    }
}

/// Which decoders take the codec of the source.
#[derive(Debug, Clone, Copy)]
pub struct SourceDecoders {
    /// Whether there is a CUVID decoder for it on this machine.
    pub cuvid: bool,
    pub videotoolbox: bool,
    pub vaapi: bool,
    pub qsv: bool,
    pub amf: bool,
}

/// What the pipeline is built from.
pub struct PipelineParams<'a> {
    pub caps: &'a HwCapabilities,
    pub platform: Platform,
    pub backend: HwBackend,
    pub decoders: SourceDecoders,
    /// The number of frames in a segment, rounded up, where the frame rate is known.
    pub segment_frames: Option<i32>,
    /// The bit rate of the source in bits per second.
    pub video_bitrate: Option<u64>,
    /// The bit rate in bits per second that the output is bounded by, where one is asked for.
    pub target_video_bitrate: Option<u64>,
    /// In seconds.
    pub segment_duration: u32,
    pub deinterlace: bool,
    pub tonemap: Option<&'a TonemapOptions>,
    pub out_bitrate_kbps: u64,
    /// Whether HEVC is preferred; H.264 where the backend cannot encode it.
    pub use_hevc: bool,
}

/// The frame rate that a source of unknown frame rate is taken to have.
pub const USUAL_FPS: u32 = 24;

/// The length of a group of pictures: that of a segment.
pub open spec fn gop_of(p: PipelineParams<'_>) -> i32 {
    match p.segment_frames {
        Some(frames) => frames,
        None => if p.segment_duration * USUAL_FPS <= i32::MAX {
            (p.segment_duration * USUAL_FPS) as i32
        } else {
            i32::MAX
        },
    }
}

fn gop(p: &PipelineParams<'_>) -> (r: i32)
    ensures
        r == gop_of(*p),
{
    match p.segment_frames {
        Some(frames) => frames,
        None => {
            let frames: u64 = p.segment_duration as u64 * USUAL_FPS as u64;
            if frames <= 0x7FFF_FFFF {
                frames as i32
            } else {
                0x7FFF_FFFF
            }
        },
    }
}

/// A bit rate as it is written in options.
pub open spec fn kbps(n: nat) -> Seq<char> {
    number::decimal(n) + "k"@
}

/// Writes a bit rate.
pub fn kbps_text(n: u64) -> (r: String)
    ensures
        r@ == kbps(n as nat),
{
    let digits = number::decimal_text(n as u128);
    text::join2(digits.as_str(), "k")
}

/// Whether twice the bit rate is a number, where it is asked for.
pub open spec fn bitrate_fits(p: PipelineParams<'_>) -> bool {
    p.backend != HwBackend::Software || p.target_video_bitrate is Some ==> p.out_bitrate_kbps * 2
        <= u64::MAX
}

/// What every hardware backend is given: a constant bit rate and groups of pictures as long
/// as segments. `hevc` and `h264` name the encoders, and `has_hevc` tells whether the first
/// is there.
pub open spec fn hardware_config(
    p: PipelineParams<'_>,
    has_hevc: bool,
    hevc: Seq<char>,
    h264: Seq<char>,
    preset: Seq<char>,
    decode: Option<Seq<char>>,
    filter_backend: Option<Seq<char>>,
    video_filter: Seq<char>,
    use_cuvid: bool,
) -> ConfigView {
    ConfigView {
        encoder: if p.use_hevc && has_hevc {
            hevc
        } else {
            h264
        },
        preset,
        bitrate: Some(kbps(p.out_bitrate_kbps as nat)),
        maxrate: Some(kbps(p.out_bitrate_kbps as nat)),
        bufsize: Some(kbps((p.out_bitrate_kbps * 2) as nat)),
        crf: None,
        profile: Some(
            if p.use_hevc && has_hevc {
                "main"@
            } else {
                "high"@
            },
        ),
        force_kf: None,
        gop: Some(gop_of(p)),
        keyint_min: Some(gop_of(p)),
        decode,
        filter_backend,
        video_filter: Some(video_filter),
        use_cuvid,
    }
}

fn build_hardware(
    p: &PipelineParams<'_>,
    has_hevc: bool,
    hevc: &str,
    h264: &str,
    preset: &str,
    decode: Option<&str>,
    filter_backend: Option<&str>,
    video_filter: String,
    use_cuvid: bool,
) -> (r: PipelineConfig)
    requires
        p.out_bitrate_kbps * 2 <= u64::MAX,
    ensures
        r@ == hardware_config(
            *p,
            has_hevc,
            hevc@,
            h264@,
            preset@,
            text::opt_text(decode),
            text::opt_text(filter_backend),
            video_filter@,
            use_cuvid,
        ),
{
    let use_hevc = p.use_hevc && has_hevc;
    let frames: i32 = gop(p);
    PipelineConfig {
        encoder: text::copy_text(
            if use_hevc {
                hevc
            } else {
                h264
            },
        ),
        preset: text::copy_text(preset),
        bitrate: Some(kbps_text(p.out_bitrate_kbps)),
        maxrate: Some(kbps_text(p.out_bitrate_kbps)),
        bufsize: Some(kbps_text(p.out_bitrate_kbps * 2)),
        crf: None,
        profile: Some(
            text::copy_text(
                if use_hevc {
                    "main"
                } else {
                    "high"
                },
            ),
        ),
        force_kf: None,
        gop: Some(frames),
        keyint_min: Some(frames),
        decode: text::own_opt(decode),
        filter_backend: text::own_opt(filter_backend),
        video_filter: Some(video_filter),
        use_cuvid,
    }
}

// ── Filters ──────────────────────────────────────────────────────────────────

/// The software filter that deinterlaces.
pub open spec fn sw_deinterlace(caps: HwCapabilities) -> Seq<char> {
    if caps.has_bwdif {
        "bwdif=0:-1:0"@
    } else {
        "yadif=0:-1:0"@
    }
}

fn sw_deinterlace_text(caps: &HwCapabilities) -> (r: &'static str)
    ensures
        r@ == sw_deinterlace(*caps),
{
    if caps.has_bwdif {
        "bwdif=0:-1:0"
    } else {
        "yadif=0:-1:0"
    }
}

/// The filter, behind that which deinterlaces where that is asked for.
pub open spec fn filter_chain(
    deinterlace: bool,
    first: Seq<char>,
    base: Seq<char>,
) -> Seq<char> {
    if deinterlace {
        first + ","@ + base
    } else {
        base
    }
}

fn chain_text(deinterlace: bool, first: &str, base: String) -> (r: String)
    ensures
        r@ == filter_chain(deinterlace, first@, base@),
{
    if deinterlace {
        text::join3(first, ",", base.as_str())
    } else {
        base
    }
}

/// The software filters for frames in memory: tone mapping, or the format alone.
pub open spec fn sw_filter(p: PipelineParams<'_>) -> Seq<char> {
    filter_chain(
        p.deinterlace,
        sw_deinterlace(*p.caps),
        match p.tonemap {
            Some(tm) => software::sw_tonemap(*tm, *p.caps, false),
            None => "format=yuv420p"@,
        },
    )
}

fn sw_filter_text(p: &PipelineParams<'_>) -> (r: String)
    ensures
        r@ == sw_filter(*p),
{
    let base = match p.tonemap {
        Some(tm) => build_sw_tonemap(tm, p.caps, false),
        None => text::copy_text("format=yuv420p"),
    };
    chain_text(p.deinterlace, sw_deinterlace_text(p.caps), base)
}

/// The parameter of the algorithm as it is appended to a filter; nothing where it is 0.
pub open spec fn param_suffix(tm: TonemapOptions) -> Seq<char> {
    if number::is_zero(tm.param.bits) {
        ""@
    } else {
        ":param="@ + tm.param.text@
    }
}

/// The range as it is appended to a filter; nothing where it is neither tv nor pc.
pub open spec fn range_suffix(tm: TonemapOptions) -> Seq<char> {
    if tm.range@ == "tv"@ || tm.range@ == "pc"@ {
        ":range="@ + tm.range@
    } else {
        ""@
    }
}

fn param_text(tm: &TonemapOptions) -> (r: String)
    ensures
        r@ == param_suffix(*tm),
{
    if tm.param.nonzero() {
        text::join2(":param=", tm.param.text.as_str())
    } else {
        text::copy_text("")
    }
}

fn range_text(tm: &TonemapOptions) -> (r: String)
    ensures
        r@ == range_suffix(*tm),
{
    let range = tm.range.as_str();
    if text::same_text(range, "tv") || text::same_text(range, "pc") {
        text::join2(":range=", range)
    } else {
        text::copy_text("")
    }
}

/// The algorithm, the peak and the desaturation behind the front of a filter.
pub open spec fn peak_first(front: Seq<char>, tm: TonemapOptions) -> Seq<char> {
    front + tm.algorithm@ + ":peak="@ + tm.peak.text@ + ":desat="@ + tm.desat.text@
}

fn peak_first_text(front: &str, tm: &TonemapOptions) -> (r: String)
    ensures
        r@ == peak_first(front@, *tm),
{
    let mut r = front.to_owned();
    r.append(tm.algorithm.as_str());
    r.append(":peak=");
    r.append(tm.peak.text.as_str());
    r.append(":desat=");
    r.append(tm.desat.text.as_str());
    r
}

/// The filter that marks frames as BT.2020.
pub open spec fn bt2020_marks() -> Seq<char> {
    "setparams=color_primaries=bt2020:color_trc=smpte2084:colorspace=bt2020nc"@
}

fn bt2020_marks_text() -> (r: &'static str)
    ensures
        r@ == bt2020_marks(),
{
    "setparams=color_primaries=bt2020:color_trc=smpte2084:colorspace=bt2020nc"
}

// ── The whole ────────────────────────────────────────────────────────────────

/// The configuration for the backend.
pub open spec fn pipeline_config(p: PipelineParams<'_>) -> ConfigView {
    match p.backend {
        HwBackend::Cuda => cuda::cuda_config(p),
        HwBackend::VideoToolbox => videotoolbox::videotoolbox_config(p),
        HwBackend::Vaapi => vaapi::vaapi_config(p),
        HwBackend::Qsv => qsv::qsv_config(p),
        HwBackend::Amf => amf::amf_config(p),
        HwBackend::Rkmpp => rkmpp::rkmpp_config(p),
        HwBackend::Software => software::software_config(p),
    }
}

/// Builds the configuration for the backend.
pub fn build_pipeline(p: &PipelineParams<'_>) -> (r: PipelineConfig)
    requires
        bitrate_fits(*p),
    ensures
        r@ == pipeline_config(*p),
{
    match p.backend {
        HwBackend::Cuda => cuda::build_cuda(p),
        HwBackend::VideoToolbox => videotoolbox::build_videotoolbox(p),
        HwBackend::Vaapi => vaapi::build_vaapi(p),
        HwBackend::Qsv => qsv::build_qsv(p),
        HwBackend::Amf => amf::build_amf(p),
        HwBackend::Rkmpp => rkmpp::build_rkmpp(p),
        HwBackend::Software => software::build_software(p),
    }
}

// ── Laws ─────────────────────────────────────────────────────────────────────

/// A selected backend is one whose hardware passed the gates.
pub proof fn selected_hardware_is_present(
    before: HwCapabilities,
    found: HwFindings,
    platform: Platform,
    after: HwCapabilities,
    backend: HwBackend,
)
    requires
        hw_detect::gated(before, found, platform, after),
        is_selected(after, backend),
    ensures
        available(before, backend),
        match backend {
            HwBackend::Cuda => found.passes_cuda(platform),
            HwBackend::VideoToolbox => found.passes_videotoolbox(platform),
            HwBackend::Vaapi => found.passes_vaapi(platform),
            HwBackend::Qsv => found.passes_qsv(platform),
            HwBackend::Amf => found.passes_amf(platform),
            HwBackend::Rkmpp => found.passes_rkmpp(platform),
            HwBackend::Software => true,
        },
{
}

/// Whether the backend encodes HEVC.
pub open spec fn encodes_hevc(caps: HwCapabilities, backend: HwBackend) -> bool {
    match backend {
        HwBackend::Cuda => caps.has_nvenc_hevc,
        HwBackend::VideoToolbox => caps.has_videotoolbox_hevc,
        HwBackend::Vaapi => caps.has_vaapi_hevc,
        HwBackend::Qsv => caps.has_qsv_hevc,
        HwBackend::Amf => caps.has_amf_hevc,
        HwBackend::Rkmpp => caps.has_rkmpp_hevc,
        HwBackend::Software => caps.has_libx265,
    }
}

/// The encoders for H.264.
pub open spec fn h264_encoders() -> Seq<Seq<char>> {
    seq![
        "h264_nvenc"@,
        "h264_videotoolbox"@,
        "h264_vaapi"@,
        "h264_qsv"@,
        "h264_amf"@,
        "h264_rkmpp"@,
        "libx264"@,
    ]
}

/// The encoders for HEVC.
pub open spec fn hevc_encoders() -> Seq<Seq<char>> {
    seq![
        "hevc_nvenc"@,
        "hevc_videotoolbox"@,
        "hevc_vaapi"@,
        "hevc_qsv"@,
        "hevc_amf"@,
        "hevc_rkmpp"@,
        "libx265"@,
    ]
}

/// The output is HEVC exactly where that is preferred and the backend encodes it; else it is
/// H.264. A client that does not decode HEVC never gets it.
pub proof fn hevc_only_where_preferred_and_there(p: PipelineParams<'_>)
    ensures
        if p.use_hevc && encodes_hevc(*p.caps, p.backend) {
            &&& hevc_encoders().contains(pipeline_config(p).encoder)
            &&& pipeline_config(p).profile == Some("main"@)
        } else {
            &&& h264_encoders().contains(pipeline_config(p).encoder)
            &&& pipeline_config(p).profile == Some("high"@)
        },
{
    let place: int = match p.backend {
        HwBackend::Cuda => 0,
        HwBackend::VideoToolbox => 1,
        HwBackend::Vaapi => 2,
        HwBackend::Qsv => 3,
        HwBackend::Amf => 4,
        HwBackend::Rkmpp => 5,
        HwBackend::Software => 6,
    };
    assert(hevc_encoders()[place] == hevc_encoders()[place]);
    assert(h264_encoders()[place] == h264_encoders()[place]);
}

/// No encoder is one for both.
pub proof fn encoders_differ(name: Seq<char>)
    ensures
        !(h264_encoders().contains(name) && hevc_encoders().contains(name)),
{
    reveal_strlit("h264_nvenc");
    reveal_strlit("h264_videotoolbox");
    reveal_strlit("h264_vaapi");
    reveal_strlit("h264_qsv");
    reveal_strlit("h264_amf");
    reveal_strlit("h264_rkmpp");
    reveal_strlit("libx264");
    reveal_strlit("hevc_nvenc");
    reveal_strlit("hevc_videotoolbox");
    reveal_strlit("hevc_vaapi");
    reveal_strlit("hevc_qsv");
    reveal_strlit("hevc_amf");
    reveal_strlit("hevc_rkmpp");
    reveal_strlit("libx265");
    assert(forall|i: int|
        0 <= i < 7 ==> (#[trigger] h264_encoders()[i])[1] == '2' || h264_encoders()[i][6] == '4');
    assert(forall|i: int|
        0 <= i < 7 ==> (#[trigger] hevc_encoders()[i])[1] == 'e' || hevc_encoders()[i][6] == '5');
}

/// The rate is controlled in one way: by a bit rate that is also the maximum, with a buffer
/// for twice as much, or by a constant rate factor.
pub proof fn rate_is_controlled_in_one_way(p: PipelineParams<'_>)
    ensures
        ({
            let c = pipeline_config(p);
            if p.backend != HwBackend::Software || p.target_video_bitrate is Some {
                &&& c.bitrate == Some(kbps(p.out_bitrate_kbps as nat))
                &&& c.maxrate == c.bitrate
                &&& c.bufsize == Some(kbps((p.out_bitrate_kbps * 2) as nat))
                &&& c.crf is None
            } else {
                c.bitrate is None && c.maxrate is None && c.bufsize is None && c.crf is Some
            }
        }),
{
}

/// Keyframes fall on segment boundaries: a hardware backend makes groups of pictures as long
/// as a segment, and the software one forces a keyframe at each.
pub proof fn keyframes_fall_on_boundaries(p: PipelineParams<'_>)
    ensures
        ({
            let c = pipeline_config(p);
            if p.backend != HwBackend::Software {
                c.gop == Some(gop_of(p)) && c.keyint_min == c.gop && c.force_kf is None
            } else {
                c.force_kf == Some(p.segment_duration) && c.gop is None && c.keyint_min is None
            }
        }),
{
}

/// Whether tone mapping is left to software.
pub open spec fn tonemaps_in_software(p: PipelineParams<'_>) -> bool {
    match p.backend {
        HwBackend::Cuda => !cuda::uses_cuvid(p),
        HwBackend::VideoToolbox => !(videotoolbox::in_hardware(p)
            && p.caps.has_videotoolbox_tonemap),
        HwBackend::Vaapi => !p.caps.has_vaapi_full,
        HwBackend::Qsv => !p.caps.has_qsv_full,
        HwBackend::Amf | HwBackend::Rkmpp | HwBackend::Software => true,
    }
}

/// Whether the filters get frames that are on the GPU: they are decoded and filtered there.
pub open spec fn frames_on_gpu(c: ConfigView) -> bool {
    c.decode is Some && c.filter_backend is Some
}

/// Tone mapping in software stands at the end of the filters, and starts with a download of
/// the frames exactly where they are on the GPU. Frames that are decoded in software are
/// never downloaded.
pub proof fn frames_are_downloaded_from_the_gpu_alone(p: PipelineParams<'_>)
    requires
        p.tonemap is Some,
        tonemaps_in_software(p),
    ensures
        ({
            let c = pipeline_config(p);
            let tonemap = software::sw_tonemap(*p.tonemap->0, *p.caps, frames_on_gpu(c));
            &&& c.video_filter matches Some(filter) && tonemap.is_suffix_of(filter)
            &&& !p.deinterlace ==> c.video_filter == Some(tonemap)
            &&& c.decode is None ==> !frames_on_gpu(c)
        }),
{
}

}
