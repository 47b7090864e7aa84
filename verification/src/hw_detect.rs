//! Which hardware the transcoder can use: what it was built with, less what the machine lacks.
use crate::number;
use crate::text;
use vstd::prelude::*;
use vstd::string::*;

verus! {

broadcast use vstd::string::group_string_axioms;

/// What the transcoder supports.
#[derive(Debug, Clone)]
pub struct HwCapabilities {
    pub has_nvenc: bool,
    pub has_nvenc_hevc: bool,
    pub has_cuvid: bool,
    pub has_cuda_full: bool,
    pub has_bwdif_cuda: bool,
    /// The codecs that the GPU decodes.
    pub cuvid_hw_codecs: Vec<String>,
    pub has_vaapi: bool,
    pub has_vaapi_full: bool,
    pub has_vaapi_hevc: bool,
    pub has_qsv: bool,
    pub has_qsv_full: bool,
    pub has_qsv_hevc: bool,
    pub has_amf: bool,
    pub has_amf_hevc: bool,
    pub has_rkmpp: bool,
    pub has_rkmpp_hevc: bool,
    pub has_videotoolbox: bool,
    pub has_videotoolbox_full: bool,
    pub has_videotoolbox_hevc: bool,
    pub has_videotoolbox_tonemap: bool,
    pub has_tonemap: bool,
    pub has_tonemapx: bool,
    pub has_zscale: bool,
    pub has_bwdif: bool,
    pub has_libx265: bool,
}

/// The operating system.
#[derive(Debug, Clone, Copy, PartialEq, Eq, Structural)]
pub enum Platform {
    Linux,
    MacOs,
    Windows,
    Other,
}

/// What a look at the machine has found. Only Linux is looked at closely: elsewhere the
/// fields count for nothing.
#[derive(Debug, Clone)]
pub struct HwFindings {
    /// The number of entries below the `i915` driver, where it can be listed.
    pub i915_entries: Option<usize>,
    /// The number of entries below the `xe` driver, where it can be listed.
    pub xe_entries: Option<usize>,
    /// The number of entries below the `amdgpu` driver, where it can be listed.
    pub amdgpu_entries: Option<usize>,
    /// Whether the control device of the NVIDIA driver exists.
    pub nvidia_control: bool,
    /// The names in the device directory that are texts, where it can be listed.
    pub device_names: Vec<String>,
    /// The names in the directory of DRM devices that are texts, where it can be listed.
    pub dri_names: Vec<String>,
    /// Whether the VAAPI driver for NVIDIA GPUs is installed.
    pub nvidia_vaapi_driver: bool,
    /// Whether a device of a Rockchip processor exists.
    pub rockchip_device: bool,
}

// ── Names of devices ─────────────────────────────────────────────────────────

/// Whether the name is the prefix followed by one decimal digit or more.
pub open spec fn numbered(name: Seq<char>, prefix: Seq<char>) -> bool {
    &&& prefix.len() < name.len()
    &&& name.take(prefix.len() as int) == prefix
    &&& number::all_digits(name.skip(prefix.len() as int))
}

fn is_numbered(name: &str, prefix: &str) -> (r: bool)
    ensures
        r == numbered(name@, prefix@),
{
    let chars = text::to_chars(name);
    let front = text::to_chars(prefix);
    let n: usize = chars.len();
    let k: usize = front.len();
    if k >= n {
        return false;
    }
    let mut i: usize = 0;
    while i < k
        invariant
            n == chars@.len(),
            k == front@.len(),
            k < n,
            i <= k,
            chars@ == name@,
            front@ == prefix@,
            forall|j: int| 0 <= j < i ==> chars@[j] == front@[j],
        decreases k - i,
    {
        if chars[i] != front[i] {
            assert(name@.take(prefix@.len() as int)[i as int] != prefix@[i as int]);
            return false;
        }
        i += 1;
    }
    assert(name@.take(prefix@.len() as int) =~= prefix@);
    while i < n
        invariant
            n == chars@.len(),
            k == front@.len(),
            k <= i <= n,
            chars@ == name@,
            front@ == prefix@,
            forall|j: int| k <= j < i ==> number::is_digit(#[trigger] chars@[j]),
        decreases n - i,
    {
        if !number::is_decimal_digit(chars[i]) {
            assert(name@.skip(prefix@.len() as int)[i - k] == chars@[i as int]);
            return false;
        }
        i += 1;
    }
    true
}

/// Whether the name in the device directory is that of an NVIDIA GPU.
pub fn is_nvidia_gpu_device_name(name: &str) -> (r: bool)
    ensures
        r == numbered(name@, "nvidia"@),
{
    is_numbered(name, "nvidia")
}

/// Whether the name in the directory of DRM devices is that of a render node.
pub fn is_dri_render_device_name(name: &str) -> (r: bool)
    ensures
        r == numbered(name@, "renderD"@),
{
    is_numbered(name, "renderD")
}

/// Whether one of the names is numbered behind the prefix.
pub open spec fn any_numbered(names: Seq<Seq<char>>, prefix: Seq<char>) -> bool {
    exists|i: int| 0 <= i < names.len() && numbered(#[trigger] names[i], prefix)
}

// ── Presence ─────────────────────────────────────────────────────────────────

impl HwFindings {
    /// Whether an Intel GPU is present; taken for granted elsewhere than on Linux.
    pub open spec fn intel(self, platform: Platform) -> bool {
        platform == Platform::Linux ==> (self.i915_entries matches Some(n) && n > 0) || (
        self.xe_entries matches Some(n) && n > 0)
    }

    /// Whether an AMD GPU is present.
    pub open spec fn amd(self) -> bool {
        self.amdgpu_entries matches Some(n) && n > 0
    }

    /// Whether the process can reach an NVIDIA GPU.
    pub open spec fn nvidia(self) -> bool {
        self.nvidia_control && any_numbered(text::texts(self.device_names@), "nvidia"@)
    }

    /// Whether the process can reach a DRM render node.
    pub open spec fn render_node(self) -> bool {
        any_numbered(text::texts(self.dri_names@), "renderD"@)
    }

    /// Whether CUDA passes.
    pub open spec fn passes_cuda(self, platform: Platform) -> bool {
        platform == Platform::Linux ==> self.nvidia()
    }

    /// Whether VAAPI passes: on Linux it takes a render node and a driver.
    pub open spec fn passes_vaapi(self, platform: Platform) -> bool {
        platform == Platform::Linux ==> self.render_node() && (self.intel(platform) || self.amd()
            || self.nvidia_vaapi_driver)
    }

    /// Whether Quick Sync passes: it takes an Intel GPU and, on Linux, a render node.
    pub open spec fn passes_qsv(self, platform: Platform) -> bool {
        self.intel(platform) && (platform == Platform::Linux ==> self.render_node())
    }

    /// Whether AMF passes: on Linux it takes an AMD GPU and a render node.
    pub open spec fn passes_amf(self, platform: Platform) -> bool {
        platform == Platform::Linux ==> self.amd() && self.render_node()
    }

    /// Whether RKMPP passes: on Linux it takes a Rockchip processor.
    pub open spec fn passes_rkmpp(self, platform: Platform) -> bool {
        platform == Platform::Linux ==> self.rockchip_device
    }

    /// Whether VideoToolbox passes: on macOS only.
    pub open spec fn passes_videotoolbox(self, platform: Platform) -> bool {
        platform == Platform::MacOs
    }
}

fn any_entry(entries: Option<usize>) -> (r: bool)
    ensures
        r == (entries matches Some(n) && n > 0),
{
    match entries {
        Some(n) => n > 0,
        None => false,
    }
}

fn has_numbered(names: &[String], prefix: &str) -> (r: bool)
    ensures
        r == any_numbered(text::texts(names@), prefix@),
{
    let n: usize = names.len();
    let mut i: usize = 0;
    while i < n
        invariant
            n == names@.len(),
            i <= n,
            forall|j: int| 0 <= j < i ==> !numbered(#[trigger] text::texts(names@)[j], prefix@),
        decreases n - i,
    {
        assert(text::texts(names@)[i as int] == names@[i as int]@);
        if is_numbered(names[i].as_str(), prefix) {
            return true;
        }
        i += 1;
    }
    false
}

/// Whether an Intel GPU, integrated or not, is present.
pub fn intel_gpu_present(found: &HwFindings, platform: Platform) -> (r: bool)
    ensures
        r == found.intel(platform),
{
    platform != Platform::Linux || any_entry(found.i915_entries) || any_entry(found.xe_entries)
}

/// Whether an AMD GPU is present.
pub fn amd_gpu_present(found: &HwFindings) -> (r: bool)
    ensures
        r == found.amd(),
{
    any_entry(found.amdgpu_entries)
}

/// Whether the process can reach the control device of the NVIDIA driver and a GPU.
pub fn nvidia_gpu_present(found: &HwFindings) -> (r: bool)
    ensures
        r == found.nvidia(),
{
    found.nvidia_control && has_numbered(&found.device_names, "nvidia")
}

/// Whether the process can reach a DRM render node.
pub fn dri_render_device_present(found: &HwFindings) -> (r: bool)
    ensures
        r == found.render_node(),
{
    has_numbered(&found.dri_names, "renderD")
}

// ── Gates ────────────────────────────────────────────────────────────────────

/// Whether `after` is `before` without the support for hardware that was not found.
pub open spec fn gated(
    before: HwCapabilities,
    found: HwFindings,
    platform: Platform,
    after: HwCapabilities,
) -> bool {
    let cuda = found.passes_cuda(platform);
    let vaapi = found.passes_vaapi(platform);
    let qsv = found.passes_qsv(platform);
    let amf = found.passes_amf(platform);
    let rkmpp = found.passes_rkmpp(platform);
    let vt = found.passes_videotoolbox(platform);
    &&& after.has_nvenc == (before.has_nvenc && cuda)
    &&& after.has_nvenc_hevc == (before.has_nvenc_hevc && cuda)
    &&& after.has_cuvid == (before.has_cuvid && cuda)
    &&& after.has_cuda_full == (before.has_cuda_full && cuda)
    &&& after.has_bwdif_cuda == (before.has_bwdif_cuda && cuda)
    &&& text::texts(after.cuvid_hw_codecs@) == if cuda {
        text::texts(before.cuvid_hw_codecs@)
    } else {
        Seq::empty()
    }
    &&& after.has_vaapi == (before.has_vaapi && vaapi)
    &&& after.has_vaapi_full == (before.has_vaapi_full && vaapi)
    &&& after.has_vaapi_hevc == (before.has_vaapi_hevc && vaapi)
    &&& after.has_qsv == (before.has_qsv && qsv)
    &&& after.has_qsv_full == (before.has_qsv_full && qsv)
    &&& after.has_qsv_hevc == (before.has_qsv_hevc && qsv)
    &&& after.has_amf == (before.has_amf && amf)
    &&& after.has_amf_hevc == (before.has_amf_hevc && amf)
    &&& after.has_rkmpp == (before.has_rkmpp && rkmpp)
    &&& after.has_rkmpp_hevc == (before.has_rkmpp_hevc && rkmpp)
    &&& after.has_videotoolbox == (before.has_videotoolbox && vt)
    &&& after.has_videotoolbox_full == (before.has_videotoolbox_full && vt)
    &&& after.has_videotoolbox_hevc == (before.has_videotoolbox_hevc && vt)
    &&& after.has_videotoolbox_tonemap == (before.has_videotoolbox_tonemap && vt)
    &&& after.has_tonemap == before.has_tonemap
    &&& after.has_tonemapx == before.has_tonemapx
    &&& after.has_zscale == before.has_zscale
    &&& after.has_bwdif == before.has_bwdif
    &&& after.has_libx265 == before.has_libx265
}

/// Takes out of the capabilities the support for hardware that was not found: what the
/// transcoder was built with says nothing of the machine.
pub fn apply_hw_presence_gates(caps: &mut HwCapabilities, found: &HwFindings, platform: Platform)
    ensures
        gated(*old(caps), *found, platform, *final(caps)),
{
    let linux = platform == Platform::Linux;
    let has_intel = intel_gpu_present(found, platform);
    let has_amd = amd_gpu_present(found);
    let has_render_node = dri_render_device_present(found);
    if linux && !nvidia_gpu_present(found) {
        caps.has_nvenc = false;
        caps.has_nvenc_hevc = false;
        caps.has_cuvid = false;
        caps.has_cuda_full = false;
        caps.has_bwdif_cuda = false;
        caps.cuvid_hw_codecs = Vec::new();
    }
    if linux && (!has_render_node || (!has_intel && !has_amd && !found.nvidia_vaapi_driver)) {
        caps.has_vaapi = false;
        caps.has_vaapi_full = false;
        caps.has_vaapi_hevc = false;
    }
    if !has_intel || (linux && !has_render_node) {
        caps.has_qsv = false;
        caps.has_qsv_full = false;
        caps.has_qsv_hevc = false;
    }
    if linux && (!has_amd || !has_render_node) {
        caps.has_amf = false;
        caps.has_amf_hevc = false;
    }
    if linux && !found.rockchip_device {
        caps.has_rkmpp = false;
        caps.has_rkmpp_hevc = false;
    }
    if platform != Platform::MacOs {
        caps.has_videotoolbox = false;
        caps.has_videotoolbox_full = false;
        caps.has_videotoolbox_hevc = false;
        caps.has_videotoolbox_tonemap = false;
    }
    proof {
        if !(linux && !found.nvidia()) {
            assert(caps.cuvid_hw_codecs == old(caps).cuvid_hw_codecs);
        } else {
            assert(text::texts(caps.cuvid_hw_codecs@) =~= Seq::empty());
        }
    }
}

/// Whether the GPU has to be asked which codecs it decodes.
pub fn wants_cuvid_probe(caps: &HwCapabilities) -> (r: bool)
    ensures
        r == (caps.has_cuvid && caps.has_cuda_full),
{
    caps.has_cuvid && caps.has_cuda_full
}

/// The capabilities of the machine: those that the transcoder was built with, gated by what
/// was found, with the codecs that the GPU decodes where it has to be asked for them.
/// `probed` is what the GPU answers; it counts for nothing where it is not asked.
pub fn get_hw_capabilities(
    built: HwCapabilities,
    found: &HwFindings,
    platform: Platform,
    probed: Vec<String>,
) -> (r: HwCapabilities)
    ensures
        ({
            let asked = built.has_cuvid && built.has_cuda_full && found.passes_cuda(platform);
            if asked {
                gated((HwCapabilities { cuvid_hw_codecs: probed, ..built }), *found, platform, r)
            } else {
                gated(built, *found, platform, r)
            }
        }),
{
    let mut caps = built;
    apply_hw_presence_gates(&mut caps, found, platform);
    if wants_cuvid_probe(&caps) {
        caps.cuvid_hw_codecs = probed;
    }
    caps
}

// ── Laws ─────────────────────────────────────────────────────────────────────

/// The gates only take away: nothing is supported afterwards that was not before.
pub proof fn gates_only_take_away(
    before: HwCapabilities,
    found: HwFindings,
    platform: Platform,
    after: HwCapabilities,
)
    requires
        gated(before, found, platform, after),
    ensures
        after.has_nvenc ==> before.has_nvenc,
        after.has_nvenc_hevc ==> before.has_nvenc_hevc,
        after.has_cuvid ==> before.has_cuvid,
        after.has_cuda_full ==> before.has_cuda_full,
        after.has_bwdif_cuda ==> before.has_bwdif_cuda,
        after.has_vaapi ==> before.has_vaapi,
        after.has_vaapi_full ==> before.has_vaapi_full,
        after.has_vaapi_hevc ==> before.has_vaapi_hevc,
        after.has_qsv ==> before.has_qsv,
        after.has_qsv_full ==> before.has_qsv_full,
        after.has_qsv_hevc ==> before.has_qsv_hevc,
        after.has_amf ==> before.has_amf,
        after.has_amf_hevc ==> before.has_amf_hevc,
        after.has_rkmpp ==> before.has_rkmpp,
        after.has_rkmpp_hevc ==> before.has_rkmpp_hevc,
        after.has_videotoolbox ==> before.has_videotoolbox,
        after.has_videotoolbox_full ==> before.has_videotoolbox_full,
        after.has_videotoolbox_hevc ==> before.has_videotoolbox_hevc,
        after.has_videotoolbox_tonemap ==> before.has_videotoolbox_tonemap,
{
}

/// Gating twice is gating once.
pub proof fn gates_are_idempotent(
    before: HwCapabilities,
    found: HwFindings,
    platform: Platform,
    after: HwCapabilities,
)
    requires
        gated(before, found, platform, after),
    ensures
        gated(after, found, platform, after),
{
}

/// On Linux without any hardware, every hardware backend is off.
pub proof fn nothing_passes_without_hardware(
    before: HwCapabilities,
    found: HwFindings,
    after: HwCapabilities,
)
    requires
        gated(before, found, Platform::Linux, after),
        !found.nvidia(),
        !found.render_node(),
        !found.rockchip_device,
    ensures
        !after.has_nvenc && !after.has_videotoolbox && !after.has_vaapi && !after.has_qsv
            && !after.has_amf && !after.has_rkmpp,
{
}

// ── The transcoder's program ─────────────────────────────────────────────────

/// What a look at the value of an environment variable has found.
#[derive(Debug, Clone, Copy, PartialEq, Eq, Structural)]
pub enum EnvFinding {
    /// The variable is absent, not a text, or names nothing.
    Nothing,
    /// It names a file.
    File,
    /// It names a directory; the fields say whether `ffmpeg` and `bin/ffmpeg` below it are
    /// files.
    Directory { ffmpeg: bool, bin_ffmpeg: bool },
}

/// Where the program is.
#[derive(Debug, Clone, Copy, PartialEq, Eq, Structural)]
pub enum FfmpegChoice {
    /// What the n-th variable names.
    Named { variable: usize },
    /// `ffmpeg` below the directory that the n-th variable names.
    Below { variable: usize },
    /// `bin/ffmpeg` below the directory that the n-th variable names.
    BelowBin { variable: usize },
    /// The workspace copy below the n-th directory on the way up from the working directory.
    Workspace { ancestor: usize },
    /// Left to the search path.
    System,
}

/// What a variable contributes.
pub open spec fn env_choice(finding: EnvFinding, i: usize) -> Option<FfmpegChoice> {
    match finding {
        EnvFinding::Nothing => None,
        EnvFinding::File => Some(FfmpegChoice::Named { variable: i }),
        EnvFinding::Directory { ffmpeg, bin_ffmpeg } => if ffmpeg {
            Some(FfmpegChoice::Below { variable: i })
        } else if bin_ffmpeg {
            Some(FfmpegChoice::BelowBin { variable: i })
        } else {
            None
        },
    }
}

/// Whether `r` is the first that the variables contribute; else the first workspace copy;
/// else the search path.
pub open spec fn ffmpeg_choice(
    variables: Seq<EnvFinding>,
    ancestors: Seq<bool>,
    r: FfmpegChoice,
) -> bool {
    let none_set = forall|i: int|
        0 <= i < variables.len() ==> env_choice(#[trigger] variables[i], i as usize) is None;
    ||| exists|i: int|
        {
            &&& 0 <= i < variables.len()
            &&& env_choice(#[trigger] variables[i], i as usize) == Some(r)
            &&& forall|j: int|
                0 <= j < i ==> env_choice(#[trigger] variables[j], j as usize) is None
        }
    ||| none_set && exists|i: int|
        {
            &&& 0 <= i < ancestors.len()
            &&& #[trigger] ancestors[i]
            &&& r == FfmpegChoice::Workspace { ancestor: i as usize }
            &&& forall|j: int| 0 <= j < i ==> !#[trigger] ancestors[j]
        }
    ||| none_set && r == FfmpegChoice::System && forall|i: int|
        0 <= i < ancestors.len() ==> !#[trigger] ancestors[i]
}

/// Where the program is: in what the environment variables name, in the order in which they
/// are given; else in the workspace copy nearest to the working directory; else wherever the
/// search path leads. `ancestors` tells for the working directory and each directory above it
/// whether it holds a workspace copy.
pub fn resolve_ffmpeg_binary(variables: &[EnvFinding], ancestors: &[bool]) -> (r: FfmpegChoice)
    ensures
        ffmpeg_choice(variables@, ancestors@, r),
{
    let n: usize = variables.len();
    let mut i: usize = 0;
    while i < n
        invariant
            n == variables@.len(),
            i <= n,
            forall|j: int|
                0 <= j < i ==> env_choice(#[trigger] variables@[j], j as usize) is None,
        decreases n - i,
    {
        match variables[i] {
            EnvFinding::Nothing => {},
            EnvFinding::File => {
                let r = FfmpegChoice::Named { variable: i };
                assert(env_choice(variables@[i as int], i) == Some(r));
                return r;
            },
            EnvFinding::Directory { ffmpeg, bin_ffmpeg } => {
                if ffmpeg {
                    let r = FfmpegChoice::Below { variable: i };
                    assert(env_choice(variables@[i as int], i) == Some(r));
                    return r;
                }
                if bin_ffmpeg {
                    let r = FfmpegChoice::BelowBin { variable: i };
                    assert(env_choice(variables@[i as int], i) == Some(r));
                    return r;
                }
            },
        }
        i += 1;
    }
    let k: usize = ancestors.len();
    let mut a: usize = 0;
    while a < k
        invariant
            k == ancestors@.len(),
            a <= k,
            n == variables@.len(),
            forall|j: int|
                0 <= j < n ==> env_choice(#[trigger] variables@[j], j as usize) is None,
            forall|j: int| 0 <= j < a ==> !#[trigger] ancestors@[j],
        decreases k - a,
    {
        if ancestors[a] {
            return FfmpegChoice::Workspace { ancestor: a };
        }
        a += 1;
    }
    FfmpegChoice::System
}

/// A device with a number has the prefix as its name, and behind it one decimal digit or more
/// and nothing else.
pub proof fn numbered_devices_end_in_digits(name: Seq<char>, prefix: Seq<char>)
    ensures
        numbered(name, prefix) <==> exists|digits: Seq<char>|
            {
                &&& name == #[trigger] (prefix + digits)
                &&& digits.len() > 0
                &&& forall|i: int| 0 <= i < digits.len() ==> '0' <= #[trigger] digits[i] <= '9'
            },
{
    if numbered(name, prefix) {
        let digits = name.skip(prefix.len() as int);
        assert(name =~= prefix + digits);
        assert forall|i: int| 0 <= i < digits.len() implies '0' <= #[trigger] digits[i] <= '9' by {
            assert(number::is_digit(digits[i]));
            lemma_digit(digits[i]);
        }
    }
    if exists|digits: Seq<char>|
        {
            &&& name == #[trigger] (prefix + digits)
            &&& digits.len() > 0
            &&& forall|i: int| 0 <= i < digits.len() ==> '0' <= #[trigger] digits[i] <= '9'
        } {
        let digits = choose|digits: Seq<char>|
            {
                &&& name == #[trigger] (prefix + digits)
                &&& digits.len() > 0
                &&& forall|i: int| 0 <= i < digits.len() ==> '0' <= #[trigger] digits[i] <= '9'
            };
        assert(name.take(prefix.len() as int) =~= prefix);
        assert(name.skip(prefix.len() as int) =~= digits);
        assert forall|i: int| 0 <= i < digits.len() implies number::is_digit(
            #[trigger] digits[i],
        ) by {
            lemma_digit(digits[i]);
        }
    }
}

proof fn lemma_digit(c: char)
    ensures
        number::is_digit(c) <==> '0' <= c <= '9',
{
}

/// On Linux, each kind of hardware is left where the machine has it: CUDA where the control
/// device and a GPU can be reached; VAAPI where a render node can be reached and there is an
/// Intel or AMD GPU or the driver for NVIDIA; Quick Sync with an Intel GPU and a render node;
/// AMF with an AMD GPU and a render node; RKMPP with a Rockchip processor. VideoToolbox is left
/// on macOS alone.
pub proof fn hardware_is_left_where_the_machine_has_it(
    before: HwCapabilities,
    found: HwFindings,
    platform: Platform,
    after: HwCapabilities,
)
    requires
        gated(before, found, platform, after),
    ensures
        ({
            let linux = platform == Platform::Linux;
            let i915 = found.i915_entries is Some && found.i915_entries->0 > 0;
            let xe = found.xe_entries is Some && found.xe_entries->0 > 0;
            let amdgpu = found.amdgpu_entries is Some && found.amdgpu_entries->0 > 0;
            let gpu = exists|i: int|
                0 <= i < found.device_names@.len() && numbered(
                    (#[trigger] found.device_names@[i])@,
                    "nvidia"@,
                );
            let node = exists|i: int|
                0 <= i < found.dri_names@.len() && numbered(
                    (#[trigger] found.dri_names@[i])@,
                    "renderD"@,
                );
            let cuda = !linux || (found.nvidia_control && gpu);
            let vaapi = !linux || (node && (i915 || xe || amdgpu || found.nvidia_vaapi_driver));
            let qsv = !linux || (node && (i915 || xe));
            let amf = !linux || (node && amdgpu);
            let rkmpp = !linux || found.rockchip_device;
            let vt = platform == Platform::MacOs;
            &&& after.has_nvenc <==> before.has_nvenc && cuda
            &&& after.has_nvenc_hevc <==> before.has_nvenc_hevc && cuda
            &&& after.has_cuvid <==> before.has_cuvid && cuda
            &&& after.has_cuda_full <==> before.has_cuda_full && cuda
            &&& after.has_bwdif_cuda <==> before.has_bwdif_cuda && cuda
            &&& !cuda ==> after.cuvid_hw_codecs@.len() == 0
            &&& cuda ==> after.cuvid_hw_codecs@.len() == before.cuvid_hw_codecs@.len()
            &&& after.has_vaapi <==> before.has_vaapi && vaapi
            &&& after.has_vaapi_full <==> before.has_vaapi_full && vaapi
            &&& after.has_vaapi_hevc <==> before.has_vaapi_hevc && vaapi
            &&& after.has_qsv <==> before.has_qsv && qsv
            &&& after.has_qsv_full <==> before.has_qsv_full && qsv
            &&& after.has_qsv_hevc <==> before.has_qsv_hevc && qsv
            &&& after.has_amf <==> before.has_amf && amf
            &&& after.has_amf_hevc <==> before.has_amf_hevc && amf
            &&& after.has_rkmpp <==> before.has_rkmpp && rkmpp
            &&& after.has_rkmpp_hevc <==> before.has_rkmpp_hevc && rkmpp
            &&& after.has_videotoolbox <==> before.has_videotoolbox && vt
            &&& after.has_videotoolbox_full <==> before.has_videotoolbox_full && vt
            &&& after.has_videotoolbox_hevc <==> before.has_videotoolbox_hevc && vt
            &&& after.has_videotoolbox_tonemap <==> before.has_videotoolbox_tonemap && vt
            &&& after.has_tonemap == before.has_tonemap && after.has_tonemapx == before.has_tonemapx
            &&& after.has_zscale == before.has_zscale && after.has_bwdif == before.has_bwdif
            &&& after.has_libx265 == before.has_libx265
        }),
{
    lemma_any_numbered(found.device_names@, "nvidia"@);
    lemma_any_numbered(found.dri_names@, "renderD"@);
    assert(text::texts(after.cuvid_hw_codecs@).len() == after.cuvid_hw_codecs@.len());
    assert(text::texts(before.cuvid_hw_codecs@).len() == before.cuvid_hw_codecs@.len());
}

proof fn lemma_any_numbered(names: Seq<String>, prefix: Seq<char>)
    ensures
        any_numbered(text::texts(names), prefix) <==> exists|i: int|
            0 <= i < names.len() && numbered((#[trigger] names[i])@, prefix),
{
    let l = text::texts(names);
    assert(forall|i: int| 0 <= i < names.len() ==> l[i] == (#[trigger] names[i])@);
    if any_numbered(l, prefix) {
        let i = choose|i: int| 0 <= i < l.len() && numbered(#[trigger] l[i], prefix);
        assert(numbered(names[i]@, prefix));
    }
    if exists|i: int| 0 <= i < names.len() && numbered((#[trigger] names[i])@, prefix) {
        let i = choose|i: int| 0 <= i < names.len() && numbered((#[trigger] names[i])@, prefix);
        assert(numbered(l[i], prefix));
    }
}

/// The program is the file that the first variable names which names one, or below the
/// directory that it names, where `ffmpeg` counts before `bin/ffmpeg`; where no variable leads
/// to one, the workspace copy nearest to the working directory; and where there is none, what
/// the search path leads to.
pub proof fn the_program_is_what_comes_first(
    variables: Seq<EnvFinding>,
    ancestors: Seq<bool>,
    r: FfmpegChoice,
    k: usize,
)
    requires
        ffmpeg_choice(variables, ancestors, r),
        variables.len() <= usize::MAX,
        ancestors.len() <= usize::MAX,
    ensures
        ({
            let useless = |e: EnvFinding|
                e == EnvFinding::Nothing || e == (EnvFinding::Directory {
                    ffmpeg: false,
                    bin_ffmpeg: false,
                });
            &&& k < variables.len() && (forall|j: int|
                0 <= j < k ==> useless(#[trigger] variables[j])) ==> match variables[k as int] {
                EnvFinding::File => r == (FfmpegChoice::Named { variable: k }),
                EnvFinding::Directory { ffmpeg, bin_ffmpeg } => {
                    &&& ffmpeg ==> r == (FfmpegChoice::Below { variable: k })
                    &&& !ffmpeg && bin_ffmpeg ==> r == (FfmpegChoice::BelowBin { variable: k })
                },
                EnvFinding::Nothing => true,
            }
            &&& (forall|j: int| 0 <= j < variables.len() ==> useless(#[trigger] variables[j])) ==> {
                &&& k < ancestors.len() && ancestors[k as int] && (forall|j: int|
                    0 <= j < k ==> !#[trigger] ancestors[j]) ==> r == (FfmpegChoice::Workspace {
                    ancestor: k,
                })
                &&& (forall|j: int| 0 <= j < ancestors.len() ==> !#[trigger] ancestors[j]) ==> r
                    == FfmpegChoice::System
            }
        }),
{
    assert forall|j: int| 0 <= j < variables.len() implies (env_choice(
        #[trigger] variables[j],
        j as usize,
    ) is None <==> variables[j] == EnvFinding::Nothing || variables[j] == (EnvFinding::Directory {
        ffmpeg: false,
        bin_ffmpeg: false,
    })) by {}
}

}
