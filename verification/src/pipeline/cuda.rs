//! NVIDIA CUDA.
use super::software::build_sw_tonemap;
use super::{bt2020_marks_text, build_hardware, chain_text, param_text, peak_first_text, range_text};
use super::{sw_deinterlace_text, PipelineConfig, PipelineParams};
use crate::hw_detect::HwCapabilities;
use crate::text;
use crate::types::TonemapOptions;
use vstd::prelude::*;
use vstd::string::*;

verus! {

broadcast use vstd::string::group_string_axioms;

/// Whether a CUVID decoder is used.
pub open spec fn uses_cuvid(p: PipelineParams<'_>) -> bool {
    p.caps.has_cuda_full && p.decoders.cuvid
}

/// The mode as it is appended to the filter; nothing where it is auto or empty.
pub open spec fn mode_suffix(tm: TonemapOptions) -> Seq<char> {
    if tm.mode@ == "auto"@ || tm.mode@.len() == 0 {
        ""@
    } else {
        ":tonemap_mode="@ + tm.mode@
    }
}

fn mode_text(tm: &TonemapOptions) -> (r: String)
    ensures
        r@ == mode_suffix(*tm),
{
    let mode = tm.mode.as_str();
    if text::same_text(mode, "auto") || mode.is_empty() {
        text::copy_text("")
    } else {
        text::join2(":tonemap_mode=", mode)
    }
}

/// The filters that map tones: on the GPU where the frames are there and it can, else in
/// software.
pub open spec fn cuda_tonemap(tm: TonemapOptions, caps: HwCapabilities, use_cuvid: bool) -> Seq<
    char,
> {
    if caps.has_cuda_full && use_cuvid {
        super::bt2020_marks() + ","@ + super::peak_first(
            "tonemap_cuda=format=yuv420p:p=bt709:t=bt709:m=bt709:tonemap="@,
            tm,
        ) + mode_suffix(tm) + super::param_suffix(tm) + super::range_suffix(tm)
    } else {
        super::software::sw_tonemap(tm, caps, use_cuvid)
    }
}

/// Builds the filters that map tones.
pub fn build_cuda_tonemap(tm: &TonemapOptions, caps: &HwCapabilities, use_cuvid: bool) -> (r: String)
    ensures
        r@ == cuda_tonemap(*tm, *caps, use_cuvid),
{
    if caps.has_cuda_full && use_cuvid {
        let args = peak_first_text(
            "tonemap_cuda=format=yuv420p:p=bt709:t=bt709:m=bt709:tonemap=",
            tm,
        );
        let mut r = text::join3(bt2020_marks_text(), ",", args.as_str());
        let mode = mode_text(tm);
        r.append(mode.as_str());
        let param = param_text(tm);
        r.append(param.as_str());
        let range = range_text(tm);
        r.append(range.as_str());
        return r;
    }
    build_sw_tonemap(tm, caps, use_cuvid)
}

/// The chain of filters.
pub open spec fn cuda_filter(p: PipelineParams<'_>) -> Seq<char> {
    super::filter_chain(
        p.deinterlace,
        if uses_cuvid(p) {
            if p.caps.has_bwdif_cuda {
                "bwdif_cuda=0:-1:0"@
            } else {
                "yadif_cuda=0:-1:0"@
            }
        } else {
            super::sw_deinterlace(*p.caps)
        },
        match p.tonemap {
            Some(tm) => cuda_tonemap(*tm, *p.caps, uses_cuvid(p)),
            None => if uses_cuvid(p) {
                "scale_cuda=format=yuv420p"@
            } else {
                "format=yuv420p"@
            },
        },
    )
}

/// What CUDA is given.
pub open spec fn cuda_config(p: PipelineParams<'_>) -> super::ConfigView {
    let device = if uses_cuvid(p) {
        Some("cuda"@)
    } else {
        None
    };
    super::hardware_config(
        p,
        p.caps.has_nvenc_hevc,
        "hevc_nvenc"@,
        "h264_nvenc"@,
        "p1"@,
        device,
        device,
        cuda_filter(p),
        uses_cuvid(p),
    )
}

/// Builds what CUDA is given.
pub fn build_cuda(p: &PipelineParams<'_>) -> (r: PipelineConfig)
    requires
        p.out_bitrate_kbps * 2 <= u64::MAX,
    ensures
        r@ == cuda_config(*p),
{
    let use_cuvid = p.caps.has_cuda_full && p.decoders.cuvid;
    let filter = build_cuda_filter(p, use_cuvid);
    let device: Option<&str> = if use_cuvid {
        Some("cuda")
    } else {
        None
    };
    build_hardware(
        p,
        p.caps.has_nvenc_hevc,
        "hevc_nvenc",
        "h264_nvenc",
        "p1",
        device,
        device,
        filter,
        use_cuvid,
    )
}

fn build_cuda_filter(p: &PipelineParams<'_>, use_cuvid: bool) -> (r: String)
    requires
        use_cuvid == uses_cuvid(*p),
    ensures
        r@ == cuda_filter(*p),
{
    let deint = if use_cuvid && p.caps.has_cuda_full {
        if p.caps.has_bwdif_cuda {
            "bwdif_cuda=0:-1:0"
        } else {
            "yadif_cuda=0:-1:0"
        }
    } else {
        sw_deinterlace_text(p.caps)
    };
    let base = match p.tonemap {
        Some(tm) => build_cuda_tonemap(tm, p.caps, use_cuvid),
        None => {
            if use_cuvid {
                text::copy_text("scale_cuda=format=yuv420p")
            } else {
                text::copy_text("format=yuv420p")
            }
        },
    };
    chain_text(p.deinterlace, deint, base)
}

}
