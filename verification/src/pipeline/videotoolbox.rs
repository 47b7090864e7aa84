//! Apple VideoToolbox.
use super::software::build_sw_tonemap;
use super::{build_hardware, chain_text, param_text, peak_first_text, sw_deinterlace_text};
use super::{PipelineConfig, PipelineParams};
use crate::text;
use vstd::prelude::*;
use vstd::string::*;

verus! {

broadcast use vstd::string::group_string_axioms;

/// Whether frames are decoded and filtered in hardware.
pub open spec fn in_hardware(p: PipelineParams<'_>) -> bool {
    p.decoders.videotoolbox && p.caps.has_videotoolbox && p.caps.has_videotoolbox_full
}

/// The chain of filters.
pub open spec fn videotoolbox_filter(p: PipelineParams<'_>) -> Seq<char> {
    super::filter_chain(
        p.deinterlace,
        if in_hardware(p) {
            "yadif_videotoolbox=0:-1:0"@
        } else {
            super::sw_deinterlace(*p.caps)
        },
        match p.tonemap {
            Some(tm) => if in_hardware(p) && p.caps.has_videotoolbox_tonemap {
                super::peak_first(
                    "scale_vt=tonemap=1:format=yuv420p:p=bt709:t=bt709:m=bt709:tonemap="@,
                    *tm,
                ) + super::param_suffix(*tm)
            } else {
                super::software::sw_tonemap(*tm, *p.caps, in_hardware(p))
            },
            None => if in_hardware(p) {
                "scale_vt=format=yuv420p"@
            } else {
                "format=yuv420p"@
            },
        },
    )
}

/// What VideoToolbox is given.
pub open spec fn videotoolbox_config(p: PipelineParams<'_>) -> super::ConfigView {
    let device = if in_hardware(p) {
        Some("videotoolbox"@)
    } else {
        None
    };
    super::hardware_config(
        p,
        p.caps.has_videotoolbox_hevc,
        "hevc_videotoolbox"@,
        "h264_videotoolbox"@,
        ""@,
        device,
        device,
        videotoolbox_filter(p),
        false,
    )
}

/// Builds what VideoToolbox is given.
pub fn build_videotoolbox(p: &PipelineParams<'_>) -> (r: PipelineConfig)
    requires
        p.out_bitrate_kbps * 2 <= u64::MAX,
    ensures
        r@ == videotoolbox_config(*p),
{
    let use_hw_decode = p.decoders.videotoolbox && p.caps.has_videotoolbox;
    let filter = build_videotoolbox_filter(p, use_hw_decode);
    let device: Option<&str> = if use_hw_decode && p.caps.has_videotoolbox_full {
        Some("videotoolbox")
    } else {
        None
    };
    build_hardware(
        p,
        p.caps.has_videotoolbox_hevc,
        "hevc_videotoolbox",
        "h264_videotoolbox",
        "",
        device,
        device,
        filter,
        false,
    )
}

fn build_videotoolbox_filter(p: &PipelineParams<'_>, use_hw_decode: bool) -> (r: String)
    requires
        use_hw_decode == (p.decoders.videotoolbox && p.caps.has_videotoolbox),
    ensures
        r@ == videotoolbox_filter(*p),
{
    let use_hw_filter = use_hw_decode && p.caps.has_videotoolbox_full;
    let deint = if use_hw_filter {
        "yadif_videotoolbox=0:-1:0"
    } else {
        sw_deinterlace_text(p.caps)
    };
    let base = match p.tonemap {
        Some(tm) => {
            if use_hw_filter && p.caps.has_videotoolbox_tonemap {
                let args = peak_first_text(
                    "scale_vt=tonemap=1:format=yuv420p:p=bt709:t=bt709:m=bt709:tonemap=",
                    tm,
                );
                let param = param_text(tm);
                text::join2(args.as_str(), param.as_str())
            } else {
                build_sw_tonemap(tm, p.caps, use_hw_filter)
            }
        },
        None => {
            if use_hw_filter {
                text::copy_text("scale_vt=format=yuv420p")
            } else {
                text::copy_text("format=yuv420p")
            }
        },
    };
    chain_text(p.deinterlace, deint, base)
}

}
