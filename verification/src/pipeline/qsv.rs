//! Intel Quick Sync.
use super::software::build_sw_tonemap;
use super::{build_hardware, chain_text, sw_deinterlace_text, PipelineConfig, PipelineParams};
use crate::text;
use vstd::prelude::*;
use vstd::string::*;

verus! {

broadcast use vstd::string::group_string_axioms;

/// Whether the hardware decodes the source, and frames stay on it for the filters.
pub open spec fn in_hardware(p: PipelineParams<'_>) -> bool {
    p.decoders.qsv && p.caps.has_qsv && p.caps.has_qsv_full
}

/// The chain of filters.
pub open spec fn qsv_filter(p: PipelineParams<'_>) -> Seq<char> {
    let full = p.caps.has_qsv_full;
    super::filter_chain(
        p.deinterlace,
        if full {
            "yadif_qsv=0:-1:0"@
        } else {
            super::sw_deinterlace(*p.caps)
        },
        match p.tonemap {
            Some(tm) => if full {
                "vpp_qsv=tonemap=1:format=nv12:async_depth=2"@
            } else {
                super::software::sw_tonemap(*tm, *p.caps, in_hardware(p))
            },
            None => if full {
                "scale_qsv=format=nv12"@
            } else {
                "format=yuv420p"@
            },
        },
    )
}

/// What Quick Sync is given.
pub open spec fn qsv_config(p: PipelineParams<'_>) -> super::ConfigView {
    super::hardware_config(
        p,
        p.caps.has_qsv_hevc,
        "hevc_qsv"@,
        "h264_qsv"@,
        "veryfast"@,
        if in_hardware(p) {
            Some("qsv"@)
        } else {
            None
        },
        if p.caps.has_qsv_full {
            Some("qsv"@)
        } else {
            None
        },
        qsv_filter(p),
        false,
    )
}

/// Builds what Quick Sync is given.
pub fn build_qsv(p: &PipelineParams<'_>) -> (r: PipelineConfig)
    requires
        p.out_bitrate_kbps * 2 <= u64::MAX,
    ensures
        r@ == qsv_config(*p),
{
    let use_hw_decode = p.decoders.qsv && p.caps.has_qsv && p.caps.has_qsv_full;
    let filter = build_qsv_filter(p, use_hw_decode);
    let decode: Option<&str> = if use_hw_decode {
        Some("qsv")
    } else {
        None
    };
    let filter_backend: Option<&str> = if p.caps.has_qsv_full {
        Some("qsv")
    } else {
        None
    };
    build_hardware(
        p,
        p.caps.has_qsv_hevc,
        "hevc_qsv",
        "h264_qsv",
        "veryfast",
        decode,
        filter_backend,
        filter,
        false,
    )
}

fn build_qsv_filter(p: &PipelineParams<'_>, use_hw_decode: bool) -> (r: String)
    requires
        use_hw_decode == in_hardware(*p),
    ensures
        r@ == qsv_filter(*p),
{
    let use_hw_filter = p.caps.has_qsv_full;
    let deint = if use_hw_filter {
        "yadif_qsv=0:-1:0"
    } else {
        sw_deinterlace_text(p.caps)
    };
    let base = match p.tonemap {
        Some(tm) => {
            if use_hw_filter {
                text::copy_text("vpp_qsv=tonemap=1:format=nv12:async_depth=2")
            } else {
                build_sw_tonemap(tm, p.caps, use_hw_decode)
            }
        },
        None => {
            if use_hw_filter {
                text::copy_text("scale_qsv=format=nv12")
            } else {
                text::copy_text("format=yuv420p")
            }
        },
    };
    chain_text(p.deinterlace, deint, base)
}

}
