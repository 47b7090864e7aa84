//! VAAPI.
use super::software::build_sw_tonemap;
use super::{bt2020_marks_text, build_hardware, chain_text, param_text, peak_first_text};
use super::{sw_deinterlace_text, PipelineConfig, PipelineParams};
use crate::text;
use vstd::prelude::*;
use vstd::string::*;

verus! {

broadcast use vstd::string::group_string_axioms;

/// Whether the hardware decodes the source, and frames stay on it for the filters.
pub open spec fn in_hardware(p: PipelineParams<'_>) -> bool {
    p.decoders.vaapi && p.caps.has_vaapi && p.caps.has_vaapi_full
}

/// The chain of filters.
pub open spec fn vaapi_filter(p: PipelineParams<'_>) -> Seq<char> {
    let full = p.caps.has_vaapi_full;
    super::filter_chain(
        p.deinterlace,
        if full {
            "deinterlace_vaapi"@
        } else {
            super::sw_deinterlace(*p.caps)
        },
        match p.tonemap {
            Some(tm) => if full {
                super::bt2020_marks() + ","@ + super::peak_first(
                    "tonemap_vaapi=format=nv12:p=bt709:t=bt709:m=bt709:tonemap="@,
                    *tm,
                ) + super::param_suffix(*tm)
            } else {
                super::software::sw_tonemap(*tm, *p.caps, in_hardware(p))
            },
            None => if full {
                "scale_vaapi=format=nv12"@
            } else {
                "format=yuv420p"@
            },
        },
    )
}

/// What VAAPI is given. Where the source is decoded in software, frames are uploaded for the
/// filters.
pub open spec fn vaapi_config(p: PipelineParams<'_>) -> super::ConfigView {
    super::hardware_config(
        p,
        p.caps.has_vaapi_hevc,
        "hevc_vaapi"@,
        "h264_vaapi"@,
        ""@,
        if in_hardware(p) {
            Some("vaapi"@)
        } else {
            None
        },
        if p.caps.has_vaapi_full {
            Some("vaapi"@)
        } else {
            None
        },
        vaapi_filter(p),
        false,
    )
}

/// Builds what VAAPI is given.
pub fn build_vaapi(p: &PipelineParams<'_>) -> (r: PipelineConfig)
    requires
        p.out_bitrate_kbps * 2 <= u64::MAX,
    ensures
        r@ == vaapi_config(*p),
{
    let use_hw_decode = p.decoders.vaapi && p.caps.has_vaapi && p.caps.has_vaapi_full;
    let filter = build_vaapi_filter(p, use_hw_decode);
    let decode: Option<&str> = if use_hw_decode {
        Some("vaapi")
    } else {
        None
    };
    let filter_backend: Option<&str> = if p.caps.has_vaapi_full {
        Some("vaapi")
    } else {
        None
    };
    build_hardware(
        p,
        p.caps.has_vaapi_hevc,
        "hevc_vaapi",
        "h264_vaapi",
        "",
        decode,
        filter_backend,
        filter,
        false,
    )
}

fn build_vaapi_filter(p: &PipelineParams<'_>, use_hw_decode: bool) -> (r: String)
    requires
        use_hw_decode == in_hardware(*p),
    ensures
        r@ == vaapi_filter(*p),
{
    let use_hw_filter = p.caps.has_vaapi_full;
    let deint = if use_hw_filter {
        "deinterlace_vaapi"
    } else {
        sw_deinterlace_text(p.caps)
    };
    let base = match p.tonemap {
        Some(tm) => {
            if use_hw_filter {
                let args = peak_first_text(
                    "tonemap_vaapi=format=nv12:p=bt709:t=bt709:m=bt709:tonemap=",
                    tm,
                );
                let mut r = text::join3(bt2020_marks_text(), ",", args.as_str());
                let param = param_text(tm);
                r.append(param.as_str());
                r
            } else {
                build_sw_tonemap(tm, p.caps, use_hw_decode)
            }
        },
        None => {
            if use_hw_filter {
                text::copy_text("scale_vaapi=format=nv12")
            } else {
                text::copy_text("format=yuv420p")
            }
        },
    };
    chain_text(p.deinterlace, deint, base)
}

}
