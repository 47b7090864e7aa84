//! Rockchip RKMPP: frames are decoded and encoded in hardware and filtered in software.
use super::{build_hardware, sw_filter_text, PipelineConfig, PipelineParams};
use crate::text;
use vstd::prelude::*;
use vstd::string::*;

verus! {

broadcast use vstd::string::group_string_axioms;

/// What RKMPP is given.
pub open spec fn rkmpp_config(p: PipelineParams<'_>) -> super::ConfigView {
    super::hardware_config(
        p,
        p.caps.has_rkmpp_hevc,
        "hevc_rkmpp"@,
        "h264_rkmpp"@,
        ""@,
        Some("rkmpp"@),
        None,
        super::sw_filter(p),
        false,
    )
}

/// Builds what RKMPP is given.
pub fn build_rkmpp(p: &PipelineParams<'_>) -> (r: PipelineConfig)
    requires
        p.out_bitrate_kbps * 2 <= u64::MAX,
    ensures
        r@ == rkmpp_config(*p),
{
    let filter = sw_filter_text(p);
    build_hardware(
        p,
        p.caps.has_rkmpp_hevc,
        "hevc_rkmpp",
        "h264_rkmpp",
        "",
        Some("rkmpp"),
        None,
        filter,
        false,
    )
}

}
