//! AMD AMF: frames are filtered in software, and decoded in hardware on Windows only.
use super::{build_hardware, sw_filter_text, PipelineConfig, PipelineParams};
use crate::hw_detect::Platform;
use crate::text;
use vstd::prelude::*;
use vstd::string::*;

verus! {

broadcast use vstd::string::group_string_axioms;

/// What AMF is given.
pub open spec fn amf_config(p: PipelineParams<'_>) -> super::ConfigView {
    super::hardware_config(
        p,
        p.caps.has_amf_hevc,
        "hevc_amf"@,
        "h264_amf"@,
        ""@,
        if p.platform == Platform::Windows && p.decoders.amf {
            Some("d3d11va"@)
        } else {
            None
        },
        None,
        super::sw_filter(p),
        false,
    )
}

/// Builds what AMF is given.
pub fn build_amf(p: &PipelineParams<'_>) -> (r: PipelineConfig)
    requires
        p.out_bitrate_kbps * 2 <= u64::MAX,
    ensures
        r@ == amf_config(*p),
{
    let decode: Option<&str> = if p.platform == Platform::Windows && p.decoders.amf {
        Some("d3d11va")
    } else {
        None
    };
    let filter = sw_filter_text(p);
    build_hardware(p, p.caps.has_amf_hevc, "hevc_amf", "h264_amf", "", decode, None, filter, false)
}

}
