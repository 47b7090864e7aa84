//! Software encoding, and software tone mapping for every backend.
use super::{bt2020_marks_text, kbps_text, param_text, range_text, sw_filter_text};
use super::{PipelineConfig, PipelineParams};
use crate::hw_detect::HwCapabilities;
use crate::text;
use crate::types::TonemapOptions;
use vstd::prelude::*;
use vstd::string::*;

verus! {

broadcast use vstd::string::group_string_axioms;

/// A bounded bit rate where one is asked for, else a constant rate factor that suits the
/// codec.
pub open spec fn rate_control_of(kbps: int, bounded: bool, hevc: bool) -> (
    Option<Seq<char>>,
    Option<Seq<char>>,
    Option<Seq<char>>,
    Option<u32>,
) {
    if bounded {
        (
            Some(super::kbps(kbps as nat)),
            Some(super::kbps(kbps as nat)),
            Some(super::kbps((kbps * 2) as nat)),
            None,
        )
    } else {
        (
            None,
            None,
            None,
            if hevc {
                Some(28)
            } else {
                Some(23)
            },
        )
    }
}

/// The bit rate, the maximum rate, the buffer size and the constant rate factor.
pub fn rate_control(out_bitrate_kbps: u64, has_target_video_bitrate: bool, use_hevc_sw: bool) -> (r:
    (Option<String>, Option<String>, Option<String>, Option<u32>))
    requires
        has_target_video_bitrate ==> out_bitrate_kbps * 2 <= u64::MAX,
    ensures
        (text::opt_string(r.0), text::opt_string(r.1), text::opt_string(r.2), r.3)
            == rate_control_of(out_bitrate_kbps as int, has_target_video_bitrate, use_hevc_sw),
{
    if has_target_video_bitrate {
        (
            Some(kbps_text(out_bitrate_kbps)),
            Some(kbps_text(out_bitrate_kbps)),
            Some(kbps_text(out_bitrate_kbps * 2)),
            None,
        )
    } else if use_hevc_sw {
        (None, None, None, Some(28))
    } else {
        (None, None, None, Some(23))
    }
}

/// What the software backend is given.
pub open spec fn software_config(p: PipelineParams<'_>) -> super::ConfigView {
    let hevc = p.use_hevc && p.caps.has_libx265;
    let rate = rate_control_of(p.out_bitrate_kbps as int, p.target_video_bitrate is Some, hevc);
    super::ConfigView {
        encoder: if hevc {
            "libx265"@
        } else {
            "libx264"@
        },
        preset: "veryfast"@,
        bitrate: rate.0,
        maxrate: rate.1,
        bufsize: rate.2,
        crf: rate.3,
        profile: Some(
            if hevc {
                "main"@
            } else {
                "high"@
            },
        ),
        force_kf: Some(p.segment_duration),
        gop: None,
        keyint_min: None,
        decode: None,
        filter_backend: None,
        video_filter: Some(super::sw_filter(p)),
        use_cuvid: false,
    }
}

/// Builds what the software backend is given.
pub fn build_software(p: &PipelineParams<'_>) -> (r: PipelineConfig)
    requires
        p.target_video_bitrate is Some ==> p.out_bitrate_kbps * 2 <= u64::MAX,
    ensures
        r@ == software_config(*p),
{
    let use_hevc_sw = p.use_hevc && p.caps.has_libx265;
    let (bitrate, maxrate, bufsize, crf) = rate_control(
        p.out_bitrate_kbps,
        p.target_video_bitrate.is_some(),
        use_hevc_sw,
    );
    PipelineConfig {
        encoder: text::copy_text(
            if use_hevc_sw {
                "libx265"
            } else {
                "libx264"
            },
        ),
        preset: text::copy_text("veryfast"),
        bitrate,
        maxrate,
        bufsize,
        crf,
        profile: Some(
            text::copy_text(
                if use_hevc_sw {
                    "main"
                } else {
                    "high"
                },
            ),
        ),
        force_kf: Some(p.segment_duration),
        gop: None,
        keyint_min: None,
        decode: None,
        filter_backend: None,
        video_filter: Some(sw_filter_text(p)),
        use_cuvid: false,
    }
}

/// The algorithm, the desaturation and the peak behind the front of a filter.
pub open spec fn desat_first(front: Seq<char>, tm: TonemapOptions) -> Seq<char> {
    front + tm.algorithm@ + ":desat="@ + tm.desat.text@ + ":peak="@ + tm.peak.text@
}

fn desat_first_text(front: &str, tm: &TonemapOptions) -> (r: String)
    ensures
        r@ == desat_first(front@, *tm),
{
    let mut r = front.to_owned();
    r.append(tm.algorithm.as_str());
    r.append(":desat=");
    r.append(tm.desat.text.as_str());
    r.append(":peak=");
    r.append(tm.peak.text.as_str());
    r
}

/// The filters that bring frames from the GPU down.
pub open spec fn download(frames_on_gpu: bool) -> Seq<Seq<char>> {
    if frames_on_gpu {
        seq!["hwdownload"@, "format=p010le"@]
    } else {
        Seq::empty()
    }
}

/// The filters that map tones: tonemapx where it is there, else tonemap between two zscale,
/// else tonemap alone.
pub open spec fn tonemap_filters(tm: TonemapOptions, caps: HwCapabilities) -> Seq<Seq<char>> {
    if caps.has_tonemapx {
        seq![
            desat_first("tonemapx=tonemap="@, tm) + ":t=bt709:m=bt709:p=bt709:format=yuv420p"@
                + super::param_suffix(tm) + super::range_suffix(tm),
        ]
    } else if caps.has_zscale {
        seq![
            super::bt2020_marks(),
            "zscale=t=linear:npl="@ + tm.peak.text@,
            "format=gbrpf32le"@,
            desat_first("tonemap="@, tm),
            "zscale=t=bt709:m=bt709:p=bt709:r=tv"@,
            "format=yuv420p"@,
        ]
    } else {
        seq![
            "format=gbrpf32le"@,
            desat_first("tonemap="@, tm),
            "format=yuv420p"@,
            "setparams=color_primaries=bt709:color_trc=bt709:colorspace=bt709"@,
        ]
    }
}

/// The chain of software filters that maps tones.
pub open spec fn sw_tonemap(
    tm: TonemapOptions,
    caps: HwCapabilities,
    frames_on_gpu: bool,
) -> Seq<char> {
    text::joined(download(frames_on_gpu) + tonemap_filters(tm, caps), ","@)
}

/// Builds the chain of software filters that maps tones. Where `frames_on_gpu` is true, it
/// brings the frames down first.
pub fn build_sw_tonemap(tm: &TonemapOptions, caps: &HwCapabilities, frames_on_gpu: bool) -> (r:
    String)
    ensures
        r@ == sw_tonemap(*tm, *caps, frames_on_gpu),
{
    let mut parts: Vec<String> = Vec::new();
    if frames_on_gpu {
        parts.push(text::copy_text("hwdownload"));
        parts.push(text::copy_text("format=p010le"));
    }
    if caps.has_tonemapx {
        let mut args = desat_first_text("tonemapx=tonemap=", tm);
        args.append(":t=bt709:m=bt709:p=bt709:format=yuv420p");
        let param = param_text(tm);
        args.append(param.as_str());
        let range = range_text(tm);
        args.append(range.as_str());
        parts.push(args);
    } else if caps.has_zscale {
        parts.push(text::copy_text(bt2020_marks_text()));
        parts.push(text::join2("zscale=t=linear:npl=", tm.peak.text.as_str()));
        parts.push(text::copy_text("format=gbrpf32le"));
        parts.push(desat_first_text("tonemap=", tm));
        parts.push(text::copy_text("zscale=t=bt709:m=bt709:p=bt709:r=tv"));
        parts.push(text::copy_text("format=yuv420p"));
    } else {
        parts.push(text::copy_text("format=gbrpf32le"));
        parts.push(desat_first_text("tonemap=", tm));
        parts.push(text::copy_text("format=yuv420p"));
        parts.push(
            text::copy_text("setparams=color_primaries=bt709:color_trc=bt709:colorspace=bt709"),
        );
    }
    assert(text::texts(parts@) =~= download(frames_on_gpu) + tonemap_filters(*tm, *caps));
    text::join_list(&parts, ",")
}

}
