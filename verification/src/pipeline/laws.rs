//! What the pipelines come to, in terms of what the machine can do and of what is asked for.
use super::software;
use super::{HwBackend, PipelineParams};
use crate::hw_detect::{HwCapabilities, Platform};
use crate::number;
use crate::text;
use crate::types::TonemapOptions;
use vstd::prelude::*;

verus! {

// ── Filters ──────────────────────────────────────────────────────────────────

/// CUDA deinterlaces and maps tones on the GPU where CUVID decodes, and then in no other way;
/// where it does not, both are done in software. Frames that stay on the GPU are scaled there
/// where no tones are mapped. The mapping carries the algorithm, the peak and the desaturation
/// that are asked for.
pub proof fn cuda_filters(p: PipelineParams<'_>)
    requires
        p.backend == HwBackend::Cuda,
    ensures
        ({
            let first = if p.caps.has_cuda_full && p.decoders.cuvid {
                if p.caps.has_bwdif_cuda {
                    "bwdif_cuda=0:-1:0"@
                } else {
                    "yadif_cuda=0:-1:0"@
                }
            } else {
                if p.caps.has_bwdif {
                    "bwdif=0:-1:0"@
                } else {
                    "yadif=0:-1:0"@
                }
            };
            let base = match p.tonemap {
                Some(tm) => if p.caps.has_cuda_full && p.decoders.cuvid {
                    "setparams=color_primaries=bt2020:color_trc=smpte2084:colorspace=bt2020nc"@ + ","@ + (
                    "tonemap_cuda=format=yuv420p:p=bt709:t=bt709:m=bt709:tonemap="@ + tm.algorithm@
                        + ":peak="@ + tm.peak.text@ + ":desat="@ + tm.desat.text@) + if tm.mode@
                        == "auto"@ || tm.mode@.len() == 0 {
                        ""@
                    } else {
                        ":tonemap_mode="@ + tm.mode@
                    } + if tm.param.bits == 0 || tm.param.bits == 0x8000_0000_0000_0000 {
                        ""@
                    } else {
                        ":param="@ + tm.param.text@
                    } + if tm.range@ == "tv"@ || tm.range@ == "pc"@ {
                        ":range="@ + tm.range@
                    } else {
                        ""@
                    }
                } else {
                    software::sw_tonemap(*tm, *p.caps, false)
                },
                None => if p.caps.has_cuda_full && p.decoders.cuvid {
                    "scale_cuda=format=yuv420p"@
                } else {
                    "format=yuv420p"@
                },
            };
            super::pipeline_config(p).video_filter == Some(
                if p.deinterlace {
                    first + ","@ + base
                } else {
                    base
                },
            )
        }),
{
}

/// VAAPI deinterlaces, maps tones and scales on the GPU where it filters there, whatever
/// decodes; else all is done in software, on frames in memory.
pub proof fn vaapi_filters(p: PipelineParams<'_>)
    requires
        p.backend == HwBackend::Vaapi,
    ensures
        ({
            let first = if p.caps.has_vaapi_full {
                "deinterlace_vaapi"@
            } else {
                if p.caps.has_bwdif {
                    "bwdif=0:-1:0"@
                } else {
                    "yadif=0:-1:0"@
                }
            };
            let base = match p.tonemap {
                Some(tm) => if p.caps.has_vaapi_full {
                    "setparams=color_primaries=bt2020:color_trc=smpte2084:colorspace=bt2020nc"@ + ","@ + (
                    "tonemap_vaapi=format=nv12:p=bt709:t=bt709:m=bt709:tonemap="@ + tm.algorithm@
                        + ":peak="@ + tm.peak.text@ + ":desat="@ + tm.desat.text@) + if tm.param.bits == 0 || tm.param.bits == 0x8000_0000_0000_0000 {
                        ""@
                    } else {
                        ":param="@ + tm.param.text@
                    }
                } else {
                    software::sw_tonemap(*tm, *p.caps, false)
                },
                None => if p.caps.has_vaapi_full {
                    "scale_vaapi=format=nv12"@
                } else {
                    "format=yuv420p"@
                },
            };
            super::pipeline_config(p).video_filter == Some(
                if p.deinterlace {
                    first + ","@ + base
                } else {
                    base
                },
            )
        }),
{
}

/// Quick Sync deinterlaces, maps tones and scales on the GPU where it filters there, whatever
/// decodes; else all is done in software, on frames in memory.
pub proof fn quick_sync_filters(p: PipelineParams<'_>)
    requires
        p.backend == HwBackend::Qsv,
    ensures
        ({
            let first = if p.caps.has_qsv_full {
                "yadif_qsv=0:-1:0"@
            } else {
                if p.caps.has_bwdif {
                    "bwdif=0:-1:0"@
                } else {
                    "yadif=0:-1:0"@
                }
            };
            let base = match p.tonemap {
                Some(tm) => if p.caps.has_qsv_full {
                    "vpp_qsv=tonemap=1:format=nv12:async_depth=2"@
                } else {
                    software::sw_tonemap(*tm, *p.caps, false)
                },
                None => if p.caps.has_qsv_full {
                    "scale_qsv=format=nv12"@
                } else {
                    "format=yuv420p"@
                },
            };
            super::pipeline_config(p).video_filter == Some(
                if p.deinterlace {
                    first + ","@ + base
                } else {
                    base
                },
            )
        }),
{
}

/// VideoToolbox filters on the GPU where it decodes there and can; tones are mapped there only
/// where it can map them, else in software, for which frames are brought down.
pub proof fn videotoolbox_filters(p: PipelineParams<'_>)
    requires
        p.backend == HwBackend::VideoToolbox,
    ensures
        ({
            let first = if p.decoders.videotoolbox && p.caps.has_videotoolbox && p.caps.has_videotoolbox_full {
                "yadif_videotoolbox=0:-1:0"@
            } else {
                if p.caps.has_bwdif {
                    "bwdif=0:-1:0"@
                } else {
                    "yadif=0:-1:0"@
                }
            };
            let base = match p.tonemap {
                Some(tm) => if p.decoders.videotoolbox && p.caps.has_videotoolbox && p.caps.has_videotoolbox_full {
                    if p.caps.has_videotoolbox_tonemap {
                        ("scale_vt=tonemap=1:format=yuv420p:p=bt709:t=bt709:m=bt709:tonemap="@
                            + tm.algorithm@ + ":peak="@ + tm.peak.text@ + ":desat="@
                            + tm.desat.text@) + if tm.param.bits == 0 || tm.param.bits == 0x8000_0000_0000_0000 {
                            ""@
                        } else {
                            ":param="@ + tm.param.text@
                        }
                    } else {
                        software::sw_tonemap(*tm, *p.caps, true)
                    }
                } else {
                    software::sw_tonemap(*tm, *p.caps, false)
                },
                None => if p.decoders.videotoolbox && p.caps.has_videotoolbox && p.caps.has_videotoolbox_full {
                    "scale_vt=format=yuv420p"@
                } else {
                    "format=yuv420p"@
                },
            };
            super::pipeline_config(p).video_filter == Some(
                if p.deinterlace {
                    first + ","@ + base
                } else {
                    base
                },
            )
        }),
{
}

/// AMF, RKMPP and software deinterlace and map tones in software, on frames in memory.
pub proof fn filters_of_the_others(p: PipelineParams<'_>)
    requires
        p.backend == HwBackend::Amf || p.backend == HwBackend::Rkmpp || p.backend == HwBackend::Software,
    ensures
        ({
            let first = if p.caps.has_bwdif {
                "bwdif=0:-1:0"@
            } else {
                "yadif=0:-1:0"@
            };
            let base = match p.tonemap {
                Some(tm) => software::sw_tonemap(*tm, *p.caps, false),
                None => "format=yuv420p"@,
            };
            super::pipeline_config(p).video_filter == Some(
                if p.deinterlace {
                    first + ","@ + base
                } else {
                    base
                },
            )
        }),
{
}

/// Tones are mapped in software by tonemapx where it is there, else by tonemap between two
/// zscale, else by tonemap alone: in each case with the algorithm, the desaturation and the
/// peak that are asked for, behind a download where the frames are on the GPU.
pub proof fn software_maps_tones_as_asked_for(tm: TonemapOptions, caps: HwCapabilities, on_gpu: bool)
    ensures
        ({
            let front = if on_gpu {
                seq!["hwdownload"@, "format=p010le"@]
            } else {
                Seq::empty()
            };
            software::sw_tonemap(tm, caps, on_gpu) == text::joined(
                front + if caps.has_tonemapx {
                    seq![
                        ("tonemapx=tonemap="@ + tm.algorithm@ + ":desat="@ + tm.desat.text@
                            + ":peak="@ + tm.peak.text@)
                            + ":t=bt709:m=bt709:p=bt709:format=yuv420p"@ + if tm.param.bits == 0
                            || tm.param.bits == 0x8000_0000_0000_0000 {
                            ""@
                        } else {
                            ":param="@ + tm.param.text@
                        } + if tm.range@ == "tv"@ || tm.range@ == "pc"@ {
                            ":range="@ + tm.range@
                        } else {
                            ""@
                        },
                    ]
                } else if caps.has_zscale {
                    seq![
                        "setparams=color_primaries=bt2020:color_trc=smpte2084:colorspace=bt2020nc"@,
                        "zscale=t=linear:npl="@ + tm.peak.text@,
                        "format=gbrpf32le"@,
                        "tonemap="@ + tm.algorithm@ + ":desat="@ + tm.desat.text@ + ":peak="@
                            + tm.peak.text@,
                        "zscale=t=bt709:m=bt709:p=bt709:r=tv"@,
                        "format=yuv420p"@,
                    ]
                } else {
                    seq![
                        "format=gbrpf32le"@,
                        "tonemap="@ + tm.algorithm@ + ":desat="@ + tm.desat.text@ + ":peak="@
                            + tm.peak.text@,
                        "format=yuv420p"@,
                        "setparams=color_primaries=bt709:color_trc=bt709:colorspace=bt709"@,
                    ]
                },
                ","@,
            )
        }),
{
}

// ── Encoders and decoders ────────────────────────────────────────────────────

/// The encoder, the preset and the profile of each backend: HEVC where it is preferred and the
/// backend encodes it, else H.264.
pub proof fn encoders_of_the_backends(p: PipelineParams<'_>)
    ensures
        ({
            let c = super::pipeline_config(p);
            let is = |hevc: bool, a: Seq<char>, b: Seq<char>, preset: Seq<char>|
                if p.use_hevc && hevc {
                    c.encoder == a && c.profile == Some("main"@) && c.preset == preset
                } else {
                    c.encoder == b && c.profile == Some("high"@) && c.preset == preset
                };
            match p.backend {
                HwBackend::Cuda => is(p.caps.has_nvenc_hevc, "hevc_nvenc"@, "h264_nvenc"@, "p1"@),
                HwBackend::VideoToolbox => is(
                    p.caps.has_videotoolbox_hevc,
                    "hevc_videotoolbox"@,
                    "h264_videotoolbox"@,
                    ""@,
                ),
                HwBackend::Vaapi => is(p.caps.has_vaapi_hevc, "hevc_vaapi"@, "h264_vaapi"@, ""@),
                HwBackend::Qsv => is(p.caps.has_qsv_hevc, "hevc_qsv"@, "h264_qsv"@, "veryfast"@),
                HwBackend::Amf => is(p.caps.has_amf_hevc, "hevc_amf"@, "h264_amf"@, ""@),
                HwBackend::Rkmpp => is(p.caps.has_rkmpp_hevc, "hevc_rkmpp"@, "h264_rkmpp"@, ""@),
                HwBackend::Software => is(p.caps.has_libx265, "libx265"@, "libx264"@, "veryfast"@),
            }
        }),
{
}

/// What decodes and what filters: the hardware of the backend where it can do both; VAAPI and
/// Quick Sync may filter what software decodes; AMF decodes on Windows alone, and RKMPP
/// always, both for filters in software.
pub proof fn decoders_of_the_backends(p: PipelineParams<'_>)
    ensures
        ({
            let c = super::pipeline_config(p);
            let none: Option<Seq<char>> = None;
            match p.backend {
                HwBackend::Cuda => if p.caps.has_cuda_full && p.decoders.cuvid {
                    c.decode == Some("cuda"@) && c.filter_backend == Some("cuda"@) && c.use_cuvid
                } else {
                    c.decode is None && c.filter_backend is None && !c.use_cuvid
                },
                HwBackend::VideoToolbox => if p.caps.has_videotoolbox
                    && p.caps.has_videotoolbox_full && p.decoders.videotoolbox {
                    &&& c.decode == Some("videotoolbox"@)
                    &&& c.filter_backend == Some("videotoolbox"@)
                    &&& !c.use_cuvid
                } else {
                    c.decode is None && c.filter_backend is None && !c.use_cuvid
                },
                HwBackend::Vaapi => {
                    &&& c.filter_backend == if p.caps.has_vaapi_full {
                        Some("vaapi"@)
                    } else {
                        none
                    }
                    &&& c.decode == if p.caps.has_vaapi_full && p.caps.has_vaapi
                        && p.decoders.vaapi {
                        Some("vaapi"@)
                    } else {
                        none
                    }
                    &&& !c.use_cuvid
                },
                HwBackend::Qsv => {
                    &&& c.filter_backend == if p.caps.has_qsv_full {
                        Some("qsv"@)
                    } else {
                        none
                    }
                    &&& c.decode == if p.caps.has_qsv_full && p.caps.has_qsv && p.decoders.qsv {
                        Some("qsv"@)
                    } else {
                        none
                    }
                    &&& !c.use_cuvid
                },
                HwBackend::Amf => {
                    &&& c.filter_backend is None
                    &&& c.decode == if p.platform == Platform::Windows && p.decoders.amf {
                        Some("d3d11va"@)
                    } else {
                        none
                    }
                    &&& !c.use_cuvid
                },
                HwBackend::Rkmpp => c.decode == Some("rkmpp"@) && c.filter_backend is None
                    && !c.use_cuvid,
                HwBackend::Software => c.decode is None && c.filter_backend is None
                    && !c.use_cuvid,
            }
        }),
{
}

/// Hardware encodes at the bit rate of the output, which is also the highest, with a buffer for
/// two seconds of it. So does software where a bit rate is asked for; else it encodes at a
/// constant quality: 28 for HEVC, 23 for H.264.
pub proof fn rates_of_the_backends(p: PipelineParams<'_>)
    ensures
        ({
            let c = super::pipeline_config(p);
            if p.backend == HwBackend::Software && p.target_video_bitrate is None {
                &&& c.bitrate is None && c.maxrate is None && c.bufsize is None
                &&& c.crf == Some(
                    if p.use_hevc && p.caps.has_libx265 {
                        28u32
                    } else {
                        23u32
                    },
                )
            } else {
                &&& c.bitrate == Some(number::decimal(p.out_bitrate_kbps as nat) + "k"@)
                &&& c.maxrate == Some(number::decimal(p.out_bitrate_kbps as nat) + "k"@)
                &&& c.bufsize == Some(
                    number::decimal((p.out_bitrate_kbps + p.out_bitrate_kbps) as nat) + "k"@,
                )
                &&& c.crf is None
            }
        }),
{
}

/// A group of pictures is as long as a segment: the frames that are known to be in one, or 24
/// for each second, as far as that is a number. Software is told the length of a segment
/// instead.
pub proof fn groups_are_as_long_as_segments(p: PipelineParams<'_>)
    ensures
        ({
            let c = super::pipeline_config(p);
            let usual = 24 * p.segment_duration;
            &&& p.backend != HwBackend::Software ==> c.gop == Some(
                match p.segment_frames {
                    Some(n) => n,
                    None => if usual <= 0x7FFF_FFFF {
                        usual as i32
                    } else {
                        0x7FFF_FFFFi32
                    },
                },
            ) && c.keyint_min == c.gop && c.force_kf is None
            &&& p.backend == HwBackend::Software ==> c.gop is None && c.keyint_min is None
                && c.force_kf == Some(p.segment_duration)
        }),
{
}

/// The backend that is selected is the first of these that the machine has: CUDA, VideoToolbox,
/// VAAPI, Quick Sync, AMF, RKMPP; and software where it has none.
pub proof fn the_first_backend_there_is_is_selected(caps: HwCapabilities, backend: HwBackend)
    requires
        super::is_selected(caps, backend),
    ensures
        backend == if caps.has_nvenc {
            HwBackend::Cuda
        } else if caps.has_videotoolbox {
            HwBackend::VideoToolbox
        } else if caps.has_vaapi {
            HwBackend::Vaapi
        } else if caps.has_qsv {
            HwBackend::Qsv
        } else if caps.has_amf {
            HwBackend::Amf
        } else if caps.has_rkmpp {
            HwBackend::Rkmpp
        } else {
            HwBackend::Software
        },
{
    let l = super::preference();
    assert(l[0] == HwBackend::Cuda && l[1] == HwBackend::VideoToolbox && l[2] == HwBackend::Vaapi
        && l[3] == HwBackend::Qsv && l[4] == HwBackend::Amf && l[5] == HwBackend::Rkmpp && l[6]
        == HwBackend::Software);
}

}
