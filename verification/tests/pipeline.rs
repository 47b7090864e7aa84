use tokimo_package_hls::hw_detect::{HwCapabilities, Platform};
use tokimo_package_hls::number::Float;
use tokimo_package_hls::pipeline::software::rate_control;
use tokimo_package_hls::pipeline::{
    build_cuda_tonemap, build_pipeline, build_sw_tonemap, select_backend, HwBackend, PipelineParams, SourceDecoders,
};
use tokimo_package_hls::types::TonemapOptions;

fn float(x: f64) -> Float {
    Float::new(x.to_bits(), &x.to_string())
}

fn bare() -> HwCapabilities {
    HwCapabilities {
        has_nvenc: false,
        has_nvenc_hevc: false,
        has_cuvid: false,
        has_cuda_full: false,
        has_bwdif_cuda: false,
        cuvid_hw_codecs: vec![],
        has_vaapi: false,
        has_vaapi_full: false,
        has_vaapi_hevc: false,
        has_qsv: false,
        has_qsv_full: false,
        has_qsv_hevc: false,
        has_amf: false,
        has_amf_hevc: false,
        has_rkmpp: false,
        has_rkmpp_hevc: false,
        has_videotoolbox: false,
        has_videotoolbox_full: false,
        has_videotoolbox_hevc: false,
        has_videotoolbox_tonemap: false,
        has_tonemap: false,
        has_tonemapx: false,
        has_zscale: false,
        has_bwdif: false,
        has_libx265: false,
    }
}

fn tonemap() -> TonemapOptions {
    TonemapOptions {
        algorithm: "bt2390".to_string(),
        peak: float(100.0),
        desat: float(0.0),
        mode: "auto".to_string(),
        param: float(0.0),
        range: "auto".to_string(),
    }
}

fn every_decoder() -> SourceDecoders {
    SourceDecoders { cuvid: true, videotoolbox: true, vaapi: true, qsv: true, amf: true }
}

fn params<'a>(caps: &'a HwCapabilities, backend: HwBackend) -> PipelineParams<'a> {
    PipelineParams {
        caps,
        platform: Platform::Linux,
        backend,
        decoders: every_decoder(),
        segment_frames: None,
        video_bitrate: None,
        target_video_bitrate: None,
        segment_duration: 6,
        deinterlace: false,
        tonemap: None,
        out_bitrate_kbps: 1716,
        use_hevc: true,
    }
}

#[test]
fn target_bitrate_uses_bounded_rate_control() {
    let (bitrate, maxrate, bufsize, crf) = rate_control(4_000, true, false);

    assert_eq!(bitrate.as_deref(), Some("4000k"));
    assert_eq!(maxrate.as_deref(), Some("4000k"));
    assert_eq!(bufsize.as_deref(), Some("8000k"));
    assert_eq!(crf, None);
}

#[test]
fn no_target_bitrate_keeps_codec_specific_crf() {
    assert_eq!(rate_control(8_000, false, false), (None, None, None, Some(23)));
    assert_eq!(rate_control(8_000, false, true), (None, None, None, Some(28)));
}

#[test]
fn backends_are_preferred_in_order() {
    let mut caps = bare();
    assert_eq!(select_backend(&caps), HwBackend::Software);
    caps.has_rkmpp = true;
    assert_eq!(select_backend(&caps), HwBackend::Rkmpp);
    caps.has_amf = true;
    assert_eq!(select_backend(&caps), HwBackend::Amf);
    caps.has_qsv = true;
    assert_eq!(select_backend(&caps), HwBackend::Qsv);
    caps.has_vaapi = true;
    assert_eq!(select_backend(&caps), HwBackend::Vaapi);
    caps.has_videotoolbox = true;
    assert_eq!(select_backend(&caps), HwBackend::VideoToolbox);
    caps.has_nvenc = true;
    assert_eq!(select_backend(&caps), HwBackend::Cuda);
}

#[test]
fn backends_have_names() {
    let all = [
        (HwBackend::Cuda, "cuda"),
        (HwBackend::VideoToolbox, "videotoolbox"),
        (HwBackend::Vaapi, "vaapi"),
        (HwBackend::Qsv, "qsv"),
        (HwBackend::Amf, "amf"),
        (HwBackend::Rkmpp, "rkmpp"),
        (HwBackend::Software, "software"),
    ];
    for (backend, name) in all {
        assert_eq!(backend.label(), name);
        assert_eq!(backend.is_hw_encoder(), backend != HwBackend::Software);
    }
}

#[test]
fn cuda_pipeline() {
    let mut caps = bare();
    caps.has_nvenc = true;
    caps.has_cuda_full = true;
    caps.has_bwdif = true;
    let mut p = params(&caps, HwBackend::Cuda);
    p.segment_frames = Some(144);
    let c = build_pipeline(&p);
    assert_eq!(c.encoder, "h264_nvenc");
    assert_eq!(c.preset, "p1");
    assert_eq!(c.bitrate.as_deref(), Some("1716k"));
    assert_eq!(c.maxrate.as_deref(), Some("1716k"));
    assert_eq!(c.bufsize.as_deref(), Some("3432k"));
    assert_eq!(c.crf, None);
    assert_eq!(c.profile.as_deref(), Some("high"));
    assert_eq!(c.gop, Some(144));
    assert_eq!(c.keyint_min, Some(144));
    assert_eq!(c.force_kf, None);
    assert_eq!(c.decode.as_deref(), Some("cuda"));
    assert_eq!(c.filter_backend.as_deref(), Some("cuda"));
    assert_eq!(c.video_filter.as_deref(), Some("scale_cuda=format=yuv420p"));
    assert!(c.use_cuvid);
    p.deinterlace = true;
    assert_eq!(build_pipeline(&p).video_filter.as_deref(), Some("yadif_cuda=0:-1:0,scale_cuda=format=yuv420p"));
    p.decoders.cuvid = false;
    let c = build_pipeline(&p);
    assert_eq!(c.video_filter.as_deref(), Some("bwdif=0:-1:0,format=yuv420p"));
    assert_eq!(c.decode, None);
    assert!(!c.use_cuvid);
    caps.has_nvenc_hevc = true;
    let p = params(&caps, HwBackend::Cuda);
    let c = build_pipeline(&p);
    assert_eq!(c.encoder, "hevc_nvenc");
    assert_eq!(c.profile.as_deref(), Some("main"));
    assert_eq!(c.gop, Some(144));
    let mut p = params(&caps, HwBackend::Cuda);
    p.use_hevc = false;
    assert_eq!(build_pipeline(&p).encoder, "h264_nvenc");
}

#[test]
fn cuda_tone_mapping() {
    let mut caps = bare();
    caps.has_cuda_full = true;
    let mut tm = tonemap();
    assert_eq!(
        build_cuda_tonemap(&tm, &caps, true),
        "setparams=color_primaries=bt2020:color_trc=smpte2084:colorspace=bt2020nc,\
         tonemap_cuda=format=yuv420p:p=bt709:t=bt709:m=bt709:tonemap=bt2390:peak=100:desat=0"
    );
    tm.mode = "max".to_string();
    tm.param = float(0.5);
    tm.range = "tv".to_string();
    assert_eq!(
        build_cuda_tonemap(&tm, &caps, true),
        "setparams=color_primaries=bt2020:color_trc=smpte2084:colorspace=bt2020nc,\
         tonemap_cuda=format=yuv420p:p=bt709:t=bt709:m=bt709:tonemap=bt2390:peak=100:desat=0\
         :tonemap_mode=max:param=0.5:range=tv"
    );
    assert_eq!(build_cuda_tonemap(&tm, &caps, false), build_sw_tonemap(&tm, &caps, false));
    caps.has_cuda_full = false;
    assert_eq!(build_cuda_tonemap(&tm, &caps, true), build_sw_tonemap(&tm, &caps, true));
}

#[test]
fn software_tone_mapping() {
    let mut caps = bare();
    let mut tm = tonemap();
    assert_eq!(
        build_sw_tonemap(&tm, &caps, true),
        "hwdownload,format=p010le,format=gbrpf32le,tonemap=bt2390:desat=0:peak=100,format=yuv420p,\
         setparams=color_primaries=bt709:color_trc=bt709:colorspace=bt709"
    );
    caps.has_zscale = true;
    assert_eq!(
        build_sw_tonemap(&tm, &caps, false),
        "setparams=color_primaries=bt2020:color_trc=smpte2084:colorspace=bt2020nc,zscale=t=linear:npl=100,\
         format=gbrpf32le,tonemap=bt2390:desat=0:peak=100,zscale=t=bt709:m=bt709:p=bt709:r=tv,format=yuv420p"
    );
    caps.has_tonemapx = true;
    tm.range = "pc".to_string();
    tm.param = float(-0.25);
    assert_eq!(
        build_sw_tonemap(&tm, &caps, false),
        "tonemapx=tonemap=bt2390:desat=0:peak=100:t=bt709:m=bt709:p=bt709:format=yuv420p:param=-0.25:range=pc"
    );
}

#[test]
fn vaapi_and_quick_sync_pipelines() {
    let mut caps = bare();
    caps.has_vaapi = true;
    caps.has_qsv = true;
    let tm = tonemap();
    let mut p = params(&caps, HwBackend::Vaapi);
    p.tonemap = Some(&tm);
    let c = build_pipeline(&p);
    assert_eq!(c.encoder, "h264_vaapi");
    assert_eq!(c.decode, None);
    assert_eq!(c.filter_backend, None);
    assert_eq!(c.video_filter, Some(build_sw_tonemap(&tm, &caps, false)));
    p.backend = HwBackend::Qsv;
    let c = build_pipeline(&p);
    assert_eq!(c.decode, None);
    assert_eq!(c.filter_backend, None);
    assert!(!c.video_filter.as_deref().unwrap().contains("hwdownload"));
    assert_eq!(c.video_filter, Some(build_sw_tonemap(&tm, &caps, false)));
    caps.has_vaapi_full = true;
    caps.has_vaapi_hevc = true;
    caps.has_qsv_full = true;
    let mut p = params(&caps, HwBackend::Vaapi);
    p.deinterlace = true;
    let c = build_pipeline(&p);
    assert_eq!(c.encoder, "hevc_vaapi");
    assert_eq!(c.preset, "");
    assert_eq!(c.decode.as_deref(), Some("vaapi"));
    assert_eq!(c.filter_backend.as_deref(), Some("vaapi"));
    assert_eq!(c.video_filter.as_deref(), Some("deinterlace_vaapi,scale_vaapi=format=nv12"));
    p.decoders.vaapi = false;
    p.deinterlace = false;
    p.tonemap = Some(&tm);
    let c = build_pipeline(&p);
    assert_eq!(c.decode, None);
    assert_eq!(c.filter_backend.as_deref(), Some("vaapi"));
    assert_eq!(
        c.video_filter.as_deref(),
        Some(
            "setparams=color_primaries=bt2020:color_trc=smpte2084:colorspace=bt2020nc,\
             tonemap_vaapi=format=nv12:p=bt709:t=bt709:m=bt709:tonemap=bt2390:peak=100:desat=0"
        )
    );
    let mut p = params(&caps, HwBackend::Qsv);
    let c = build_pipeline(&p);
    assert_eq!(c.encoder, "h264_qsv");
    assert_eq!(c.preset, "veryfast");
    assert_eq!(c.decode.as_deref(), Some("qsv"));
    assert_eq!(c.video_filter.as_deref(), Some("scale_qsv=format=nv12"));
    p.tonemap = Some(&tm);
    p.deinterlace = true;
    assert_eq!(
        build_pipeline(&p).video_filter.as_deref(),
        Some("yadif_qsv=0:-1:0,vpp_qsv=tonemap=1:format=nv12:async_depth=2")
    );
}

#[test]
fn videotoolbox_pipeline() {
    let mut caps = bare();
    caps.has_videotoolbox = true;
    caps.has_videotoolbox_full = true;
    let mut tm = tonemap();
    tm.param = float(2.0);
    let mut p = params(&caps, HwBackend::VideoToolbox);
    let c = build_pipeline(&p);
    assert_eq!(c.encoder, "h264_videotoolbox");
    assert_eq!(c.decode.as_deref(), Some("videotoolbox"));
    assert_eq!(c.video_filter.as_deref(), Some("scale_vt=format=yuv420p"));
    p.tonemap = Some(&tm);
    assert!(build_pipeline(&p).video_filter.unwrap().starts_with("hwdownload,format=p010le,"));
    p.deinterlace = true;
    assert_eq!(
        build_pipeline(&p).video_filter,
        Some(format!("yadif_videotoolbox=0:-1:0,{}", build_sw_tonemap(&tm, &caps, true)))
    );
    p.deinterlace = false;
    p.decoders.videotoolbox = false;
    assert_eq!(build_pipeline(&p).video_filter, Some(build_sw_tonemap(&tm, &caps, false)));
    caps.has_videotoolbox_tonemap = true;
    let mut p = params(&caps, HwBackend::VideoToolbox);
    p.tonemap = Some(&tm);
    assert_eq!(
        build_pipeline(&p).video_filter.as_deref(),
        Some(
            "scale_vt=tonemap=1:format=yuv420p:p=bt709:t=bt709:m=bt709:tonemap=bt2390:peak=100:desat=0:param=2"
        )
    );
    p.decoders.videotoolbox = false;
    p.tonemap = None;
    let c = build_pipeline(&p);
    assert_eq!(c.decode, None);
    assert_eq!(c.filter_backend, None);
    assert_eq!(c.video_filter.as_deref(), Some("format=yuv420p"));
}

#[test]
fn amf_and_rkmpp_pipelines() {
    let mut caps = bare();
    caps.has_amf_hevc = true;
    let mut p = params(&caps, HwBackend::Amf);
    let c = build_pipeline(&p);
    assert_eq!(c.encoder, "hevc_amf");
    assert_eq!(c.decode, None);
    assert_eq!(c.video_filter.as_deref(), Some("format=yuv420p"));
    p.platform = Platform::Windows;
    assert_eq!(build_pipeline(&p).decode.as_deref(), Some("d3d11va"));
    p.decoders.amf = false;
    assert_eq!(build_pipeline(&p).decode, None);
    let mut p = params(&caps, HwBackend::Rkmpp);
    p.deinterlace = true;
    let c = build_pipeline(&p);
    assert_eq!(c.encoder, "h264_rkmpp");
    assert_eq!(c.decode.as_deref(), Some("rkmpp"));
    assert_eq!(c.filter_backend, None);
    assert_eq!(c.video_filter.as_deref(), Some("yadif=0:-1:0,format=yuv420p"));
}

#[test]
fn software_pipeline() {
    let mut caps = bare();
    let mut p = params(&caps, HwBackend::Software);
    let c = build_pipeline(&p);
    assert_eq!(c.encoder, "libx264");
    assert_eq!(c.preset, "veryfast");
    assert_eq!((c.bitrate, c.crf), (None, Some(23)));
    assert_eq!(c.force_kf, Some(6));
    assert_eq!(c.gop, None);
    p.target_video_bitrate = Some(4_000_000);
    let c = build_pipeline(&p);
    assert_eq!(c.bitrate.as_deref(), Some("1716k"));
    assert_eq!(c.crf, None);
    caps.has_libx265 = true;
    let p = params(&caps, HwBackend::Software);
    let c = build_pipeline(&p);
    assert_eq!(c.encoder, "libx265");
    assert_eq!(c.profile.as_deref(), Some("main"));
    assert_eq!(c.crf, Some(28));
}

#[test]
fn groups_of_pictures_are_bounded() {
    let caps = bare();
    let mut p = params(&caps, HwBackend::Rkmpp);
    p.segment_duration = u32::MAX;
    assert_eq!(build_pipeline(&p).gop, Some(i32::MAX));
    p.segment_duration = 0;
    assert_eq!(build_pipeline(&p).gop, Some(0));
}
