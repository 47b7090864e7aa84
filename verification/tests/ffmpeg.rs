use tokimo_package_hls::ffmpeg::{
    backend_for, build_transcode_options, encoding_questions, generate_vod_playlist, pipeline_path, segment_type_for,
    tonemap_path, EncodingAnswers, HlsSegmentType, TranscodeOptions, SEGMENT_DURATION,
};
use tokimo_package_hls::hw_detect::{HwCapabilities, Platform};
use tokimo_package_hls::pipeline::{HwBackend, SourceDecoders};
use tokimo_package_hls::types::{AudioStreamInfo, TonemapOptions};
use tokimo_package_hls::transcode_decision::needs_audio_transcode;

fn ns(secs: f64) -> u128 {
    (secs * 1_000_000_000.0).round() as u128
}

fn secs(times: &[u128]) -> Vec<f64> {
    times.iter().map(|&t| t as f64 / 1_000_000_000.0).collect()
}

#[test]
fn test_vod_playlist_fmp4() {
    let (pl, starts) = generate_vod_playlist(ns(15.0), 6, HlsSegmentType::Fmp4, None);
    assert!(pl.contains("#EXT-X-PLAYLIST-TYPE:VOD"));
    assert!(pl.contains("#EXT-X-VERSION:7"));
    assert!(pl.contains("#EXT-X-MAP:URI=\"init.mp4\""));
    assert!(pl.contains("00000.tokimo"));
    assert!(pl.contains("00001.tokimo"));
    assert!(pl.contains("00002.tokimo"));
    assert!(pl.contains("#EXT-X-ENDLIST"));
    assert_eq!(secs(&starts), vec![0.0, 6.0, 12.0]);
}

#[test]
fn test_vod_playlist_mpegts() {
    let (pl, starts) = generate_vod_playlist(ns(15.0), 6, HlsSegmentType::Mpegts, None);
    assert!(pl.contains("#EXT-X-PLAYLIST-TYPE:VOD"));
    assert!(pl.contains("#EXT-X-VERSION:3"));
    assert!(!pl.contains("#EXT-X-MAP"));
    assert!(pl.contains("00000.ts"));
    assert!(pl.contains("00001.ts"));
    assert!(pl.contains("00002.ts"));
    assert!(pl.contains("#EXT-X-ENDLIST"));
    assert_eq!(secs(&starts), vec![0.0, 6.0, 12.0]);
}

#[test]
fn test_vod_playlist_keyframe_based() {
    // Keyframes at 6.2, 11.9, 18.1 are nearest to the boundaries at 6, 12 and 18.
    let kfs: Vec<u128> = [1.0, 3.5, 6.2, 9.0, 11.9, 14.2, 18.1, 21.0].iter().map(|&t| ns(t)).collect();
    let (pl, starts) = generate_vod_playlist(ns(24.0), 6, HlsSegmentType::Mpegts, Some(&kfs));
    assert!(pl.contains("#EXT-X-PLAYLIST-TYPE:VOD"));
    // Segments: [0, 6.2), [6.2, 11.9), [11.9, 18.1), [18.1, 24)
    assert_eq!(secs(&starts), vec![0.0, 6.2, 11.9, 18.1]);
    assert!(pl.contains("00000.ts"));
    assert!(pl.contains("00001.ts"));
    assert!(pl.contains("00002.ts"));
    assert!(pl.contains("00003.ts"));
    assert!(!pl.contains("00004.ts"));
    assert!(pl.contains("#EXT-X-ENDLIST"));
}

#[test]
fn test_needs_transcode() {
    assert!(needs_audio_transcode(Some("ac3")));
    assert!(needs_audio_transcode(Some("truehd")));
    assert!(needs_audio_transcode(Some("DTS")));
    assert!(needs_audio_transcode(Some("pcm_s16le")));
    assert!(!needs_audio_transcode(Some("aac")));
    assert!(!needs_audio_transcode(Some("mp3")));
    assert!(!needs_audio_transcode(Some("opus")));
}

fn capabilities(nvenc: bool) -> HwCapabilities {
    HwCapabilities {
        has_nvenc: nvenc,
        has_nvenc_hevc: nvenc,
        has_cuvid: nvenc,
        has_cuda_full: nvenc,
        has_bwdif_cuda: false,
        cuvid_hw_codecs: vec![],
        has_vaapi: false,
        has_vaapi_full: false,
        has_vaapi_hevc: false,
        has_qsv: false,
        has_qsv_full: false,
        has_qsv_hevc: false,
        has_amf: false,
        has_amf_hevc: false,
        has_rkmpp: false,
        has_rkmpp_hevc: false,
        has_videotoolbox: false,
        has_videotoolbox_full: false,
        has_videotoolbox_hevc: false,
        has_videotoolbox_tonemap: false,
        has_tonemap: true,
        has_tonemapx: false,
        has_zscale: false,
        has_bwdif: true,
        has_libx265: true,
    }
}

fn answers(needs: bool) -> EncodingAnswers {
    EncodingAnswers {
        audio_needs_transcode: needs,
        audio_bitrate_kbps: 384,
        out_channels: 6,
        out_bitrate_kbps: 8000,
        target_encoder: None,
        aac_encoder: Some("libfdk_aac".to_string()),
        decoders: SourceDecoders { cuvid: true, videotoolbox: false, vaapi: false, qsv: false, amf: false },
        segment_frames: Some(150),
    }
}

fn stream(codec: &str, channels: Option<u32>) -> AudioStreamInfo {
    AudioStreamInfo {
        index: 1,
        codec: codec.to_string(),
        channels,
        language: None,
        title: None,
        bitrate: None,
        sample_rate: None,
        is_default: None,
    }
}

fn options(
    video: bool,
    audio: Option<bool>,
    hevc: bool,
    seek: Option<u128>,
    nvenc: bool,
    answers: &EncodingAnswers,
) -> TranscodeOptions {
    build_transcode_options(
        Some("/m/a.iso"),
        0,
        &[stream("ac3", Some(6))],
        "/tmp/out",
        SEGMENT_DURATION,
        seek,
        7,
        video,
        audio,
        None,
        None,
        false,
        hevc,
        Some("bluray"),
        &capabilities(nvenc),
        Platform::Linux,
        answers,
    )
}

#[test]
fn copies_are_transport_streams() {
    let o = options(false, None, true, None, true, &answers(true));
    assert_eq!(o.input, "bluray:/m/a.iso");
    assert_eq!(o.output, "/tmp/out/playlist.m3u8");
    assert_eq!(o.video_codec, "copy");
    assert_eq!(o.preset, "");
    assert_eq!((o.bitrate, o.video_filter, o.gop), (None, None, None));
    assert_eq!(o.hls.segment_pattern, "/tmp/out/%05d.ts");
    assert_eq!(o.hls.segment_type, HlsSegmentType::Mpegts);
    assert_eq!(o.hls.start_number, 7);
    assert_eq!(o.hls.segment_duration, 6);
    assert_eq!(o.hls.init_filename, "init.mp4");
    assert_eq!(o.hls.playlist_type, "vod");
    assert_eq!(o.audio_codec, "libfdk_aac");
    assert_eq!(o.audio_bitrate.as_deref(), Some("384k"));
    assert_eq!(o.audio_channels, Some(6));
    assert!(o.accurate_seek);
    assert_eq!(o.seek, None);
}

#[test]
fn encoded_video_takes_the_selected_backend() {
    let o = options(true, None, true, Some(5), true, &answers(true));
    assert_eq!(o.video_codec, "hevc_nvenc");
    assert_eq!(o.bitrate.as_deref(), Some("8000k"));
    assert_eq!(o.bufsize.as_deref(), Some("16000k"));
    assert_eq!(o.gop, Some(150));
    assert_eq!(o.decode.as_deref(), Some("cuda"));
    assert!(o.use_cuvid);
    assert_eq!(o.hls.segment_pattern, "/tmp/out/%05d.tokimo");
    assert!(o.accurate_seek);
    assert_eq!(o.seek, Some(5));
    let o = options(true, Some(false), false, Some(5), true, &answers(true));
    assert_eq!(o.video_codec, "h264_nvenc");
    assert_eq!(o.audio_codec, "copy");
    assert_eq!((o.audio_bitrate, o.audio_channels), (None, None));
    assert!(!o.accurate_seek);
    let o = options(true, None, false, None, false, &answers(false));
    assert_eq!(o.video_codec, "libx264");
    assert_eq!(o.crf, Some(23));
    assert_eq!(o.force_key_frames_interval, Some(6));
    assert_eq!(o.audio_codec, "copy");
    let o = options(true, Some(true), true, None, false, &answers(false));
    assert_eq!(o.video_codec, "libx265");
    assert_eq!(o.audio_codec, "libfdk_aac");
}

#[test]
fn audio_encoders_fall_back() {
    let mut a = answers(true);
    a.target_encoder = Some("libopus".to_string());
    assert_eq!(options(false, None, true, None, false, &a).audio_codec, "libopus");
    a.target_encoder = None;
    a.aac_encoder = None;
    assert_eq!(options(false, None, true, None, false, &a).audio_codec, "aac");
}

#[test]
fn inputs_and_missing_streams() {
    let o = build_transcode_options(
        None,
        3,
        &[stream("aac", None)],
        "/o",
        6,
        None,
        0,
        false,
        None,
        None,
        None,
        false,
        true,
        Some("bluray"),
        &capabilities(false),
        Platform::Other,
        &answers(false),
    );
    assert_eq!(o.input, "");
    // Without the stream that is asked for, audio is encoded.
    assert_eq!(o.audio_codec, "libfdk_aac");
    let o = build_transcode_options(
        Some("/m/a.mkv"),
        0,
        &[stream("aac", None)],
        "/o",
        6,
        None,
        0,
        false,
        None,
        None,
        None,
        false,
        true,
        Some("dvd"),
        &capabilities(false),
        Platform::Other,
        &answers(false),
    );
    assert_eq!(o.input, "/m/a.mkv");
    assert_eq!(o.audio_codec, "copy");
}

#[test]
fn the_encoding_library_is_asked_what_is_open() {
    let streams = [stream("dts", Some(8)), stream("aac", None)];
    let q = encoding_questions(0, &streams, true, None, Some("opus"), None, Some(9_000_000), true);
    assert_eq!(q.audio_codec.as_deref(), Some("dts"));
    assert_eq!(q.channels, 8);
    assert_eq!(q.target_audio_codec.as_deref(), Some("opus"));
    let b = q.bitrate.unwrap();
    assert_eq!(b.source_bitrate, Some(9_000_000));
    assert_eq!(b.source_codec, "hevc");
    assert_eq!(b.output_codec, "hevc");
    let q = encoding_questions(1, &streams, true, Some(true), None, Some("av1"), None, false);
    assert_eq!(q.audio_codec, None);
    assert_eq!(q.channels, 2);
    let b = q.bitrate.unwrap();
    assert_eq!(b.source_codec, "av1");
    assert_eq!(b.output_codec, "h264");
    let q = encoding_questions(2, &streams, false, None, None, None, None, true);
    assert_eq!(q.audio_codec, None);
    assert_eq!(q.channels, 2);
    assert!(q.bitrate.is_none());
    assert_eq!(segment_type_for(true), HlsSegmentType::Fmp4);
    assert_eq!(segment_type_for(false), HlsSegmentType::Mpegts);
}

#[test]
fn the_log_names_what_maps_tones() {
    let tm = TonemapOptions::default();
    let tm = Some(&tm);
    let mut caps = capabilities(true);
    assert_eq!(tonemap_path(None, HwBackend::Cuda, true, &caps), "");
    assert_eq!(tonemap_path(tm, HwBackend::Cuda, true, &caps), "cuda");
    assert_eq!(tonemap_path(tm, HwBackend::Cuda, false, &caps), "sw");
    assert_eq!(tonemap_path(tm, HwBackend::Vaapi, true, &caps), "sw");
    caps.has_zscale = true;
    assert_eq!(tonemap_path(tm, HwBackend::Software, false, &caps), "zscale");
    caps.has_tonemapx = true;
    assert_eq!(tonemap_path(tm, HwBackend::Amf, false, &caps), "tonemapx");
    caps.has_vaapi_full = true;
    caps.has_qsv_full = true;
    caps.has_videotoolbox_tonemap = true;
    assert_eq!(tonemap_path(tm, HwBackend::Vaapi, false, &caps), "vaapi");
    assert_eq!(tonemap_path(tm, HwBackend::Qsv, false, &caps), "qsv");
    assert_eq!(tonemap_path(tm, HwBackend::VideoToolbox, false, &caps), "videotoolbox");
    assert_eq!(tonemap_path(tm, HwBackend::Rkmpp, false, &caps), "tonemapx");
}

#[test]
fn the_log_shows_the_way_of_the_video() {
    let mut a = answers(false);
    let backend = backend_for(true, &capabilities(true));
    assert_eq!(backend, HwBackend::Cuda);
    let o = options(true, None, true, None, true, &a);
    assert_eq!(pipeline_path(true, &o, backend), "Cuda → cuda → hevc_nvenc [cuda]");
    a.decoders.cuvid = false;
    let o = options(true, None, false, None, true, &a);
    assert_eq!(pipeline_path(true, &o, backend), "SW → SW → h264_nvenc [cuda]");
    let backend = backend_for(true, &capabilities(false));
    let mut o = options(true, None, false, None, false, &a);
    assert_eq!(pipeline_path(true, &o, backend), "SW → SW → libx264 [software]");
    o.decode = Some("vaapi".to_string());
    assert_eq!(pipeline_path(true, &o, HwBackend::Vaapi), "vaapi → SW → libx264 [vaapi]");
    assert_eq!(backend_for(false, &capabilities(true)), HwBackend::Software);
    let o = options(false, None, false, None, true, &a);
    assert_eq!(pipeline_path(false, &o, HwBackend::Software), "");
}
