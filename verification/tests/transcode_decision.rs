use serde_json::Value;
use tokimo_package_hls::number::Float;
use tokimo_package_hls::transcode_decision::{
    audio_transcode_reason, codec_tag_transcode_reason, container_transcode_reason, is_audio_only_file, is_hdr,
    is_net_fs_source, needs_audio_transcode, needs_container_transcode, needs_video_transcode,
    open_gop_transcode_reason, video_profile_score, video_transcode_reason, AudioInfo, ClientProfile, FrameRateLimit,
    FrameRateNumbers, FrameRateText, H264Level, VideoLevel, VideoStreamInfo,
};

fn float(x: f64) -> Float {
    Float::new(x.to_bits(), &x.to_string())
}

fn limit(x: f64) -> FrameRateLimit {
    FrameRateLimit { value: float(x), tolerated: float(x + 0.05) }
}

fn h264(x: f64) -> H264Level {
    H264Level { value: float(x), tenth: float(x / 10.0) }
}

fn strings(list: &[&str]) -> Vec<String> {
    list.iter().map(|s| s.to_string()).collect()
}

fn parsed(vc: &str, vr: &str) -> ClientProfile {
    ClientProfile::parse(
        vc, vr, None, None, None, None, None, None, None, None, None, None, None, None, None, None, None, None, None,
        None,
    )
}

fn reason(codec: &str, vs: &VideoStreamInfo, profile: &ClientProfile) -> Option<String> {
    video_transcode_reason(Some(codec), &profile.supported_vc, None, None, vs, profile)
}

#[test]
fn profile_parameters_are_read() {
    let p = ClientProfile::parse(
        " h264, hevc ,,av1",
        "",
        Some(h264(5.1)),
        Some("153"),
        Some("20000000"),
        Some("1920"),
        Some("+1080"),
        Some("x"),
        Some(limit(60.0)),
        Some("0"),
        Some("HVC1, dvh1 ,"),
        Some("10"),
        Some("6"),
        Some("-1"),
        Some("48000"),
        Some(""),
        None,
        Some("19"),
        Some("High | Constrained Baseline|"),
        Some("Main|Main 10"),
    );
    assert_eq!(p.supported_vc, strings(&["h264", "hevc", "av1"]));
    assert_eq!(p.supported_range_types, strings(&["SDR"]));
    assert_eq!(p.max_hevc_level, Some(153));
    assert_eq!(p.max_bitrate, Some(20_000_000));
    assert_eq!(p.max_width, Some(1920));
    assert_eq!(p.max_height, Some(1080));
    assert_eq!(p.max_ref_frames, None);
    assert!(!p.supports_anamorphic);
    assert_eq!(p.hevc_codec_tags, strings(&["hvc1", "dvh1"]));
    assert_eq!(p.max_video_bit_depth, Some(10));
    assert_eq!(p.max_audio_channels, Some(6));
    assert_eq!(p.max_audio_bitrate, Some(-1));
    assert_eq!(p.max_audio_sample_rate, Some(48000));
    assert_eq!(p.max_audio_bit_depth, None);
    assert_eq!(p.max_av1_level, Some(19));
    assert_eq!(p.h264_profiles, strings(&["high", "constrainedbaseline"]));
    assert_eq!(p.hevc_profiles, strings(&["main", "main10"]));
    assert_eq!(p.max_h264_level.as_ref().map(|l| l.value.text.as_str()), Some("5.1"));
}

#[test]
fn range_types_are_read_or_standard() {
    assert_eq!(parsed("", "").supported_range_types, strings(&["SDR"]));
    assert_eq!(parsed("", "SDR, HDR10").supported_range_types, strings(&["SDR", "HDR10"]));
    assert_eq!(parsed("", ",").supported_range_types, strings(&[]));
    assert!(parsed("", "").supports_anamorphic);
}

#[test]
fn codec_must_be_listed() {
    let vs = VideoStreamInfo::default();
    let p = parsed("h264,vp9", "");
    assert_eq!(
        reason("hevc", &vs, &p).as_deref(),
        Some("VideoCodecNotSupported (source=hevc, client supports=[h264,vp9])")
    );
    assert_eq!(reason("vp9", &vs, &p), None);
    let bare = ClientProfile::default();
    assert_eq!(
        reason("av1", &vs, &bare).as_deref(),
        Some("VideoCodecNotSupported (source=av1, client supports=[h264])")
    );
    assert_eq!(reason("h264", &vs, &bare), None);
    assert_eq!(video_transcode_reason(None, &[], None, None, &vs, &bare), None);
    assert!(needs_video_transcode(Some("hevc"), &p.supported_vc, None, None, &vs, &p));
    assert!(!needs_video_transcode(Some("h264"), &p.supported_vc, None, None, &vs, &p));
    assert!(!needs_video_transcode(None, &p.supported_vc, None, None, &vs, &p));
}

#[test]
fn interlaced_and_anamorphic_video() {
    let mut p = ClientProfile::default();
    let interlaced = VideoStreamInfo { is_interlaced: Some(true), ..Default::default() };
    assert_eq!(reason("h264", &interlaced, &p).as_deref(), Some("InterlacedVideoNotSupported"));
    let anamorphic = VideoStreamInfo { is_anamorphic: Some(true), ..Default::default() };
    assert_eq!(reason("h264", &anamorphic, &p), None);
    p.supports_anamorphic = false;
    assert_eq!(reason("h264", &anamorphic, &p).as_deref(), Some("AnamorphicVideoNotSupported"));
    let both = VideoStreamInfo { is_interlaced: Some(true), is_anamorphic: Some(true), ..Default::default() };
    assert_eq!(reason("h264", &both, &p).as_deref(), Some("InterlacedVideoNotSupported"));
}

#[test]
fn profiles_are_ranked() {
    assert_eq!(video_profile_score("h264", "Constrained Baseline"), 0);
    assert_eq!(video_profile_score("h264", "High"), 4);
    assert_eq!(video_profile_score("h264", "High 10"), 7);
    assert_eq!(video_profile_score("hevc", "Main 10"), 1);
    assert_eq!(video_profile_score("hevc", "Rext"), -1);
    assert_eq!(video_profile_score("vp9", "main"), -1);

    let vs = VideoStreamInfo::default();
    let with = |codec: &str, vp: &str, p: &ClientProfile| {
        video_transcode_reason(Some(codec), &p.supported_vc, Some(vp), None, &vs, p)
    };
    let mut p = parsed("h264,hevc,av1", "");
    assert_eq!(with("h264", "High", &p), None);
    assert_eq!(with("h264", "High 10", &p).as_deref(), Some("VideoProfileNotSupported (h264 profile=High 10)"));
    assert_eq!(with("hevc", "Main 10", &p), None);
    assert_eq!(with("hevc", "Rext", &p), None);
    p.h264_profiles = strings(&["main", "baseline"]);
    p.hevc_profiles = strings(&["main"]);
    assert_eq!(
        with("h264", "High", &p).as_deref(),
        Some("VideoProfileNotSupported (h264 profile=High, client max=[main,baseline])")
    );
    assert_eq!(
        with("hevc", "Main 10", &p).as_deref(),
        Some("VideoProfileNotSupported (hevc profile=Main 10, client max=[main])")
    );
    assert_eq!(with("h264", "Baseline", &p), None);
    p.h264_profiles = strings(&["unheard"]);
    assert_eq!(with("h264", "High 10", &p), None);
    assert_eq!(with("av1", "Main", &p), None);
    assert_eq!(with("av1", "", &p), None);
    assert_eq!(
        with("av1", "High", &p).as_deref(),
        Some("VideoProfileNotSupported (av1 profile=High, only 'main' supported)")
    );
}

#[test]
fn dynamic_ranges_fall_back() {
    let vs = VideoStreamInfo::default();
    let with = |hdr: &str, ranges: &str| {
        let p = parsed("h264", ranges);
        video_transcode_reason(Some("h264"), &p.supported_vc, None, Some(hdr), &vs, &p)
    };
    assert_eq!(with("SDR", "SDR"), None);
    assert_eq!(
        with("hdr10", "SDR").as_deref(),
        Some("VideoRangeTypeNotSupported (source=HDR10, client supports=[SDR])")
    );
    assert_eq!(with("HDR10Plus", "HDR10"), None);
    assert_eq!(with("hdr10_plus", "HLG").is_some(), true);
    assert_eq!(with("dovi", "DOVIWithHLG"), None);
    assert_eq!(with("dolby_vision_hdr10", "HDR10"), None);
    assert_eq!(with("dolby_vision_hdr10_plus", "HDR10Plus"), None);
    assert_eq!(with("dolby_vision_hlg", "HLG"), None);
    assert_eq!(with("dolby_vision_sdr", "SDR"), None);
    assert_eq!(
        with("dolby_vision_el", "HDR10").as_deref(),
        Some("VideoRangeTypeNotSupported (source=DOVIWithEL, client supports=[HDR10])")
    );
    assert_eq!(with("dolby_vision_el_hdr10_plus", "HDR10"), None);
    assert_eq!(with("dovi_invalid", "DOVI"), None);
    assert_eq!(with("hlg", "DOVIWithHLG"), None);
    assert_eq!(with("slog3", "SDR,SLOG3"), None);
    assert_eq!(
        with("slog3", "SDR").as_deref(),
        Some("VideoRangeTypeNotSupported (source=SLOG3, client supports=[SDR])")
    );
}

#[test]
fn upper_case_goes_beyond_ascii() {
    let p = parsed("h264", "SDR");
    let got =
        video_transcode_reason(Some("h264"), &p.supported_vc, None, Some("stra\u{df}e"), &VideoStreamInfo::default(), &p);
    assert_eq!(
        got.as_deref(),
        Some("VideoRangeTypeNotSupported (source=STRASSE, client supports=[SDR])")
    );
}

#[test]
fn bit_depths() {
    let mut p = parsed("h264,hevc", "");
    let ten = VideoStreamInfo { bit_depth: Some(10), ..Default::default() };
    assert_eq!(
        reason("h264", &ten, &p).as_deref(),
        Some("VideoBitDepthNotSupported (h264 10-bit, client lacks high 10)")
    );
    assert_eq!(reason("hevc", &ten, &p), None);
    p.h264_profiles = strings(&["high10"]);
    assert_eq!(reason("h264", &ten, &p), None);
    p.max_video_bit_depth = Some(8);
    assert_eq!(reason("hevc", &ten, &p).as_deref(), Some("VideoBitDepthNotSupported (hevc 10-bit > max=8)"));
}

#[test]
fn levels() {
    let level = |x: f64| VideoStreamInfo {
        level: Some(VideoLevel { level: h264(x), thirtyfold: (x * 30.0) as i32, whole: x as i32 }),
        ..Default::default()
    };
    let mut p = parsed("h264,hevc,av1,vp9", "");
    assert_eq!(reason("h264", &level(5.2), &p), None);
    assert_eq!(reason("h264", &level(52.0), &p), None);
    assert_eq!(
        reason("h264", &level(6.1), &p).as_deref(),
        Some("VideoLevelNotSupported (h264 level=6.1 > max=5.2)")
    );
    assert_eq!(
        reason("h264", &level(61.0), &p).as_deref(),
        Some("VideoLevelNotSupported (h264 level=6.1 > max=5.2)")
    );
    p.max_h264_level = Some(h264(41.0));
    assert_eq!(
        reason("h264", &level(4.2), &p).as_deref(),
        Some("VideoLevelNotSupported (h264 level=4.2 > max=4.1)")
    );
    assert_eq!(reason("hevc", &level(4.0), &p), None);
    assert_eq!(reason("hevc", &level(120.0), &p), None);
    assert_eq!(
        reason("hevc", &level(5.1), &p).as_deref(),
        Some("VideoLevelNotSupported (hevc level=153 > max=120)")
    );
    assert_eq!(
        reason("hevc", &level(153.0), &p).as_deref(),
        Some("VideoLevelNotSupported (hevc level=153 > max=120)")
    );
    assert_eq!(reason("av1", &level(99.0), &p), None);
    p.max_av1_level = Some(15);
    assert_eq!(
        reason("av1", &level(19.0), &p).as_deref(),
        Some("VideoLevelNotSupported (av1 level=19 > max=15)")
    );
    assert_eq!(reason("vp9", &level(999.0), &p), None);
    assert_eq!(reason("hevc", &level(f64::NAN), &p), None);
}

#[test]
fn limits_on_rate_and_size() {
    let mut p = ClientProfile::default();
    p.max_bitrate = Some(20_000_000);
    assert_eq!(
        reason("h264", &VideoStreamInfo::default(), &p).as_deref(),
        Some("VideoBitrateNotSupported (40000000 bps > max=20000000 bps)")
    );
    let slow = VideoStreamInfo { bitrate_kbps: Some(20_000), ..Default::default() };
    assert_eq!(reason("h264", &slow, &p), None);

    let mut p = parsed("h264,hevc", "");
    p.max_width = Some(1920);
    p.max_height = Some(1080);
    p.max_ref_frames = Some(4);
    p.max_framerate = Some(limit(60.0));
    p.hevc_max_framerate = Some(limit(30.0));
    let wide = VideoStreamInfo { width: Some(3840), height: Some(2160), ..Default::default() };
    assert_eq!(
        reason("h264", &wide, &p).as_deref(),
        Some("VideoResolutionNotSupported (width=3840 > max=1920)")
    );
    let high = VideoStreamInfo { width: Some(1080), height: Some(1920), ..Default::default() };
    assert_eq!(
        reason("h264", &high, &p).as_deref(),
        Some("VideoResolutionNotSupported (height=1920 > max=1080)")
    );
    let refs = VideoStreamInfo { ref_frames: Some(5), ..Default::default() };
    assert_eq!(reason("h264", &refs, &p).as_deref(), Some("RefFramesNotSupported (5 > max=4)"));
    let rate = |x: f64| VideoStreamInfo {
        frame_rate: Some(Float::new(x.to_bits(), &format!("{x:.2}"))),
        ..Default::default()
    };
    assert_eq!(reason("h264", &rate(60.04), &p), None);
    assert_eq!(
        reason("h264", &rate(120.0), &p).as_deref(),
        Some("VideoFramerateNotSupported (120.00 fps > max=60 fps)")
    );
    assert_eq!(
        reason("hevc", &rate(59.94), &p).as_deref(),
        Some("VideoFramerateNotSupported (HEVC 59.94 fps > max=30 fps)")
    );
    assert_eq!(reason("h264", &rate(59.94), &p), None);
}

#[test]
fn raised_limits_object_to_less() {
    let video = VideoStreamInfo {
        level: Some(VideoLevel { level: h264(5.0), thirtyfold: 150, whole: 5 }),
        bit_depth: Some(8),
        width: Some(1920),
        height: Some(1080),
        ref_frames: Some(4),
        frame_rate: Some(float(50.0)),
        bitrate_kbps: Some(8_000),
        ..Default::default()
    };
    let mut low = parsed("h264", "");
    low.max_h264_level = Some(h264(5.1));
    low.max_video_bit_depth = Some(8);
    low.max_width = Some(1920);
    low.max_height = Some(1080);
    low.max_ref_frames = Some(4);
    low.max_framerate = Some(limit(50.0));
    low.max_bitrate = Some(8_000_000);
    assert_eq!(reason("h264", &video, &low), None);
    let mut high = low.clone();
    high.max_h264_level = None;
    high.max_video_bit_depth = Some(10);
    high.max_width = Some(3840);
    high.max_height = None;
    high.max_ref_frames = Some(16);
    high.max_framerate = Some(limit(60.0));
    high.max_bitrate = None;
    assert_eq!(reason("h264", &video, &high), None);
    // A limit above the usual level is not raised by dropping it.
    let mut steep = video.clone();
    steep.level = Some(VideoLevel { level: h264(6.0), thirtyfold: 180, whole: 6 });
    low.max_h264_level = Some(h264(6.2));
    assert_eq!(reason("h264", &steep, &low), None);
    assert_eq!(
        reason("h264", &steep, &high).as_deref(),
        Some("VideoLevelNotSupported (h264 level=6 > max=5.2)")
    );
}

#[test]
fn floats_are_ordered_by_their_bits() {
    let values = [-2.5, -0.0, 0.0, 1e-300, 0.05, 5.1, 5.2, 60.0, 60.05, f64::INFINITY];
    for a in values {
        for b in values {
            assert_eq!(float(a).exceeds(&float(b)), a > b, "{a} {b}");
            assert_eq!(float(a).at_most(&float(b)), a <= b, "{a} {b}");
        }
        assert!(!float(a).at_most(&float(f64::NAN)));
        assert_eq!(float(a).nonzero(), a != 0.0);
        assert!(!float(f64::NAN).exceeds(&float(a)));
        assert!(!float(a).exceeds(&float(f64::NAN)));
    }
    assert!(float(f64::NAN).nonzero());
}

#[test]
fn high_dynamic_range_is_told_by_name() {
    assert!(is_hdr(Some("HDR10")));
    assert!(is_hdr(Some("dovi")));
    assert!(!is_hdr(Some("Sdr")));
    assert!(!is_hdr(Some("")));
    assert!(!is_hdr(None));
}

#[test]
fn codec_tags() {
    let mut p = ClientProfile::default();
    let none = VideoStreamInfo::default();
    let tagged = VideoStreamInfo { codec_tag: Some("HEV1".to_string()), ..Default::default() };
    assert_eq!(codec_tag_transcode_reason(Some("hevc"), &none, &p, "a.mp4"), None);
    p.hevc_codec_tags = strings(&["hvc1", "dvh1"]);
    assert_eq!(
        codec_tag_transcode_reason(Some("hevc"), &none, &p, "a.mp4").as_deref(),
        Some("VideoCodecTagNotSupported (tag unknown, client has requirements)")
    );
    assert_eq!(
        codec_tag_transcode_reason(Some("hevc"), &tagged, &p, "a.mp4").as_deref(),
        Some("VideoCodecTagNotSupported (tag=HEV1, client requires=[hvc1,dvh1])")
    );
    let good = VideoStreamInfo { codec_tag: Some("HVC1".to_string()), ..Default::default() };
    assert_eq!(codec_tag_transcode_reason(Some("hevc"), &good, &p, "a.mp4"), None);
    let raw = VideoStreamInfo { is_avc: Some(false), ..Default::default() };
    assert_eq!(
        codec_tag_transcode_reason(Some("h264"), &raw, &p, "/x/a.AVI").as_deref(),
        Some("VideoCodecTagNotSupported (h264 non-AVC in AVI)")
    );
    assert_eq!(codec_tag_transcode_reason(Some("h264"), &raw, &p, "/x/a.mkv"), None);
    assert_eq!(codec_tag_transcode_reason(None, &raw, &p, "/x/a.avi"), None);
}

#[test]
fn open_groups_of_pictures() {
    assert_eq!(
        open_gop_transcode_reason("/d/00001.M2TS", Some("H264")).as_deref(),
        Some("OpenGOP (m2ts H.264 non-IDR I-slices, MSE seek incompatible)")
    );
    assert!(open_gop_transcode_reason("a.mts", Some("h264")).is_some());
    assert_eq!(open_gop_transcode_reason("a.mts", Some("hevc")), None);
    assert_eq!(open_gop_transcode_reason("a.mp4", Some("h264")), None);
    assert_eq!(open_gop_transcode_reason("a.mts", None), None);
}

#[test]
fn audio_objections_come_in_order() {
    let mut p = ClientProfile::default();
    p.max_audio_bit_depth = Some(16);
    p.max_audio_channels = Some(2);
    p.max_audio_sample_rate = Some(48_000);
    p.max_audio_bitrate = Some(320_000);
    let with = |info: AudioInfo| audio_transcode_reason(Some("aac"), Some(&info), &p, &[]);
    assert_eq!(
        audio_transcode_reason(Some("dts"), None, &p, &[]).as_deref(),
        Some("AudioCodecNotSupported (dts)")
    );
    assert_eq!(audio_transcode_reason(Some("dts"), None, &p, &strings(&["dts"])), None);
    assert_eq!(
        audio_transcode_reason(Some("aac"), None, &p, &strings(&["dts"])).as_deref(),
        Some("AudioCodecNotSupported (aac)")
    );
    assert_eq!(audio_transcode_reason(None, None, &p, &[]), None);
    assert_eq!(with(AudioInfo::default()), None);
    assert_eq!(
        with(AudioInfo { bit_depth: Some(24), channels: Some(6), ..Default::default() }).as_deref(),
        Some("AudioBitDepthNotSupported (24-bit > max=16)")
    );
    assert_eq!(
        with(AudioInfo { channels: Some(0), ..Default::default() }).as_deref(),
        Some("AudioChannelsNotSupported (invalid: \u{2264}0)")
    );
    assert_eq!(
        with(AudioInfo { channels: Some(6), ..Default::default() }).as_deref(),
        Some("AudioChannelsNotSupported (6ch > max=2)")
    );
    assert_eq!(
        with(AudioInfo { sample_rate: Some(-1), ..Default::default() }).as_deref(),
        Some("AudioSampleRateNotSupported (invalid: \u{2264}0)")
    );
    assert_eq!(
        with(AudioInfo { sample_rate: Some(96_000), ..Default::default() }).as_deref(),
        Some("AudioSampleRateNotSupported (96000 > max=48000)")
    );
    assert_eq!(
        with(AudioInfo { bitrate: Some(640_000), ..Default::default() }).as_deref(),
        Some("AudioBitrateNotSupported (640000 > max=320000)")
    );
    assert_eq!(with(AudioInfo { profile: Some("HE-AAC".to_string()), ..Default::default() }), None);
    assert!(!needs_audio_transcode(None));
    assert!(!needs_audio_transcode(Some("flac")));
}

#[test]
fn containers() {
    assert!(!needs_container_transcode("/m/a.MP4", &[]));
    assert!(needs_container_transcode("/m/a.mkv", &[]));
    assert!(!needs_container_transcode("/m/a.mkv", &strings(&["mkv"])));
    assert!(needs_container_transcode("/m/a.mp4", &strings(&["mkv"])));
    assert!(!needs_container_transcode("/m/a.", &[]));
    assert_eq!(container_transcode_reason("/m/a.MKV", &[]).as_deref(), Some("mkv"));
    assert_eq!(container_transcode_reason("/m/a.webm", &[]), None);
    assert_eq!(container_transcode_reason("/m/a.", &[]), None);
    assert_eq!(container_transcode_reason("/m/noext", &[]).as_deref(), Some("/m/noext"));
    assert_eq!(container_transcode_reason("a.\u{c4}", &[]).as_deref(), Some("\u{e4}"));
    assert_eq!(container_transcode_reason("/m/a.mp4", &strings(&["mkv"])).as_deref(), Some("mp4"));
}

#[test]
fn kinds_of_files_and_sources() {
    assert!(is_audio_only_file(None, None));
    assert!(is_audio_only_file(Some("mjpeg"), Some("audio/flac")));
    assert!(!is_audio_only_file(Some("h264"), Some("video/mp4")));
    assert!(!is_audio_only_file(Some("h264"), None));
    assert!(is_net_fs_source("smb"));
    assert!(is_net_fs_source("115cloud"));
    assert!(!is_net_fs_source("local"));
    assert!(!is_net_fs_source("SMB"));
}

fn probe(text: &str) -> VideoStreamInfo {
    let value: Value = serde_json::from_str(text).unwrap();
    VideoStreamInfo::from_json(Some(&value), Some(float(23.976)), None)
}

#[test]
fn probed_streams_are_read() {
    let vs = probe(
        r#"{"field_order":"tt","pix_fmt":"yuv420p10le","bit_rate":"4500999","codec_tag_string":"hvc1",
            "sample_aspect_ratio":"4:3","width":1920,"height":1080,"avg_frame_rate":"24000/1001"}"#,
    );
    assert_eq!(vs.is_interlaced, Some(true));
    assert_eq!(vs.bit_depth, Some(10));
    assert_eq!(vs.bitrate_kbps, Some(4500));
    assert_eq!(vs.codec_tag.as_deref(), Some("hvc1"));
    assert_eq!(vs.is_anamorphic, Some(true));
    assert_eq!(vs.width, Some(1920));
    assert_eq!(vs.height, Some(1080));
    assert_eq!(vs.frame_rate.as_ref().map(|f| f.text.as_str()), Some("23.976"));
    assert!(vs.level.is_none());

    let vs = probe(
        r#"{"field_order":"progressive","bits_per_raw_sample":"8","pix_fmt":"p010le","bit_rate":-1999,
            "sample_aspect_ratio":"1:1"}"#,
    );
    assert_eq!(vs.is_interlaced, Some(false));
    assert_eq!(vs.bit_depth, Some(8));
    assert_eq!(vs.bitrate_kbps, Some(-1));
    assert_eq!(vs.is_anamorphic, Some(false));
    assert_eq!(vs.width, None);

    let vs = probe(r#"{"bits_per_raw_sample":"N/A","pix_fmt":"gbrp12be","width":"1920","bit_rate":1.5}"#);
    assert_eq!(vs.bit_depth, Some(12));
    assert_eq!(vs.width, None);
    assert_eq!(vs.bitrate_kbps, None);

    let none = VideoStreamInfo::from_json(None, None, None);
    assert_eq!(none.is_interlaced, None);
    assert_eq!(none.bit_depth, None);
    let list: Value = serde_json::from_str("[1,2]").unwrap();
    let none = VideoStreamInfo::from_json(Some(&list), None, None);
    assert_eq!(none.width, None);
    assert!(none.frame_rate.is_none());
}

#[test]
fn frame_rates_part_at_the_first_slash() {
    match FrameRateText::read("24000/1001/2") {
        FrameRateText::Ratio { numerator, denominator } => {
            assert_eq!(numerator, "24000");
            assert_eq!(denominator, "1001/2");
        }
        FrameRateText::Plain { .. } => unreachable!(),
    }
    match FrameRateText::read("25") {
        FrameRateText::Plain { number } => assert_eq!(number, "25"),
        FrameRateText::Ratio { .. } => unreachable!(),
    }
}

#[test]
fn frame_rates_are_quotients_or_numbers() {
    let ratio = |n: Option<f64>, d: Option<f64>| {
        VideoStreamInfo::parse_frame_rate(FrameRateNumbers::Ratio {
            numerator: n.map(float),
            denominator: d.map(float),
            quotient: float(n.unwrap_or(0.0) / d.unwrap_or(1.0)),
        })
        .map(|f| f.text)
    };
    assert_eq!(ratio(Some(50.0), Some(2.0)).as_deref(), Some("25"));
    assert_eq!(ratio(Some(0.0), Some(0.0)), None);
    assert_eq!(ratio(Some(1.0), Some(-1.0)), None);
    assert_eq!(ratio(None, Some(1.0)), None);
    assert_eq!(ratio(Some(1.0), None), None);
    assert_eq!(ratio(Some(1.0), Some(f64::NAN)), None);
    let plain = |n: Option<f64>| {
        VideoStreamInfo::parse_frame_rate(FrameRateNumbers::Plain { number: n.map(float) }).map(|f| f.text)
    };
    assert_eq!(plain(Some(24.0)).as_deref(), Some("24"));
    assert_eq!(plain(None), None);
}
