//! What the transcoder is told to do for a session.
use crate::hw_detect::{HwCapabilities, Platform};
use crate::number;
use crate::pipeline;
use crate::pipeline::{build_pipeline, select_backend, HwBackend, PipelineConfig, PipelineParams};
use crate::pipeline::SourceDecoders;
use crate::text;
use crate::types::{AudioStreamInfo, TonemapOptions};
use vstd::prelude::*;
use vstd::string::*;

pub use crate::playlist::{compute_keyframe_segments, generate_vod_playlist, HlsSegmentType};

verus! {

broadcast use vstd::string::group_string_axioms;

/// The length of a segment in seconds.
pub const SEGMENT_DURATION: u32 = 6;

/// How the segments are written.
#[derive(Debug, Clone)]
pub struct HlsOptions {
    pub segment_duration: u32,
    pub segment_pattern: String,
    pub init_filename: String,
    pub playlist_type: String,
    pub start_number: u32,
    pub segment_type: HlsSegmentType,
}

/// What the transcoder is told to do.
#[derive(Debug, Clone)]
pub struct TranscodeOptions {
    pub input: String,
    pub output: String,
    pub video_codec: String,
    pub audio_codec: String,
    pub decode: Option<String>,
    pub filter_backend: Option<String>,
    pub preset: String,
    pub crf: Option<u32>,
    pub bitrate: Option<String>,
    /// In nanoseconds.
    pub seek: Option<u128>,
    pub video_filter: Option<String>,
    pub video_profile: Option<String>,
    pub maxrate: Option<String>,
    pub bufsize: Option<String>,
    pub gop: Option<i32>,
    pub keyint_min: Option<i32>,
    pub audio_bitrate: Option<String>,
    pub audio_channels: Option<i32>,
    pub hls: HlsOptions,
    /// In seconds.
    pub force_key_frames_interval: Option<u32>,
    pub accurate_seek: bool,
    /// Whether a named CUVID decoder is used.
    pub use_cuvid: bool,
}

// ── What the encoding library is asked ───────────────────────────────────────

/// What the bit rate of the output is computed from.
#[derive(Debug, Clone)]
pub struct BitrateQuestion {
    /// In bits per second.
    pub source_bitrate: Option<u64>,
    pub source_codec: String,
    pub output_codec: &'static str,
}

/// What the encoding library is asked before the options are built.
#[derive(Debug, Clone)]
pub struct EncodingQuestions {
    /// The codec of which it is asked whether it needs transcoding, where that is not settled.
    pub audio_codec: Option<String>,
    /// The number of channels that the audio output is computed from.
    pub channels: u32,
    /// What the bit rate of the video is computed from, where it is encoded anew.
    pub bitrate: Option<BitrateQuestion>,
    /// The codec for which an encoder is looked for, before aac.
    pub target_audio_codec: Option<String>,
}

/// What the encoding library answers.
#[derive(Debug, Clone)]
pub struct EncodingAnswers {
    /// Whether the codec that was asked about needs transcoding.
    pub audio_needs_transcode: bool,
    pub audio_bitrate_kbps: u32,
    pub out_channels: i32,
    pub out_bitrate_kbps: u64,
    /// The encoder for the target codec, where one was asked for and there is one.
    pub target_encoder: Option<String>,
    /// The encoder for aac, where there is one.
    pub aac_encoder: Option<String>,
    pub decoders: SourceDecoders,
    /// The number of frames in a segment, rounded up, where the frame rate is known.
    pub segment_frames: Option<i32>,
}

/// The chosen audio stream.
pub open spec fn chosen_audio(streams: Seq<AudioStreamInfo>, index: u32) -> Option<
    AudioStreamInfo,
> {
    if index < streams.len() {
        Some(streams[index as int])
    } else {
        None
    }
}

/// The number of channels of the chosen stream, 2 where it is unknown.
pub open spec fn source_channels(streams: Seq<AudioStreamInfo>, index: u32) -> u32 {
    match chosen_audio(streams, index) {
        Some(a) => match a.channels {
            Some(n) => n,
            None => 2,
        },
        None => 2,
    }
}

/// The codec that the bit rate of the output is computed for.
pub open spec fn output_codec(client_supports_hevc: bool) -> Seq<char> {
    if client_supports_hevc {
        "hevc"@
    } else {
        "h264"@
    }
}

fn chosen(streams: &[AudioStreamInfo], index: u32) -> (r: Option<&AudioStreamInfo>)
    ensures
        match r {
            Some(a) => chosen_audio(streams@, index) == Some(*a),
            None => chosen_audio(streams@, index) is None,
        },
{
    if (index as usize) < streams.len() {
        Some(&streams[index as usize])
    } else {
        None
    }
}

/// What the encoding library is asked: whether the codec of the chosen audio stream needs
/// transcoding, unless the caller has settled that or there is no such stream; the channels
/// of the output; the bit rate of the video, where it is encoded anew (the source is taken
/// to be HEVC where its codec is unknown); and an encoder for the target audio codec.
pub fn encoding_questions(
    audio_stream_index: u32,
    audio_streams: &[AudioStreamInfo],
    transcode_video: bool,
    transcode_audio_override: Option<bool>,
    target_audio_codec: Option<&str>,
    video_codec: Option<&str>,
    video_bitrate: Option<u64>,
    client_supports_hevc: bool,
) -> (r: EncodingQuestions)
    ensures
        text::opt_string(r.audio_codec) == match (
            transcode_audio_override,
            chosen_audio(audio_streams@, audio_stream_index),
        ) {
            (None, Some(a)) => Some(a.codec@),
            _ => None,
        },
        r.channels == source_channels(audio_streams@, audio_stream_index),
        match r.bitrate {
            Some(q) => {
                &&& transcode_video
                &&& q.source_bitrate == video_bitrate
                &&& q.source_codec@ == match video_codec {
                    Some(c) => c@,
                    None => "hevc"@,
                }
                &&& q.output_codec@ == output_codec(client_supports_hevc)
            },
            None => !transcode_video,
        },
        text::opt_string(r.target_audio_codec) == text::opt_text(target_audio_codec),
{
    let audio = chosen(audio_streams, audio_stream_index);
    let codec = match (transcode_audio_override, audio) {
        (None, Some(a)) => Some(text::copy_text(a.codec.as_str())),
        _ => None,
    };
    let channels: u32 = match audio {
        Some(a) => match a.channels {
            Some(n) => n,
            None => 2,
        },
        None => 2,
    };
    let bitrate = if transcode_video {
        Some(
            BitrateQuestion {
                source_bitrate: video_bitrate,
                source_codec: text::copy_text(
                    match video_codec {
                        Some(c) => c,
                        None => "hevc",
                    },
                ),
                output_codec: if client_supports_hevc {
                    "hevc"
                } else {
                    "h264"
                },
            },
        )
    } else {
        None
    };
    EncodingQuestions {
        audio_codec: codec,
        channels,
        bitrate,
        target_audio_codec: text::own_opt(target_audio_codec),
    }
}

// ── What the options say ─────────────────────────────────────────────────────

/// Whether the audio is encoded anew: as the caller says; else where there is no such stream,
/// or where its codec needs it.
pub open spec fn encodes_audio(
    settled: Option<bool>,
    audio: Option<AudioStreamInfo>,
    codec_needs: bool,
) -> bool {
    match settled {
        Some(b) => b,
        None => audio is None || codec_needs,
    }
}

/// What the transcoder reads: the local path, as a disc where it is the image of one.
pub open spec fn effective_input(local_path: Option<Seq<char>>, iso_type: Option<Seq<char>>) -> Seq<
    char,
> {
    match local_path {
        Some(path) => if iso_type == Some("bluray"@) {
            "bluray:"@ + path
        } else {
            path
        },
        None => ""@,
    }
}

/// The container of the segments: fragments of MP4 where the video is encoded anew, else
/// transport streams, whose timestamps clients keep in step after a seek.
pub open spec fn container_of(transcode_video: bool) -> HlsSegmentType {
    if transcode_video {
        HlsSegmentType::Fmp4
    } else {
        HlsSegmentType::Mpegts
    }
}

/// The container of the segments.
pub fn segment_type_for(transcode_video: bool) -> (r: HlsSegmentType)
    ensures
        r == container_of(transcode_video),
{
    if transcode_video {
        HlsSegmentType::Fmp4
    } else {
        HlsSegmentType::Mpegts
    }
}

/// The audio encoder: that for the target codec, else that for aac, else aac itself.
pub open spec fn audio_encoder(target: Option<Seq<char>>, aac: Option<Seq<char>>) -> Seq<char> {
    match target {
        Some(e) => e,
        None => match aac {
            Some(e) => e,
            None => "aac"@,
        },
    }
}

/// Whether the video part of the options is what the pipeline says, or a copy where there is
/// none.
pub open spec fn video_part(r: TranscodeOptions, pipe: Option<pipeline::ConfigView>) -> bool {
    match pipe {
        Some(p) => {
            &&& r.video_codec@ == p.encoder
            &&& r.preset@ == p.preset
            &&& r.crf == p.crf
            &&& text::opt_string(r.bitrate) == p.bitrate
            &&& text::opt_string(r.maxrate) == p.maxrate
            &&& text::opt_string(r.bufsize) == p.bufsize
            &&& text::opt_string(r.video_profile) == p.profile
            &&& r.gop == p.gop
            &&& r.keyint_min == p.keyint_min
            &&& r.force_key_frames_interval == p.force_kf
            &&& text::opt_string(r.video_filter) == p.video_filter
            &&& text::opt_string(r.decode) == p.decode
            &&& text::opt_string(r.filter_backend) == p.filter_backend
            &&& r.use_cuvid == p.use_cuvid
        },
        None => {
            &&& r.video_codec@ == "copy"@
            &&& r.preset@ == ""@
            &&& r.crf is None
            &&& r.bitrate is None
            &&& r.maxrate is None
            &&& r.bufsize is None
            &&& r.video_profile is None
            &&& r.gop is None
            &&& r.keyint_min is None
            &&& r.force_key_frames_interval is None
            &&& r.video_filter is None
            &&& r.decode is None
            &&& r.filter_backend is None
            &&& !r.use_cuvid
        },
    }
}

/// Whether the audio part of the options is as it must be.
pub open spec fn audio_part(r: TranscodeOptions, encodes: bool, answers: EncodingAnswers) -> bool {
    if encodes {
        &&& r.audio_codec@ == audio_encoder(
            text::opt_string(answers.target_encoder),
            text::opt_string(answers.aac_encoder),
        )
        &&& text::opt_string(r.audio_bitrate) == Some(
            pipeline::kbps(answers.audio_bitrate_kbps as nat),
        )
        &&& r.audio_channels == Some(answers.out_channels)
    } else {
        &&& r.audio_codec@ == "copy"@
        &&& r.audio_bitrate is None
        &&& r.audio_channels is None
    }
}

/// Whether the options for the segments are as they must be.
pub open spec fn hls_part(
    r: HlsOptions,
    output_dir: Seq<char>,
    segment_duration: u32,
    start_segment: u32,
    transcode_video: bool,
) -> bool {
    &&& r.segment_duration == segment_duration
    &&& r.segment_pattern@ == output_dir + "/%05d."@ + container_of(transcode_video).ext()
    &&& r.init_filename@ == "init.mp4"@
    &&& r.playlist_type@ == "vod"@
    &&& r.start_number == start_segment
    &&& r.segment_type == container_of(transcode_video)
}

/// What the pipeline is built from where the backend is `backend`.
pub open spec fn pipeline_params<'a>(
    caps: &'a HwCapabilities,
    platform: Platform,
    backend: HwBackend,
    answers: EncodingAnswers,
    video_bitrate: Option<u64>,
    segment_duration: u32,
    deinterlace: bool,
    tonemap: Option<&'a TonemapOptions>,
    client_supports_hevc: bool,
) -> PipelineParams<'a> {
    PipelineParams {
        caps,
        platform,
        backend,
        decoders: answers.decoders,
        segment_frames: answers.segment_frames,
        video_bitrate,
        target_video_bitrate: None,
        segment_duration,
        deinterlace,
        tonemap,
        out_bitrate_kbps: answers.out_bitrate_kbps,
        use_hevc: client_supports_hevc,
    }
}

/// Whether the video part is that of a pipeline for the selected backend.
pub open spec fn video_part_encoded(
    r: TranscodeOptions,
    caps: &HwCapabilities,
    platform: Platform,
    answers: EncodingAnswers,
    video_bitrate: Option<u64>,
    segment_duration: u32,
    deinterlace: bool,
    tonemap: Option<&TonemapOptions>,
    client_supports_hevc: bool,
) -> bool {
    exists|backend: HwBackend|
        #[trigger] pipeline::is_selected(*caps, backend) && video_part(
            r,
            Some(
                pipeline::pipeline_config(
                    pipeline_params(
                        caps,
                        platform,
                        backend,
                        answers,
                        video_bitrate,
                        segment_duration,
                        deinterlace,
                        tonemap,
                        client_supports_hevc,
                    ),
                ),
            ),
        )
}

fn encoder_name(answers: &EncodingAnswers) -> (r: String)
    ensures
        r@ == audio_encoder(
            text::opt_string(answers.target_encoder),
            text::opt_string(answers.aac_encoder),
        ),
{
    match &answers.target_encoder {
        Some(e) => text::copy_text(e.as_str()),
        None => match &answers.aac_encoder {
            Some(e) => text::copy_text(e.as_str()),
            None => text::copy_text("aac"),
        },
    }
}

/// Whether the options tell the transcoder to do what is asked for. A seek is accurate only
/// where both the video and the audio are encoded anew, and the start of the file always is.
pub open spec fn tells(
    r: TranscodeOptions,
    local_path: Option<Seq<char>>,
    audio_stream_index: u32,
    audio_streams: Seq<AudioStreamInfo>,
    output_dir: Seq<char>,
    segment_duration: u32,
    seek: Option<u128>,
    start_segment: u32,
    transcode_video: bool,
    transcode_audio_override: Option<bool>,
    tonemap: Option<&TonemapOptions>,
    video_bitrate: Option<u64>,
    deinterlace: bool,
    client_supports_hevc: bool,
    iso_type: Option<Seq<char>>,
    caps: &HwCapabilities,
    platform: Platform,
    answers: EncodingAnswers,
) -> bool {
    let encodes = encodes_audio(
        transcode_audio_override,
        chosen_audio(audio_streams, audio_stream_index),
        answers.audio_needs_transcode,
    );
    &&& r.input@ == effective_input(local_path, iso_type)
    &&& r.output@ == output_dir + "/playlist.m3u8"@
    &&& if transcode_video {
        video_part_encoded(
            r,
            caps,
            platform,
            answers,
            video_bitrate,
            segment_duration,
            deinterlace,
            tonemap,
            client_supports_hevc,
        )
    } else {
        video_part(r, None)
    }
    &&& audio_part(r, encodes, answers)
    &&& hls_part(r.hls, output_dir, segment_duration, start_segment, transcode_video)
    &&& r.seek == seek
    &&& r.accurate_seek == (seek is None || (transcode_video && encodes))
}

/// Whether the bit rate of the output can be doubled, where the selected backend needs that.
pub open spec fn bitrate_usable(
    transcode_video: bool,
    caps: HwCapabilities,
    answers: EncodingAnswers,
) -> bool {
    transcode_video && !pipeline::is_selected(caps, HwBackend::Software)
        ==> answers.out_bitrate_kbps * 2 <= u64::MAX
}

/// The backend of a session: the selected one, or software where the video is copied.
pub fn backend_for(transcode_video: bool, caps: &HwCapabilities) -> (r: HwBackend)
    ensures
        if transcode_video {
            pipeline::is_selected(*caps, r)
        } else {
            r == HwBackend::Software
        },
{
    if transcode_video {
        select_backend(caps)
    } else {
        HwBackend::Software
    }
}

/// Builds what the transcoder is told to do for a session. `answers` is what the encoding
/// library answers to `encoding_questions`.
pub fn build_transcode_options(
    local_path: Option<&str>,
    audio_stream_index: u32,
    audio_streams: &[AudioStreamInfo],
    output_dir: &str,
    segment_duration: u32,
    seek: Option<u128>,
    start_segment: u32,
    transcode_video: bool,
    transcode_audio_override: Option<bool>,
    tonemap: Option<&TonemapOptions>,
    video_bitrate: Option<u64>,
    deinterlace: bool,
    client_supports_hevc: bool,
    iso_type: Option<&str>,
    caps: &HwCapabilities,
    platform: Platform,
    answers: &EncodingAnswers,
) -> (r: TranscodeOptions)
    requires
        bitrate_usable(transcode_video, *caps, *answers),
    ensures
        tells(
            r,
            text::opt_text(local_path),
            audio_stream_index,
            audio_streams@,
            output_dir@,
            segment_duration,
            seek,
            start_segment,
            transcode_video,
            transcode_audio_override,
            tonemap,
            video_bitrate,
            deinterlace,
            client_supports_hevc,
            text::opt_text(iso_type),
            caps,
            platform,
            *answers,
        ),
{
    let audio = chosen(audio_streams, audio_stream_index);
    let transcode_audio = match transcode_audio_override {
        Some(b) => b,
        None => audio.is_none() || answers.audio_needs_transcode,
    };
    let input = match local_path {
        Some(path) => {
            let bluray = match iso_type {
                Some(t) => text::same_text(t, "bluray"),
                None => false,
            };
            if bluray {
                text::join2("bluray:", path)
            } else {
                text::copy_text(path)
            }
        },
        None => text::copy_text(""),
    };
    let segment_type = segment_type_for(transcode_video);
    let hls = HlsOptions {
        segment_duration,
        segment_pattern: text::join3(output_dir, "/%05d.", segment_type.extension()),
        init_filename: text::copy_text("init.mp4"),
        playlist_type: text::copy_text("vod"),
        start_number: start_segment,
        segment_type,
    };
    let accurate_seek = match seek {
        Some(_) => transcode_video && transcode_audio,
        None => true,
    };
    let audio_codec = if transcode_audio {
        encoder_name(answers)
    } else {
        text::copy_text("copy")
    };
    let audio_bitrate = if transcode_audio {
        Some(pipeline::kbps_text(answers.audio_bitrate_kbps as u64))
    } else {
        None
    };
    let audio_channels = if transcode_audio {
        Some(answers.out_channels)
    } else {
        None
    };
    let output = text::join2(output_dir, "/playlist.m3u8");
    let backend = backend_for(transcode_video, caps);
    let pipe = if transcode_video {
        proof {
            if backend == HwBackend::Software {
                assert(pipeline::is_selected(*caps, HwBackend::Software));
            } else {
                pipeline::selection_is_unique(*caps, backend, HwBackend::Software);
            }
        }
        build_pipeline(
            &PipelineParams {
                caps,
                platform,
                backend,
                decoders: answers.decoders,
                segment_frames: answers.segment_frames,
                video_bitrate,
                target_video_bitrate: None,
                segment_duration,
                deinterlace,
                tonemap,
                out_bitrate_kbps: answers.out_bitrate_kbps,
                use_hevc: client_supports_hevc,
            },
        )
    } else {
        PipelineConfig {
            encoder: text::copy_text("copy"),
            preset: text::copy_text(""),
            bitrate: None,
            maxrate: None,
            bufsize: None,
            crf: None,
            profile: None,
            force_kf: None,
            gop: None,
            keyint_min: None,
            decode: None,
            filter_backend: None,
            video_filter: None,
            use_cuvid: false,
        }
    };
    TranscodeOptions {
        input,
        output,
        video_codec: pipe.encoder,
        audio_codec,
        decode: pipe.decode,
        filter_backend: pipe.filter_backend,
        preset: pipe.preset,
        crf: pipe.crf,
        bitrate: pipe.bitrate,
        seek,
        video_filter: pipe.video_filter,
        video_profile: pipe.profile,
        maxrate: pipe.maxrate,
        bufsize: pipe.bufsize,
        gop: pipe.gop,
        keyint_min: pipe.keyint_min,
        audio_bitrate,
        audio_channels,
        hls,
        force_key_frames_interval: pipe.force_kf,
        accurate_seek,
        use_cuvid: pipe.use_cuvid,
    }
}

// ── What the log says ────────────────────────────────────────────────────────

/// What maps tones, as the log names it; nothing where no tones are mapped.
pub open spec fn tonemap_path_of(
    tonemap: Option<&TonemapOptions>,
    backend: HwBackend,
    use_cuvid: bool,
    caps: HwCapabilities,
) -> Seq<char> {
    if tonemap is None {
        ""@
    } else if backend == HwBackend::Cuda && use_cuvid && caps.has_cuda_full {
        "cuda"@
    } else if backend == HwBackend::Vaapi && caps.has_vaapi_full {
        "vaapi"@
    } else if backend == HwBackend::Qsv && caps.has_qsv_full {
        "qsv"@
    } else if backend == HwBackend::VideoToolbox && caps.has_videotoolbox_tonemap {
        "videotoolbox"@
    } else if caps.has_tonemapx {
        "tonemapx"@
    } else if caps.has_zscale {
        "zscale"@
    } else {
        "sw"@
    }
}

/// What maps tones, as the log names it; nothing where no tones are mapped.
pub fn tonemap_path(
    tonemap: Option<&TonemapOptions>,
    backend: HwBackend,
    use_cuvid: bool,
    caps: &HwCapabilities,
) -> (r: &'static str)
    ensures
        r@ == tonemap_path_of(tonemap, backend, use_cuvid, *caps),
{
    if tonemap.is_none() {
        ""
    } else if backend == HwBackend::Cuda && use_cuvid && caps.has_cuda_full {
        "cuda"
    } else if backend == HwBackend::Vaapi && caps.has_vaapi_full {
        "vaapi"
    } else if backend == HwBackend::Qsv && caps.has_qsv_full {
        "qsv"
    } else if backend == HwBackend::VideoToolbox && caps.has_videotoolbox_tonemap {
        "videotoolbox"
    } else if caps.has_tonemapx {
        "tonemapx"
    } else if caps.has_zscale {
        "zscale"
    } else {
        "sw"
    }
}

/// The name of the hardware, or that of software where there is none.
pub open spec fn or_software(name: Option<Seq<char>>) -> Seq<char> {
    match name {
        Some(n) => n,
        None => "SW"@,
    }
}

/// The way of the video through decoder, filters and encoder, with the backend, as the log
/// shows it; nothing where the video is copied.
pub open spec fn pipeline_path_of(
    transcode_video: bool,
    opts: TranscodeOptions,
    backend: HwBackend,
) -> Seq<char> {
    let decoder = if opts.use_cuvid {
        "Cuda"@
    } else {
        or_software(text::opt_string(opts.decode))
    };
    if transcode_video {
        decoder + " → "@ + or_software(text::opt_string(opts.filter_backend)) + " → "@
            + opts.video_codec@ + " ["@ + backend.name() + "]"@
    } else {
        ""@
    }
}

/// The way of the video through decoder, filters and encoder, with the backend, as the log
/// shows it; nothing where the video is copied.
pub fn pipeline_path(transcode_video: bool, opts: &TranscodeOptions, backend: HwBackend) -> (r:
    String)
    ensures
        r@ == pipeline_path_of(transcode_video, *opts, backend),
{
    if !transcode_video {
        return text::copy_text("");
    }
    let mut r = text::copy_text(
        if opts.use_cuvid {
            "Cuda"
        } else {
            match &opts.decode {
                Some(d) => d.as_str(),
                None => "SW",
            }
        },
    );
    r.append(" → ");
    r.append(
        match &opts.filter_backend {
            Some(f) => f.as_str(),
            None => "SW",
        },
    );
    r.append(" → ");
    r.append(opts.video_codec.as_str());
    r.append(" [");
    r.append(backend.label());
    r.append("]");
    r
}

// ── Laws ─────────────────────────────────────────────────────────────────────

/// A client that does not decode HEVC is given H.264 where the video is encoded anew; and
/// video that is not encoded anew is copied, in transport streams.
pub proof fn clients_get_what_they_decode(
    r: TranscodeOptions,
    local_path: Option<Seq<char>>,
    audio_stream_index: u32,
    audio_streams: Seq<AudioStreamInfo>,
    output_dir: Seq<char>,
    segment_duration: u32,
    seek: Option<u128>,
    start_segment: u32,
    transcode_video: bool,
    transcode_audio_override: Option<bool>,
    tonemap: Option<&TonemapOptions>,
    video_bitrate: Option<u64>,
    deinterlace: bool,
    client_supports_hevc: bool,
    iso_type: Option<Seq<char>>,
    caps: &HwCapabilities,
    platform: Platform,
    answers: EncodingAnswers,
)
    requires
        tells(
            r,
            local_path,
            audio_stream_index,
            audio_streams,
            output_dir,
            segment_duration,
            seek,
            start_segment,
            transcode_video,
            transcode_audio_override,
            tonemap,
            video_bitrate,
            deinterlace,
            client_supports_hevc,
            iso_type,
            caps,
            platform,
            answers,
        ),
    ensures
        transcode_video && !client_supports_hevc ==> pipeline::h264_encoders().contains(
            r.video_codec@,
        ),
        transcode_video ==> r.hls.segment_type == HlsSegmentType::Fmp4,
        !transcode_video ==> r.video_codec@ == "copy"@ && r.hls.segment_type
            == HlsSegmentType::Mpegts,
{
    if transcode_video {
        let backend = choose|backend: HwBackend|
            #[trigger] pipeline::is_selected(*caps, backend) && video_part(
                r,
                Some(
                    pipeline::pipeline_config(
                        pipeline_params(
                            caps,
                            platform,
                            backend,
                            answers,
                            video_bitrate,
                            segment_duration,
                            deinterlace,
                            tonemap,
                            client_supports_hevc,
                        ),
                    ),
                ),
            );
        pipeline::hevc_only_where_preferred_and_there(
            pipeline_params(
                caps,
                platform,
                backend,
                answers,
                video_bitrate,
                segment_duration,
                deinterlace,
                tonemap,
                client_supports_hevc,
            ),
        );
    }
}

/// What the caller has settled about the audio is carried out, whatever its codec.
pub proof fn settled_audio_is_carried_out(settled: bool, audio: Option<AudioStreamInfo>, needs: bool)
    ensures
        encodes_audio(Some(settled), audio, needs) == settled,
{
}


/// What the transcoder reads and where it writes: the local path, as a disc where it is the
/// image of a Blu-ray; the playlist and the segments with five digits in the output directory;
/// from the segment and the position that are asked for.
pub proof fn the_transcoder_reads_and_writes_as_asked_for(
    r: TranscodeOptions,
    local_path: Option<Seq<char>>,
    audio_stream_index: u32,
    audio_streams: Seq<AudioStreamInfo>,
    output_dir: Seq<char>,
    segment_duration: u32,
    seek: Option<u128>,
    start_segment: u32,
    transcode_video: bool,
    transcode_audio_override: Option<bool>,
    tonemap: Option<&TonemapOptions>,
    video_bitrate: Option<u64>,
    deinterlace: bool,
    client_supports_hevc: bool,
    iso_type: Option<Seq<char>>,
    caps: &HwCapabilities,
    platform: Platform,
    answers: EncodingAnswers,
)
    requires
        tells(
            r,
            local_path,
            audio_stream_index,
            audio_streams,
            output_dir,
            segment_duration,
            seek,
            start_segment,
            transcode_video,
            transcode_audio_override,
            tonemap,
            video_bitrate,
            deinterlace,
            client_supports_hevc,
            iso_type,
            caps,
            platform,
            answers,
        ),
    ensures
        local_path is None ==> r.input@ == ""@,
        local_path is Some && iso_type == Some("bluray"@) ==> r.input@ == "bluray:"@ + local_path->0,
        local_path is Some && iso_type != Some("bluray"@) ==> r.input@ == local_path->0,
        r.output@ == output_dir + "/playlist.m3u8"@,
        r.seek == seek,
        r.hls.start_number == start_segment,
        r.hls.segment_duration == segment_duration,
        r.hls.playlist_type@ == "vod"@,
        r.hls.init_filename@ == "init.mp4"@,
        transcode_video ==> r.hls.segment_type == HlsSegmentType::Fmp4
            && r.hls.segment_pattern@ == output_dir + "/%05d."@ + "tokimo"@,
        !transcode_video ==> r.hls.segment_type == HlsSegmentType::Mpegts
            && r.hls.segment_pattern@ == output_dir + "/%05d."@ + "ts"@,
{
}

/// The audio is encoded anew where the caller says so, or says nothing and there is no such
/// stream or its codec needs it; with the encoder for the target, else for aac, else aac. Else
/// it is copied. A seek is accurate where both video and audio are encoded anew.
pub proof fn audio_is_encoded_where_it_has_to_be(
    r: TranscodeOptions,
    local_path: Option<Seq<char>>,
    audio_stream_index: u32,
    audio_streams: Seq<AudioStreamInfo>,
    output_dir: Seq<char>,
    segment_duration: u32,
    seek: Option<u128>,
    start_segment: u32,
    transcode_video: bool,
    transcode_audio_override: Option<bool>,
    tonemap: Option<&TonemapOptions>,
    video_bitrate: Option<u64>,
    deinterlace: bool,
    client_supports_hevc: bool,
    iso_type: Option<Seq<char>>,
    caps: &HwCapabilities,
    platform: Platform,
    answers: EncodingAnswers,
)
    requires
        tells(
            r,
            local_path,
            audio_stream_index,
            audio_streams,
            output_dir,
            segment_duration,
            seek,
            start_segment,
            transcode_video,
            transcode_audio_override,
            tonemap,
            video_bitrate,
            deinterlace,
            client_supports_hevc,
            iso_type,
            caps,
            platform,
            answers,
        ),
    ensures
        ({
            let anew = transcode_audio_override == Some(true) || (transcode_audio_override is None
                && (audio_stream_index >= audio_streams.len() || answers.audio_needs_transcode));
            &&& !anew ==> r.audio_codec@ == "copy"@ && r.audio_bitrate is None
                && r.audio_channels is None
            &&& anew ==> {
                &&& answers.target_encoder is Some ==> r.audio_codec@ == answers.target_encoder->0@
                &&& answers.target_encoder is None && answers.aac_encoder is Some
                    ==> r.audio_codec@ == answers.aac_encoder->0@
                &&& answers.target_encoder is None && answers.aac_encoder is None
                    ==> r.audio_codec@ == "aac"@
                &&& r.audio_bitrate is Some && r.audio_bitrate->0@ == number::decimal(
                    answers.audio_bitrate_kbps as nat,
                ) + "k"@
                &&& r.audio_channels == Some(answers.out_channels)
            }
            &&& r.accurate_seek <==> seek is None || (transcode_video && anew)
        }),
{
}

/// Video that is encoded anew goes through the pipeline of the backend that is selected, which
/// is asked for the tone mapping and the deinterlacing of the request, for HEVC where the client
/// decodes it, and for the bit rate that the encoding library answers.
pub proof fn encoded_video_goes_through_the_pipeline(
    r: TranscodeOptions,
    local_path: Option<Seq<char>>,
    audio_stream_index: u32,
    audio_streams: Seq<AudioStreamInfo>,
    output_dir: Seq<char>,
    segment_duration: u32,
    seek: Option<u128>,
    start_segment: u32,
    transcode_video: bool,
    transcode_audio_override: Option<bool>,
    tonemap: Option<&TonemapOptions>,
    video_bitrate: Option<u64>,
    deinterlace: bool,
    client_supports_hevc: bool,
    iso_type: Option<Seq<char>>,
    caps: &HwCapabilities,
    platform: Platform,
    answers: EncodingAnswers,
    backend: HwBackend,
)
    requires
        tells(
            r,
            local_path,
            audio_stream_index,
            audio_streams,
            output_dir,
            segment_duration,
            seek,
            start_segment,
            transcode_video,
            transcode_audio_override,
            tonemap,
            video_bitrate,
            deinterlace,
            client_supports_hevc,
            iso_type,
            caps,
            platform,
            answers,
        ),
        transcode_video,
        pipeline::is_selected(*caps, backend),
    ensures
        ({
            let c = pipeline::pipeline_config(
                PipelineParams {
                    caps,
                    platform,
                    backend,
                    decoders: answers.decoders,
                    segment_frames: answers.segment_frames,
                    video_bitrate,
                    target_video_bitrate: None,
                    segment_duration,
                    deinterlace,
                    tonemap,
                    out_bitrate_kbps: answers.out_bitrate_kbps,
                    use_hevc: client_supports_hevc,
                },
            );
            &&& r.video_codec@ == c.encoder && r.preset@ == c.preset && r.crf == c.crf
            &&& text::opt_string(r.bitrate) == c.bitrate
            &&& text::opt_string(r.maxrate) == c.maxrate
            &&& text::opt_string(r.bufsize) == c.bufsize
            &&& text::opt_string(r.video_profile) == c.profile
            &&& r.gop == c.gop && r.keyint_min == c.keyint_min
            &&& r.force_key_frames_interval == c.force_kf
            &&& text::opt_string(r.video_filter) == c.video_filter
            &&& text::opt_string(r.decode) == c.decode
            &&& text::opt_string(r.filter_backend) == c.filter_backend
            &&& r.use_cuvid == c.use_cuvid
        }),
{
    let chosen = choose|chosen: HwBackend|
        #[trigger] pipeline::is_selected(*caps, chosen) && video_part(
            r,
            Some(
                pipeline::pipeline_config(
                    pipeline_params(
                        caps,
                        platform,
                        chosen,
                        answers,
                        video_bitrate,
                        segment_duration,
                        deinterlace,
                        tonemap,
                        client_supports_hevc,
                    ),
                ),
            ),
        );
    pipeline::selection_is_unique(*caps, chosen, backend);
}

/// Video that is not encoded anew is copied, with nothing asked of a decoder, a filter or an
/// encoder.
pub proof fn copied_video_is_left_alone(
    r: TranscodeOptions,
    local_path: Option<Seq<char>>,
    audio_stream_index: u32,
    audio_streams: Seq<AudioStreamInfo>,
    output_dir: Seq<char>,
    segment_duration: u32,
    seek: Option<u128>,
    start_segment: u32,
    transcode_video: bool,
    transcode_audio_override: Option<bool>,
    tonemap: Option<&TonemapOptions>,
    video_bitrate: Option<u64>,
    deinterlace: bool,
    client_supports_hevc: bool,
    iso_type: Option<Seq<char>>,
    caps: &HwCapabilities,
    platform: Platform,
    answers: EncodingAnswers,
)
    requires
        tells(
            r,
            local_path,
            audio_stream_index,
            audio_streams,
            output_dir,
            segment_duration,
            seek,
            start_segment,
            transcode_video,
            transcode_audio_override,
            tonemap,
            video_bitrate,
            deinterlace,
            client_supports_hevc,
            iso_type,
            caps,
            platform,
            answers,
        ),
    ensures
        !transcode_video ==> {
            &&& r.video_codec@ == "copy"@ && r.preset@ == ""@
            &&& r.crf is None && r.bitrate is None && r.maxrate is None && r.bufsize is None
            &&& r.video_profile is None && r.gop is None && r.keyint_min is None
            &&& r.force_key_frames_interval is None && r.video_filter is None
            &&& r.decode is None && r.filter_backend is None && !r.use_cuvid
        },
{
}

/// The number of channels is that of the chosen stream, or two where there is none or it is not
/// known; the bit rate is computed for HEVC where the client decodes it, else for H.264.
pub proof fn what_is_asked_of_the_encoding_library(
    streams: Seq<AudioStreamInfo>,
    index: u32,
    hevc: bool,
)
    ensures
        index < streams.len() ==> chosen_audio(streams, index) == Some(streams[index as int]),
        index >= streams.len() ==> chosen_audio(streams, index) is None,
        index < streams.len() && streams[index as int].channels is Some ==> source_channels(
            streams,
            index,
        ) == streams[index as int].channels->0,
        index >= streams.len() || streams[index as int].channels is None ==> source_channels(
            streams,
            index,
        ) == 2,
        output_codec(hevc) == if hevc {
            "hevc"@
        } else {
            "h264"@
        },
{
}

/// The log names what maps tones: the hardware where its filters do it all, else the best
/// filter there is.
pub proof fn the_log_names_what_maps_tones(
    tonemap: Option<&TonemapOptions>,
    backend: HwBackend,
    use_cuvid: bool,
    caps: HwCapabilities,
)
    ensures
        ({
            let named = tonemap_path_of(tonemap, backend, use_cuvid, caps);
            let by_hardware = {
                ||| backend == HwBackend::Cuda && use_cuvid && caps.has_cuda_full
                ||| backend == HwBackend::Vaapi && caps.has_vaapi_full
                ||| backend == HwBackend::Qsv && caps.has_qsv_full
                ||| backend == HwBackend::VideoToolbox && caps.has_videotoolbox_tonemap
            };
            &&& tonemap is None ==> named == ""@
            &&& tonemap is Some && by_hardware ==> named == match backend {
                HwBackend::Cuda => "cuda"@,
                HwBackend::Vaapi => "vaapi"@,
                HwBackend::Qsv => "qsv"@,
                _ => "videotoolbox"@,
            }
            &&& tonemap is Some && !by_hardware && caps.has_tonemapx ==> named == "tonemapx"@
            &&& tonemap is Some && !by_hardware && !caps.has_tonemapx && caps.has_zscale ==> named
                == "zscale"@
            &&& tonemap is Some && !by_hardware && !caps.has_tonemapx && !caps.has_zscale ==> named
                == "sw"@
        }),
{
}

/// The log shows decoder, filters and encoder, with SW for what no hardware does, and the
/// backend; nothing where the video is copied.
pub proof fn the_log_shows_the_way_of_the_video(opts: TranscodeOptions, backend: HwBackend)
    ensures
        pipeline_path_of(false, opts, backend) == ""@,
        ({
            let decoder = if opts.use_cuvid {
                "Cuda"@
            } else if opts.decode is Some {
                opts.decode->0@
            } else {
                "SW"@
            };
            let filters = if opts.filter_backend is Some {
                opts.filter_backend->0@
            } else {
                "SW"@
            };
            pipeline_path_of(true, opts, backend) == decoder + " → "@ + filters + " → "@
                + opts.video_codec@ + " ["@ + backend.name() + "]"@
        }),
{
}

}
