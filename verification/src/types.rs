//! What a session is asked for and what it reports.
use crate::number::Float;
use crate::text;
use vstd::prelude::*;
use vstd::string::*;

verus! {

/// One audio stream of a media file.
#[derive(Debug, Clone)]
pub struct AudioStreamInfo {
    pub index: u32,
    pub codec: String,
    pub channels: Option<u32>,
    pub language: Option<String>,
    pub title: Option<String>,
    pub bitrate: Option<u32>,
    pub sample_rate: Option<u32>,
    pub is_default: Option<bool>,
}

/// Options of the tone mapping from high to standard dynamic range.
#[derive(Debug, Clone)]
pub struct TonemapOptions {
    /// bt2390, hable, reinhard, mobius, clip, linear, gamma or none.
    pub algorithm: String,
    /// Peak brightness in nits.
    pub peak: Float,
    /// Desaturation; 0 is off.
    pub desat: Float,
    /// auto, max, rgb, lum or itp; auto is left out of the filter.
    pub mode: String,
    /// A parameter of the algorithm; 0 is left out of the filter.
    pub param: Float,
    /// auto, tv or pc; auto is left out of the filter.
    pub range: String,
}

impl Default for TonemapOptions {
    fn default() -> (r: TonemapOptions)
        ensures
            r.algorithm@ == ""@,
            r.mode@ == ""@,
            r.range@ == ""@,
            r.peak.bits == 0 && r.peak.text@ == "0"@,
            r.desat.bits == 0 && r.desat.text@ == "0"@,
            r.param.bits == 0 && r.param.text@ == "0"@,
    {
        TonemapOptions {
            algorithm: text::copy_text(""),
            peak: Float::new(0, "0"),
            desat: Float::new(0, "0"),
            mode: text::copy_text(""),
            param: Float::new(0, "0"),
            range: text::copy_text(""),
        }
    }
}

/// The algorithm where a request names none.
pub fn default_tonemap_algorithm() -> (r: String)
    ensures
        r@ == "bt2390"@,
{
    text::copy_text("bt2390")
}

/// The bit pattern of 100.
pub const HUNDRED: u64 = 0x4059_0000_0000_0000;

/// The peak brightness where a request states none: 100 nits.
pub fn default_tonemap_peak() -> (r: Float)
    ensures
        r.bits == HUNDRED,
        r.text@ == "100"@,
{
    Float::new(HUNDRED, "100")
}

/// The mode where a request names none.
pub fn default_tonemap_mode() -> (r: String)
    ensures
        r@ == "auto"@,
{
    text::copy_text("auto")
}

/// The range where a request names none.
pub fn default_tonemap_range() -> (r: String)
    ensures
        r@ == "auto"@,
{
    text::copy_text("auto")
}

/// What is known of a source that is read through callbacks and not from a local path.
#[derive(Debug, Clone)]
pub struct RemoteInput {
    pub filename_hint: Option<String>,
}

/// What a session is asked for.
#[derive(Debug, Clone)]
pub struct CreateSessionRequest {
    pub file_id: String,
    /// The path of a local file, read without callbacks.
    pub local_path: Option<String>,
    /// The duration of the media file in nanoseconds.
    pub duration_ns: u128,
    /// Which of the audio streams to take, counted from 0.
    pub audio_stream_index: u32,
    pub audio_streams: Vec<AudioStreamInfo>,
    /// Whether the video is encoded anew, and not copied.
    pub transcode_video: bool,
    /// Whether the audio is encoded anew; where absent, the codec decides.
    pub transcode_audio: Option<bool>,
    /// The codec of the audio that is encoded anew; where absent, aac.
    pub target_audio_codec: Option<String>,
    /// Used only where the video is encoded anew.
    pub tonemap: Option<TonemapOptions>,
    pub video_codec: Option<String>,
    pub video_width: Option<u32>,
    pub video_height: Option<u32>,
    /// The frame rate of the source.
    pub video_fps: Option<Float>,
    /// The bit rate of the source in bits per second.
    pub video_bitrate: Option<u64>,
    pub deinterlace: bool,
    pub user_id: Option<String>,
    pub video_item_id: Option<String>,
    pub episode_id: Option<String>,
    /// `bluray` or `dvd`, for disc images.
    pub iso_type: Option<String>,
    /// Where it is false, the output is never HEVC.
    pub client_supports_hevc: bool,
    pub direct_input: Option<RemoteInput>,
}

impl Default for CreateSessionRequest {
    fn default() -> (r: CreateSessionRequest)
        ensures
            r.file_id@ == ""@,
            r.local_path is None,
            r.duration_ns == 0,
            r.audio_stream_index == 0,
            r.audio_streams@.len() == 0,
            !r.transcode_video,
            r.transcode_audio is None,
            r.target_audio_codec is None,
            r.tonemap is None,
            r.video_codec is None,
            r.video_width is None,
            r.video_height is None,
            r.video_fps is None,
            r.video_bitrate is None,
            !r.deinterlace,
            r.user_id is None,
            r.video_item_id is None,
            r.episode_id is None,
            r.iso_type is None,
            r.client_supports_hevc,
            r.direct_input is None,
    {
        CreateSessionRequest {
            file_id: text::copy_text(""),
            local_path: None,
            duration_ns: 0,
            audio_stream_index: 0,
            audio_streams: Vec::new(),
            transcode_video: false,
            transcode_audio: None,
            target_audio_codec: None,
            tonemap: None,
            video_codec: None,
            video_width: None,
            video_height: None,
            video_fps: None,
            video_bitrate: None,
            deinterlace: false,
            user_id: None,
            video_item_id: None,
            episode_id: None,
            iso_type: None,
            client_supports_hevc: default_true(),
            direct_input: None,
        }
    }
}

/// Whether a client of which nothing is said decodes HEVC.
pub fn default_true() -> (r: bool)
    ensures
        r,
{
    true
}

/// The playback state of a session at one moment.
#[derive(Debug, Clone)]
pub struct PlaybackSnapshot {
    pub session_id: String,
    pub file_id: String,
    pub user_id: Option<String>,
    pub video_item_id: Option<String>,
    pub episode_id: Option<String>,
    /// The duration of the media file in nanoseconds.
    pub duration_ns: u128,
    /// The estimated playback position in seconds.
    pub position_secs: u64,
    /// What the progress is recorded under.
    pub client_name: &'static str,
}

/// How a client reaches a session.
#[derive(Debug, Clone)]
pub struct HlsSessionInfo {
    pub session_id: String,
    pub playlist_url: String,
}

/// Where a session stands.
#[derive(Debug, Clone, Copy, PartialEq, Eq, Structural)]
pub enum SessionState {
    Starting,
    Running,
    Finished,
    Failed,
    Stopped,
}

}
