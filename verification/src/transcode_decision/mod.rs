//! Decides whether a media file can be played directly by the client or needs HLS
//! transcoding, and for what reason.
pub mod audio;
pub mod container;
pub mod helpers;
pub mod laws;
pub mod types;
pub mod video;

pub use audio::{audio_transcode_reason, needs_audio_transcode};
pub use container::{container_transcode_reason, needs_container_transcode};
pub use helpers::{is_audio_only_file, is_net_fs_source, video_profile_score};
pub use types::{AudioInfo, ClientProfile, FrameRateLimit, FrameRateNumbers, FrameRateText, H264Level};
pub use types::{VideoLevel, VideoStreamFields, VideoStreamInfo};
pub use video::{
    codec_tag_transcode_reason, is_hdr, needs_video_transcode, open_gop_transcode_reason, video_transcode_reason,
};
