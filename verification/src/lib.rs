//! Planning and bookkeeping for HLS transcoding sessions.
pub mod ffmpeg;
pub mod hw_detect;
pub mod json;
pub mod manager;
pub mod matroska;
pub mod number;
pub mod pipeline;
pub mod playlist;
pub mod segments;
pub mod session;
pub mod text;
pub mod transcode_decision;
pub mod types;

pub use hw_detect::{get_hw_capabilities, resolve_ffmpeg_binary, HwCapabilities};
pub use manager::HlsSessionManager;
pub use session::{HlsSession, SegmentWaitHandle};
pub use types::{CreateSessionRequest, HlsSessionInfo, PlaybackSnapshot};
