//! Tables of formats, and the questions asked of them.
use crate::text;
use vstd::prelude::*;

verus! {

/// The audio codecs that browsers can typically decode: the ones taken for granted where a
/// client reports none.
pub open spec fn browser_audio() -> Seq<Seq<char>> {
    seq!["aac"@, "mp3"@, "opus"@, "flac"@, "vorbis"@, "alac"@]
}

/// The containers that browsers can play directly, video and audio.
pub open spec fn browser_containers() -> Seq<Seq<char>> {
    seq![
        "mp4"@,
        "m4v"@,
        "webm"@,
        "mov"@,
        "m4a"@,
        "mp3"@,
        "ogg"@,
        "opus"@,
        "wav"@,
        "flac"@,
        "aac"@,
    ]
}

/// The source types that are network filesystems.
pub open spec fn net_fs_types() -> Seq<Seq<char>> {
    seq![
        "smb"@,
        "nfs"@,
        "webdav"@,
        "ftp"@,
        "sftp"@,
        "s3"@,
        "115cloud"@,
        "aliyundrive"@,
        "baidu_netdisk"@,
        "quark"@,
    ]
}

/// The containers whose H.264 streams typically use open groups of pictures.
pub open spec fn open_gop_containers() -> Seq<Seq<char>> {
    seq!["m2ts"@, "mts"@]
}

/// The H.264 profiles, from the least to the most demanding.
pub open spec fn h264_profiles() -> Seq<Seq<char>> {
    seq![
        "constrainedbaseline"@,
        "baseline"@,
        "extended"@,
        "main"@,
        "high"@,
        "progressivehigh"@,
        "constrainedhigh"@,
        "high10"@,
    ]
}

/// The HEVC profiles, from the least to the most demanding.
pub open spec fn hevc_profiles() -> Seq<Seq<char>> {
    seq!["main"@, "main10"@]
}

/// The place of a profile in the table of its codec, spelled without regard to case and
/// white space; -1 where the codec has no table or the table no such profile.
pub open spec fn profile_score(codec: Seq<char>, profile: Seq<char>) -> int {
    let name = text::without_white_space(text::lowercase(profile));
    if codec == "h264"@ {
        text::position(h264_profiles(), name)
    } else if codec == "hevc"@ {
        text::position(hevc_profiles(), name)
    } else {
        -1
    }
}

/// Whether browsers can typically decode the audio codec.
pub fn is_browser_audio(codec: &str) -> (r: bool)
    ensures
        r == browser_audio().contains(codec@),
{
    let list = ["aac", "mp3", "opus", "flac", "vorbis", "alac"];
    assert(text::literals(list@) =~= browser_audio());
    text::one_of(&list, codec)
}

/// Whether browsers can play the container directly.
pub fn is_browser_container(ext: &str) -> (r: bool)
    ensures
        r == browser_containers().contains(ext@),
{
    let list = [
        "mp4", "m4v", "webm", "mov", "m4a", "mp3", "ogg", "opus", "wav", "flac", "aac",
    ];
    assert(text::literals(list@) =~= browser_containers());
    text::one_of(&list, ext)
}

/// Whether H.264 streams in the container typically use open groups of pictures.
pub fn is_open_gop_container(ext: &str) -> (r: bool)
    ensures
        r == open_gop_containers().contains(ext@),
{
    let list = ["m2ts", "mts"];
    assert(text::literals(list@) =~= open_gop_containers());
    text::one_of(&list, ext)
}

/// Scores a video profile: its place in the table of the codec, or -1.
pub fn video_profile_score(codec: &str, profile: &str) -> (r: i32)
    ensures
        r == profile_score(codec@, profile@),
        r >= -1,
{
    let lower = profile.to_lowercase();
    let name = text::drop_white_space(lower.as_str());
    if text::same_text(codec, "h264") {
        let list = [
            "constrainedbaseline", "baseline", "extended", "main", "high", "progressivehigh",
            "constrainedhigh", "high10",
        ];
        assert(text::literals(list@) =~= h264_profiles());
        text::position_in(&list, name.as_str())
    } else if text::same_text(codec, "hevc") {
        let list = ["main", "main10"];
        assert(text::literals(list@) =~= hevc_profiles());
        text::position_in(&list, name.as_str())
    } else {
        -1
    }
}

/// Whether the file has no video stream: no video codec, or an audio media type.
pub fn is_audio_only_file(video_codec: Option<&str>, mime_type: Option<&str>) -> (r: bool)
    ensures
        r == (video_codec is None || (mime_type matches Some(mime) && "audio/"@.is_prefix_of(
            mime@,
        ))),
{
    if video_codec.is_none() {
        return true;
    }
    match mime_type {
        Some(mime) => text::begins_with(mime, "audio/"),
        None => false,
    }
}

/// Whether the source type is a network filesystem.
pub fn is_net_fs_source(source_type: &str) -> (r: bool)
    ensures
        r == net_fs_types().contains(source_type@),
{
    let list = [
        "smb", "nfs", "webdav", "ftp", "sftp", "s3", "115cloud", "aliyundrive", "baidu_netdisk",
        "quark",
    ];
    assert(text::literals(list@) =~= net_fs_types());
    text::one_of(&list, source_type)
}

}
