//! What the decisions come to, in terms of what is known of the stream and of the client.
use super::audio;
use super::container;
use super::helpers;
use super::types;
use super::types::{AudioInfo, ClientProfile, FrameRateNumbers, VideoStreamInfo};
use super::video;
use crate::json;
use crate::number;
use crate::number::Float;
use crate::text;
use vstd::prelude::*;

verus! {

// ── Tables ───────────────────────────────────────────────────────────────────

/// The audio codecs that are taken for granted where a client reports none are these six and
/// no other.
pub proof fn browsers_decode_six_audio_codecs(codec: Seq<char>)
    ensures
        helpers::browser_audio().contains(codec) <==> {
            ||| codec == "aac"@
            ||| codec == "mp3"@
            ||| codec == "opus"@
            ||| codec == "flac"@
            ||| codec == "vorbis"@
            ||| codec == "alac"@
        },
{
    let list = helpers::browser_audio();
    assert(list[0] == "aac"@ && list[1] == "mp3"@ && list[2] == "opus"@ && list[3] == "flac"@
        && list[4] == "vorbis"@ && list[5] == "alac"@);
}

/// The containers that are taken for granted where a client reports none are these eleven and
/// no other.
pub proof fn browsers_play_eleven_containers(ext: Seq<char>)
    ensures
        helpers::browser_containers().contains(ext) <==> {
            ||| ext == "mp4"@
            ||| ext == "m4v"@
            ||| ext == "webm"@
            ||| ext == "mov"@
            ||| ext == "m4a"@
            ||| ext == "mp3"@
            ||| ext == "ogg"@
            ||| ext == "opus"@
            ||| ext == "wav"@
            ||| ext == "flac"@
            ||| ext == "aac"@
        },
{
    let list = helpers::browser_containers();
    assert(list[0] == "mp4"@ && list[1] == "m4v"@ && list[2] == "webm"@ && list[3] == "mov"@
        && list[4] == "m4a"@ && list[5] == "mp3"@ && list[6] == "ogg"@ && list[7] == "opus"@
        && list[8] == "wav"@ && list[9] == "flac"@ && list[10] == "aac"@);
}

/// The network filesystems are these ten and no other.
pub proof fn network_filesystems_are_ten(source: Seq<char>)
    ensures
        helpers::net_fs_types().contains(source) <==> {
            ||| source == "smb"@
            ||| source == "nfs"@
            ||| source == "webdav"@
            ||| source == "ftp"@
            ||| source == "sftp"@
            ||| source == "s3"@
            ||| source == "115cloud"@
            ||| source == "aliyundrive"@
            ||| source == "baidu_netdisk"@
            ||| source == "quark"@
        },
{
    let list = helpers::net_fs_types();
    assert(list[0] == "smb"@ && list[1] == "nfs"@ && list[2] == "webdav"@ && list[3] == "ftp"@
        && list[4] == "sftp"@ && list[5] == "s3"@ && list[6] == "115cloud"@ && list[7]
        == "aliyundrive"@ && list[8] == "baidu_netdisk"@ && list[9] == "quark"@);
}

/// The containers known for open groups of pictures are these two and no other.
pub proof fn open_groups_stand_in_two_containers(ext: Seq<char>)
    ensures
        helpers::open_gop_containers().contains(ext) <==> ext == "m2ts"@ || ext == "mts"@,
{
    let list = helpers::open_gop_containers();
    assert(list[0] == "m2ts"@ && list[1] == "mts"@);
}

/// Texts that differ from one another stand at the places that the list gives them.
proof fn lemma_position(list: Seq<Seq<char>>, x: Seq<char>)
    ensures
        match text::position(list, x) {
            k => if k >= 0 {
                k < list.len() && list[k] == x && forall|i: int| 0 <= i < k ==> list[i] != x
            } else {
                k == -1 && forall|i: int| 0 <= i < list.len() ==> list[i] != x
            },
        },
    decreases list.len(),
{
    if list.len() > 0 {
        lemma_position(list.drop_last(), x);
        assert(forall|i: int| 0 <= i < list.len() - 1 ==> list.drop_last()[i] == list[i]);
    }
}

proof fn lemma_profiles_differ()
    ensures
        "constrainedbaseline"@.len() == 19,
        "baseline"@.len() == 8 && "baseline"@[0] == 'b',
        "extended"@.len() == 8 && "extended"@[0] == 'e',
        "main"@.len() == 4 && "main"@[0] == 'm',
        "high"@.len() == 4 && "high"@[0] == 'h',
        "progressivehigh"@.len() == 15 && "progressivehigh"@[0] == 'p',
        "constrainedhigh"@.len() == 15 && "constrainedhigh"@[0] == 'c',
        "high10"@.len() == 6 && "high10"@[0] == 'h',
        "main10"@.len() == 6 && "main10"@[0] == 'm',
        "h264"@ != "hevc"@,
        "h264"@ != "av1"@,
        "hevc"@ != "av1"@,
{
    reveal_strlit("constrainedbaseline");
    reveal_strlit("baseline");
    reveal_strlit("extended");
    reveal_strlit("main");
    reveal_strlit("high");
    reveal_strlit("progressivehigh");
    reveal_strlit("constrainedhigh");
    reveal_strlit("high10");
    reveal_strlit("main10");
    reveal_strlit("h264");
    reveal_strlit("hevc");
    reveal_strlit("av1");
    assert("h264"@[1] == '2' && "hevc"@[1] == 'e');
}

/// The profiles of H.264 and HEVC in order of what they demand, whatever the case and the
/// white space in which they are written; any other text, and any other codec, has none.
pub proof fn profiles_are_in_order(codec: Seq<char>, profile: Seq<char>)
    ensures
        ({
            let name = text::without_white_space(text::lowercase(profile));
            let score = helpers::profile_score(codec, profile);
            &&& codec == "h264"@ ==> {
                &&& (score == 0 <==> name == "constrainedbaseline"@)
                &&& (score == 1 <==> name == "baseline"@)
                &&& (score == 2 <==> name == "extended"@)
                &&& (score == 3 <==> name == "main"@)
                &&& (score == 4 <==> name == "high"@)
                &&& (score == 5 <==> name == "progressivehigh"@)
                &&& (score == 6 <==> name == "constrainedhigh"@)
                &&& (score == 7 <==> name == "high10"@)
                &&& -1 <= score <= 7
            }
            &&& codec == "hevc"@ ==> {
                &&& (score == 0 <==> name == "main"@)
                &&& (score == 1 <==> name == "main10"@)
                &&& -1 <= score <= 1
            }
            &&& codec != "h264"@ && codec != "hevc"@ ==> score == -1
        }),
{
    let name = text::without_white_space(text::lowercase(profile));
    lemma_profiles_differ();
    lemma_position(helpers::h264_profiles(), name);
    lemma_position(helpers::hevc_profiles(), name);
    let a = helpers::h264_profiles();
    assert(a[0] == "constrainedbaseline"@ && a[1] == "baseline"@ && a[2] == "extended"@ && a[3]
        == "main"@ && a[4] == "high"@ && a[5] == "progressivehigh"@ && a[6] == "constrainedhigh"@
        && a[7] == "high10"@);
    let b = helpers::hevc_profiles();
    assert(b[0] == "main"@ && b[1] == "main10"@);
}

// ── Containers ───────────────────────────────────────────────────────────────

/// The extension of a path is what stands behind its last dot, in lower case; all of a path
/// without a dot.
pub proof fn extension_stands_behind_the_last_dot(front: Seq<char>, ext: Seq<char>)
    requires
        !ext.contains('.'),
    ensures
        container::extension(front.push('.') + ext) == text::lowercase(ext),
        container::extension(ext) == text::lowercase(ext),
{
    lemma_after_last(front, ext, '.');
}

proof fn lemma_after_last(front: Seq<char>, back: Seq<char>, c: char)
    requires
        !back.contains(c),
    ensures
        text::after_last(front.push(c) + back, c) == back,
        text::after_last(back, c) == back,
    decreases back.len(),
{
    let all = front.push(c) + back;
    if back.len() == 0 {
        assert(all =~= front.push(c));
        assert(text::after_last(all, c) =~= back);
        assert(text::after_last(back, c) =~= back);
    } else {
        let less = back.drop_last();
        assert(back[back.len() - 1] == back.last());
        assert forall|i: int| 0 <= i < less.len() implies less[i] != c by {
            assert(less[i] == back[i]);
        }
        lemma_after_last(front, less, c);
        assert(all.drop_last() =~= front.push(c) + less);
        assert(all.last() == back.last());
        assert(back =~= less.push(back.last()));
    }
}

/// A container is transcoded exactly where the client lists containers and this is none of
/// them, or lists none and browsers do not play it. A path that ends with a dot is not.
pub proof fn containers_are_transcoded_where_they_cannot_be_played(
    path: Seq<char>,
    client: Seq<Seq<char>>,
)
    ensures
        ({
            let ext = container::extension(path);
            container::container_needs(path, client) <==> {
                &&& ext.len() > 0
                &&& client.len() > 0 ==> !client.contains(ext)
                &&& client.len() == 0 ==> {
                    &&& ext != "mp4"@
                    &&& ext != "m4v"@
                    &&& ext != "webm"@
                    &&& ext != "mov"@
                    &&& ext != "m4a"@
                    &&& ext != "mp3"@
                    &&& ext != "ogg"@
                    &&& ext != "opus"@
                    &&& ext != "wav"@
                    &&& ext != "flac"@
                    &&& ext != "aac"@
                }
            }
        }),
{
    browsers_play_eleven_containers(container::extension(path));
}

// ── Audio ────────────────────────────────────────────────────────────────────

/// Audio is transcoded exactly where the client does not decode its codec, or where one of
/// its bit depth, channels, sample rate and bit rate is above a limit that the client states,
/// or a number of channels or samples that is limited makes no sense. Whatever the codec, the
/// reason names it where it is to blame.
pub proof fn audio_is_transcoded_where_it_cannot_be_played(
    codec: Seq<char>,
    info: Option<AudioInfo>,
    profile: ClientProfile,
    client: Seq<Seq<char>>,
)
    ensures
        ({
            let reason = audio::audio_reason(Some(codec), info, profile, client);
            let decoded = if client.len() > 0 {
                client.contains(codec)
            } else {
                ||| codec == "aac"@
                ||| codec == "mp3"@
                ||| codec == "opus"@
                ||| codec == "flac"@
                ||| codec == "vorbis"@
                ||| codec == "alac"@
            };
            &&& !decoded ==> reason == Some("AudioCodecNotSupported ("@ + codec + ")"@)
            &&& decoded && info is None ==> reason is None
            &&& decoded ==> (info matches Some(i) ==> (reason is Some <==> {
                ||| (profile.max_audio_bit_depth matches Some(max) && (i.bit_depth matches Some(
                    b,
                ) && b > max))
                ||| (profile.max_audio_channels matches Some(max) && (i.channels matches Some(c)
                    && (c <= 0 || c > max)))
                ||| (profile.max_audio_sample_rate matches Some(max) && (
                i.sample_rate matches Some(r) && (r <= 0 || r > max)))
                ||| (profile.max_audio_bitrate matches Some(max) && (i.bitrate matches Some(r) && r
                    > max))
            }))
            &&& audio::audio_reason(None, info, profile, client) is None
        }),
{
    browsers_decode_six_audio_codecs(codec);
}

/// The objections to audio come in this order: bit depth, channels, sample rate, bit rate.
pub proof fn audio_objections_are_in_order(
    codec: Seq<char>,
    i: AudioInfo,
    profile: ClientProfile,
    client: Seq<Seq<char>>,
)
    requires
        client.contains(codec),
    ensures
        ({
            let reason = audio::audio_reason(Some(codec), Some(i), profile, client);
            let depth = profile.max_audio_bit_depth is Some && i.bit_depth is Some
                && i.bit_depth->0 > profile.max_audio_bit_depth->0;
            let channels = profile.max_audio_channels is Some && i.channels is Some;
            let samples = profile.max_audio_sample_rate is Some && i.sample_rate is Some;
            let rate = profile.max_audio_bitrate is Some && i.bitrate is Some && i.bitrate->0
                > profile.max_audio_bitrate->0;
            if depth {
                reason == Some(
                    "AudioBitDepthNotSupported ("@ + number::signed_decimal(i.bit_depth->0 as int)
                        + "-bit > max="@ + number::signed_decimal(
                        profile.max_audio_bit_depth->0 as int,
                    ) + ")"@,
                )
            } else if channels && i.channels->0 <= 0 {
                reason == Some("AudioChannelsNotSupported (invalid: ≤0)"@)
            } else if channels && i.channels->0 > profile.max_audio_channels->0 {
                reason == Some(
                    "AudioChannelsNotSupported ("@ + number::signed_decimal(i.channels->0 as int)
                        + "ch > max="@ + number::signed_decimal(
                        profile.max_audio_channels->0 as int,
                    ) + ")"@,
                )
            } else if samples && i.sample_rate->0 <= 0 {
                reason == Some("AudioSampleRateNotSupported (invalid: ≤0)"@)
            } else if samples && i.sample_rate->0 > profile.max_audio_sample_rate->0 {
                reason == Some(
                    "AudioSampleRateNotSupported ("@ + number::signed_decimal(
                        i.sample_rate->0 as int,
                    ) + " > max="@ + number::signed_decimal(
                        profile.max_audio_sample_rate->0 as int,
                    ) + ")"@,
                )
            } else if rate {
                reason == Some(
                    "AudioBitrateNotSupported ("@ + number::signed_decimal(i.bitrate->0 as int)
                        + " > max="@ + number::signed_decimal(
                        profile.max_audio_bitrate->0 as int,
                    ) + ")"@,
                )
            } else {
                reason is None
            }
        }),
{
    assert(client.len() > 0);
}

// ── Video ────────────────────────────────────────────────────────────────────

/// A codec is refused exactly where the client lists codecs and this is none of them, or lists
/// none and this is not H.264.
pub proof fn codecs_are_refused_where_they_are_not_listed(
    codec: Seq<char>,
    supported: Seq<Seq<char>>,
    vp: Option<Seq<char>>,
    hdr: Option<Seq<char>>,
    vs: VideoStreamInfo,
    profile: ClientProfile,
)
    ensures
        video::video_objections(codec, supported, vp, hdr, vs, profile)[0] is Some <==> if supported.len()
            > 0 {
            !supported.contains(codec)
        } else {
            codec != "h264"@
        },
{
    if supported.len() == 0 {
        assert(video::accepted_codecs(supported) =~= seq!["h264"@]);
        assert(seq!["h264"@][0] == "h264"@);
    }
}

/// Interlaced video is always refused, and anamorphic video by a client that does not show it.
pub proof fn interlaced_and_anamorphic_video_is_refused(
    codec: Seq<char>,
    supported: Seq<Seq<char>>,
    vp: Option<Seq<char>>,
    hdr: Option<Seq<char>>,
    vs: VideoStreamInfo,
    profile: ClientProfile,
)
    ensures
        ({
            let all = video::video_objections(codec, supported, vp, hdr, vs, profile);
            &&& all[1] == if vs.is_interlaced == Some(true) {
                Some("InterlacedVideoNotSupported"@)
            } else {
                None
            }
            &&& all[2] == if vs.is_anamorphic == Some(true) && !profile.supports_anamorphic {
                Some("AnamorphicVideoNotSupported"@)
            } else {
                None
            }
        }),
{
}

proof fn lemma_best(codec: Seq<char>, profiles: Seq<Seq<char>>)
    ensures
        video::best_score(codec, profiles) >= -1,
        forall|i: int|
            0 <= i < profiles.len() ==> helpers::profile_score(codec, #[trigger] profiles[i])
                <= video::best_score(codec, profiles),
        video::best_score(codec, profiles) > -1 ==> exists|i: int|
            0 <= i < profiles.len() && helpers::profile_score(codec, #[trigger] profiles[i])
                == video::best_score(codec, profiles),
    decreases profiles.len(),
{
    if profiles.len() > 0 {
        let less = profiles.drop_last();
        lemma_best(codec, less);
        assert forall|i: int| 0 <= i < profiles.len() implies helpers::profile_score(
            codec,
            #[trigger] profiles[i],
        ) <= video::best_score(codec, profiles) by {
            if i < profiles.len() - 1 {
                assert(less[i] == profiles[i]);
            }
        }
        let best = video::best_score(codec, profiles);
        if best > -1 {
            if helpers::profile_score(codec, profiles.last()) == best {
                assert(profiles[profiles.len() - 1] == profiles.last());
            } else {
                let i = choose|i: int|
                    0 <= i < less.len() && helpers::profile_score(codec, #[trigger] less[i])
                        == video::best_score(codec, less);
                assert(profiles[i] == less[i]);
            }
        }
    }
}

/// A profile of H.264 or HEVC is refused exactly where it is known, the client lists a known
/// one, and it demands more than every one that is listed.
pub proof fn profiles_above_those_of_the_client_are_refused(
    codec: Seq<char>,
    supported: Seq<Seq<char>>,
    vp: Seq<char>,
    hdr: Option<Seq<char>>,
    vs: VideoStreamInfo,
    profile: ClientProfile,
    listed: Seq<Seq<char>>,
)
    requires
        codec == "h264"@ && listed == text::texts(profile.h264_profiles@) || codec == "hevc"@
            && listed == text::texts(profile.hevc_profiles@),
        listed.len() > 0,
    ensures
        video::video_objections(codec, supported, Some(vp), hdr, vs, profile)[3] is Some <==> {
            &&& helpers::profile_score(codec, vp) >= 0
            &&& exists|i: int|
                0 <= i < listed.len() && helpers::profile_score(codec, #[trigger] listed[i]) >= 0
            &&& forall|i: int|
                0 <= i < listed.len() ==> helpers::profile_score(codec, #[trigger] listed[i])
                    < helpers::profile_score(codec, vp)
        },
{
    lemma_profiles_differ();
    profiles_are_in_order(codec, vp);
    lemma_scored(codec, "high"@, listed, vp);
    lemma_scored(codec, "main10"@, listed, vp);
}

proof fn lemma_scored(codec: Seq<char>, usual: Seq<char>, listed: Seq<Seq<char>>, vp: Seq<char>)
    requires
        listed.len() > 0 ==> helpers::profile_score(codec, vp) >= -1,
    ensures
        listed.len() > 0 ==> (video::scored_profile_reason(codec, usual, listed, vp) is Some <==> {
            &&& helpers::profile_score(codec, vp) >= 0
            &&& exists|i: int|
                0 <= i < listed.len() && helpers::profile_score(codec, #[trigger] listed[i]) >= 0
            &&& forall|i: int|
                0 <= i < listed.len() ==> helpers::profile_score(codec, #[trigger] listed[i])
                    < helpers::profile_score(codec, vp)
        }),
{
    lemma_best(codec, listed);
}

/// Where the client lists no profiles, those of H.264 above high and no profile of HEVC that
/// is known are refused. Of AV1, every profile that is written but the main one is refused. Of
/// other codecs, and where no profile is known, none is.
pub proof fn profiles_of_a_client_that_lists_none(
    codec: Seq<char>,
    supported: Seq<Seq<char>>,
    vp: Seq<char>,
    hdr: Option<Seq<char>>,
    vs: VideoStreamInfo,
    profile: ClientProfile,
)
    ensures
        ({
            let name = text::without_white_space(text::lowercase(vp));
            let refused = video::video_objections(
                codec,
                supported,
                Some(vp),
                hdr,
                vs,
                profile,
            )[3] is Some;
            &&& codec == "h264"@ && profile.h264_profiles@.len() == 0 ==> (refused <==> {
                ||| name == "progressivehigh"@
                ||| name == "constrainedhigh"@
                ||| name == "high10"@
            })
            &&& codec == "hevc"@ && profile.hevc_profiles@.len() == 0 ==> !refused
            &&& codec == "av1"@ ==> (refused <==> {
                &&& text::lowercase(vp).filter(|c: char| c != ' ') != "main"@
                &&& text::lowercase(vp).filter(|c: char| c != ' ').len() > 0
            })
            &&& codec != "h264"@ && codec != "hevc"@ && codec != "av1"@ ==> !refused
            &&& video::video_objections(codec, supported, None, hdr, vs, profile)[3] is None
        }),
{
    lemma_profiles_differ();
    profiles_are_in_order(codec, vp);
    profiles_are_in_order("h264"@, "high"@);
    profiles_are_in_order("hevc"@, "main10"@);
    lemma_plain_names();
    assert(text::other_than(' ') =~= |c: char| c != ' ');
}

/// Texts of small letters and digits are their own lower case, and have no white space.
proof fn lemma_plain(s: Seq<char>)
    requires
        forall|i: int|
            0 <= i < s.len() ==> '0' <= #[trigger] s[i] <= '9' || 'a' <= s[i] <= 'z',
    ensures
        text::lowercase(s) == s,
        text::without_white_space(s) == s,
{
    assert(vstd::utf8::is_ascii_chars(s));
    assert(text::ascii_lowercase(s) =~= s);
    lemma_all_kept(s, |x: char| !text::white_space(x));
}

proof fn lemma_all_kept(s: Seq<char>, keep: spec_fn(char) -> bool)
    requires
        forall|i: int| 0 <= i < s.len() ==> keep(#[trigger] s[i]),
    ensures
        s.filter(keep) == s,
    decreases s.len(),
{
    reveal(Seq::filter);
    if s.len() > 0 {
        let less = s.drop_last();
        assert forall|i: int| 0 <= i < less.len() implies keep(#[trigger] less[i]) by {
            assert(less[i] == s[i]);
        }
        lemma_all_kept(less, keep);
        assert(keep(s[s.len() - 1]));
        assert(less.push(s.last()) =~= s);
    } else {
        assert(s.filter(keep) =~= s);
    }
}

proof fn lemma_plain_names()
    ensures
        text::without_white_space(text::lowercase("high"@)) == "high"@,
        text::without_white_space(text::lowercase("main10"@)) == "main10"@,
{
    reveal_strlit("high");
    reveal_strlit("main10");
    lemma_plain("high"@);
    lemma_plain("main10"@);
}

/// H.264 of more than 8 bits is refused by a client that does not list the high 10 profile,
/// and video of more bits than the client's limit by any.
pub proof fn deep_video_is_refused(
    codec: Seq<char>,
    supported: Seq<Seq<char>>,
    vp: Option<Seq<char>>,
    hdr: Option<Seq<char>>,
    vs: VideoStreamInfo,
    profile: ClientProfile,
)
    ensures
        video::video_objections(codec, supported, vp, hdr, vs, profile)[5] is Some <==> (
        vs.bit_depth matches Some(depth) && {
            ||| depth > 8 && codec == "h264"@ && !(exists|i: int|
                0 <= i < profile.h264_profiles@.len() && (#[trigger] profile.h264_profiles@[i])@
                    == "high10"@)
            ||| (profile.max_video_bit_depth matches Some(max) && depth > max)
        }),
{
    let listed = text::texts(profile.h264_profiles@);
    assert(forall|i: int|
        0 <= i < listed.len() ==> #[trigger] listed[i] == profile.h264_profiles@[i]@);
    if listed.contains("high10"@) {
        let i = choose|i: int| 0 <= i < listed.len() && listed[i] == "high10"@;
        assert(profile.h264_profiles@[i]@ == "high10"@);
    } else {
        assert forall|i: int| 0 <= i < profile.h264_profiles@.len() implies (
        #[trigger] profile.h264_profiles@[i])@ != "high10"@ by {
            assert(listed[i] == profile.h264_profiles@[i]@);
        }
    }
}

/// A level above the client's, or above 5.2 for H.264 and 120 for HEVC where the client states
/// none, is refused; one of AV1 only where the client states a limit. Levels of H.264 come on
/// the scale of 5.2 or of 52, those of HEVC on the scale of 5.2 or in thirtieths.
pub proof fn levels_above_the_limit_are_refused(
    codec: Seq<char>,
    supported: Seq<Seq<char>>,
    vp: Option<Seq<char>>,
    hdr: Option<Seq<char>>,
    vs: VideoStreamInfo,
    profile: ClientProfile,
)
    ensures
        ({
            let refused = video::video_objections(codec, supported, vp, hdr, vs, profile)[6] is Some;
            &&& vs.level is None ==> !refused
            &&& vs.level matches Some(l) ==> {
                &&& codec == "h264"@ ==> {
                    let got = if number::above(l.level.value.bits, 0x4024_0000_0000_0000) {
                        l.level.tenth.bits
                    } else {
                        l.level.value.bits
                    };
                    let limit = match profile.max_h264_level {
                        Some(m) => if number::above(m.value.bits, 0x4024_0000_0000_0000) {
                            m.tenth.bits
                        } else {
                            m.value.bits
                        },
                        None => 0x4014_CCCC_CCCC_CCCD,
                    };
                    refused <==> number::above(got, limit)
                }
                &&& codec == "hevc"@ ==> {
                    let got = if number::at_most(l.level.value.bits, 0x4024_0000_0000_0000) {
                        l.thirtyfold
                    } else {
                        l.whole
                    };
                    let limit = match profile.max_hevc_level {
                        Some(m) => m,
                        None => 120,
                    };
                    refused <==> got > limit
                }
                &&& codec == "av1"@ ==> (refused <==> (profile.max_av1_level matches Some(m)
                    && l.whole > m))
                &&& codec != "h264"@ && codec != "hevc"@ && codec != "av1"@ ==> !refused
            }
        }),
{
    lemma_profiles_differ();
}

/// A stream of `k` kilobits per second is refused by a client with a limit of `m` bits per
/// second exactly where a thousand times `k` is above `m`; one of an unknown bit rate where
/// the limit is below forty million. Where there is no limit, none is.
pub proof fn bit_rates_above_the_limit_are_refused(
    codec: Seq<char>,
    supported: Seq<Seq<char>>,
    vp: Option<Seq<char>>,
    hdr: Option<Seq<char>>,
    vs: VideoStreamInfo,
    profile: ClientProfile,
)
    ensures
        ({
            let objection = video::video_objections(codec, supported, vp, hdr, vs, profile)[7];
            match (vs.bitrate_kbps, profile.max_bitrate) {
                (Some(k), Some(m)) => if 1000 * k > m {
                    objection == Some(
                        "VideoBitrateNotSupported ("@ + number::signed_decimal(1000 * k)
                            + " bps > max="@ + number::signed_decimal(m as int) + " bps)"@,
                    )
                } else {
                    objection is None
                },
                (None, Some(m)) => objection is Some <==> 40_000_000 > m,
                (_, None) => objection is None,
            }
        }),
{
}

/// Pictures that are wider or higher than the client's limits, and streams with more reference
/// frames, are refused; and no others are on that account.
pub proof fn sizes_above_the_limit_are_refused(
    codec: Seq<char>,
    supported: Seq<Seq<char>>,
    vp: Option<Seq<char>>,
    hdr: Option<Seq<char>>,
    vs: VideoStreamInfo,
    profile: ClientProfile,
)
    ensures
        ({
            let all = video::video_objections(codec, supported, vp, hdr, vs, profile);
            &&& all.len() == 13
            &&& all[8] is Some <==> (profile.max_width matches Some(m) && (vs.width matches Some(w)
                && w > m))
            &&& all[9] is Some <==> (profile.max_height matches Some(m) && (
            vs.height matches Some(h) && h > m))
            &&& all[10] is Some <==> (profile.max_ref_frames matches Some(m) && (
            vs.ref_frames matches Some(n) && n > m))
        }),
{
}

/// A frame rate above the client's limit with its tolerance is refused; that for HEVC counts
/// for HEVC alone, beside the other.
pub proof fn frame_rates_above_the_limit_are_refused(
    codec: Seq<char>,
    supported: Seq<Seq<char>>,
    vp: Option<Seq<char>>,
    hdr: Option<Seq<char>>,
    vs: VideoStreamInfo,
    profile: ClientProfile,
)
    ensures
        ({
            let all = video::video_objections(codec, supported, vp, hdr, vs, profile);
            &&& all[11] is Some <==> (profile.max_framerate matches Some(m) && (
            vs.frame_rate matches Some(f) && number::above(f.bits, m.tolerated.bits)))
            &&& all[12] is Some <==> (codec == "hevc"@ && (profile.hevc_max_framerate matches Some(m)
                && (vs.frame_rate matches Some(f) && number::above(f.bits, m.tolerated.bits))))
        }),
{
}

/// What is answered is the objection that comes first, and nothing where there is none or no
/// video.
pub proof fn the_first_objection_is_answered(
    reason: Option<Seq<char>>,
    codec: Option<Seq<char>>,
    supported: Seq<Seq<char>>,
    vp: Option<Seq<char>>,
    hdr: Option<Seq<char>>,
    vs: VideoStreamInfo,
    profile: ClientProfile,
    k: int,
)
    requires
        video::video_reason_is(reason, codec, supported, vp, hdr, vs, profile),
        0 <= k < 13,
    ensures
        codec is None ==> reason is None,
        codec matches Some(name) ==> {
            let all = video::video_objections(name, supported, vp, hdr, vs, profile);
            &&& all[k] is Some && (forall|i: int| 0 <= i < k ==> #[trigger] all[i] is None) ==> reason
                == all[k]
            &&& (forall|i: int| 0 <= i < 13 ==> #[trigger] all[i] is None) ==> reason is None
        },
{
    if let Some(name) = codec {
        let all = video::video_objections(name, supported, vp, hdr, vs, profile);
        assert(all.len() == 13);
        if all[k] is Some && (forall|i: int| 0 <= i < k ==> #[trigger] all[i] is None) {
            video::first_objection_is_unique(reason, all[k], all);
        }
    }
}

// ── Dynamic range ────────────────────────────────────────────────────────────

proof fn lemma_shared(l: Seq<Seq<char>>, s: Seq<Seq<char>>)
    ensures
        l.len() == 1 ==> (video::share(l, s) <==> s.contains(l[0])),
        l.len() == 2 ==> (video::share(l, s) <==> s.contains(l[0]) || s.contains(l[1])),
        l.len() == 3 ==> (video::share(l, s) <==> s.contains(l[0]) || s.contains(l[1]) || s.contains(
            l[2],
        )),
        l.len() == 4 ==> (video::share(l, s) <==> s.contains(l[0]) || s.contains(l[1]) || s.contains(
            l[2],
        ) || s.contains(l[3])),
        l.len() == 5 ==> (video::share(l, s) <==> s.contains(l[0]) || s.contains(l[1]) || s.contains(
            l[2],
        ) || s.contains(l[3]) || s.contains(l[4])),
        l.len() == 6 ==> (video::share(l, s) <==> s.contains(l[0]) || s.contains(l[1]) || s.contains(
            l[2],
        ) || s.contains(l[3]) || s.contains(l[4]) || s.contains(l[5])),
{
}

proof fn lemma_range_names()
    ensures
        "sdr"@.len() == 3 && "sdr"@[0] == 's',
        "hlg"@.len() == 3 && "hlg"@[0] == 'h',
        "dovi"@.len() == 4,
        "hdr10"@.len() == 5,
        "hdr10plus"@.len() == 9,
        "hdr10_plus"@.len() == 10,
        "dolby_vision"@.len() == 12 && "dolby_vision"@[2] == 'l',
        "dovi_invalid"@.len() == 12 && "dovi_invalid"@[2] == 'v',
        "dolby_vision_el"@.len() == 15,
        "dolby_vision_hlg"@.len() == 16 && "dolby_vision_hlg"@[13] == 'h',
        "dolby_vision_sdr"@.len() == 16 && "dolby_vision_sdr"@[13] == 's',
        "dolby_vision_hdr10"@.len() == 18,
        "dolby_vision_hdr10_plus"@.len() == 23,
        "dolby_vision_el_hdr10_plus"@.len() == 26,
        "SDR"@.len() == 3 && "SDR"@[0] == 'S',
        "HLG"@.len() == 3 && "HLG"@[0] == 'H',
        "DOVI"@.len() == 4,
        "HDR10"@.len() == 5,
        "HDR10Plus"@.len() == 9,
        "DOVIWithEL"@.len() == 10,
        "DOVIWithHLG"@.len() == 11 && "DOVIWithHLG"@[4] == 'W' && "DOVIWithHLG"@[8] == 'H',
        "DOVIWithSDR"@.len() == 11 && "DOVIWithSDR"@[4] == 'W' && "DOVIWithSDR"@[8] == 'S',
        "DOVIInvalid"@.len() == 11 && "DOVIInvalid"@[4] == 'I',
        "DOVIWithHDR10"@.len() == 13,
        "DOVIWithHDR10Plus"@.len() == 17,
        "DOVIWithELHDR10Plus"@.len() == 19,
{
    reveal_strlit("sdr");
    reveal_strlit("hlg");
    reveal_strlit("dovi");
    reveal_strlit("hdr10");
    reveal_strlit("hdr10plus");
    reveal_strlit("hdr10_plus");
    reveal_strlit("dolby_vision");
    reveal_strlit("dovi_invalid");
    reveal_strlit("dolby_vision_el");
    reveal_strlit("dolby_vision_hlg");
    reveal_strlit("dolby_vision_sdr");
    reveal_strlit("dolby_vision_hdr10");
    reveal_strlit("dolby_vision_hdr10_plus");
    reveal_strlit("dolby_vision_el_hdr10_plus");
    reveal_strlit("SDR");
    reveal_strlit("HLG");
    reveal_strlit("DOVI");
    reveal_strlit("HDR10");
    reveal_strlit("HDR10Plus");
    reveal_strlit("DOVIWithEL");
    reveal_strlit("DOVIWithHLG");
    reveal_strlit("DOVIWithSDR");
    reveal_strlit("DOVIInvalid");
    reveal_strlit("DOVIWithHDR10");
    reveal_strlit("DOVIWithHDR10Plus");
    reveal_strlit("DOVIWithELHDR10Plus");
}

/// Video of a dynamic range is shown by a client that lists the range or one that it can be
/// shown as, and refused by any other; the ranges are told by name, whatever its case. Video
/// whose range is unknown is not refused on that account.
#[verifier::rlimit(40)]
pub proof fn ranges_are_shown_by_clients_that_list_them(
    codec: Seq<char>,
    supported: Seq<Seq<char>>,
    vp: Option<Seq<char>>,
    hdr: Seq<char>,
    vs: VideoStreamInfo,
    profile: ClientProfile,
)
    ensures
        ({
            let name = text::lowercase(hdr);
            let l = text::texts(profile.supported_range_types@);
            let shown = video::video_objections(
                codec,
                supported,
                vp,
                Some(hdr),
                vs,
                profile,
            )[4] is None;
            &&& name == "sdr"@ ==> (shown <==> l.contains("SDR"@) || l.contains("DOVIWithSDR"@))
            &&& name == "hdr10"@ ==> (shown <==> l.contains("HDR10"@) || l.contains(
                "DOVIWithHDR10"@,
            ))
            &&& name == "hdr10plus"@ || name == "hdr10_plus"@ ==> (shown <==> l.contains(
                "HDR10Plus"@,
            ) || l.contains("HDR10"@) || l.contains("DOVIWithHDR10Plus"@) || l.contains(
                "DOVIWithHDR10"@,
            ))
            &&& name == "hlg"@ ==> (shown <==> l.contains("HLG"@) || l.contains("DOVIWithHLG"@))
            &&& name == "dolby_vision"@ || name == "dovi"@ ==> (shown <==> l.contains("DOVI"@)
                || l.contains("DOVIWithHDR10"@) || l.contains("DOVIWithHLG"@) || l.contains(
                "DOVIWithSDR"@,
            ) || l.contains("DOVIWithEL"@) || l.contains("DOVIInvalid"@))
            &&& name == "dolby_vision_hdr10"@ ==> (shown <==> l.contains("DOVIWithHDR10"@)
                || l.contains("DOVI"@) || l.contains("HDR10"@))
            &&& name == "dolby_vision_hdr10_plus"@ ==> (shown <==> l.contains("DOVIWithHDR10Plus"@)
                || l.contains("DOVIWithHDR10"@) || l.contains("DOVI"@) || l.contains("HDR10Plus"@)
                || l.contains("HDR10"@))
            &&& name == "dolby_vision_hlg"@ ==> (shown <==> l.contains("DOVIWithHLG"@)
                || l.contains("DOVI"@) || l.contains("HLG"@))
            &&& name == "dolby_vision_sdr"@ ==> (shown <==> l.contains("DOVIWithSDR"@)
                || l.contains("DOVI"@) || l.contains("SDR"@))
            &&& name == "dolby_vision_el"@ ==> (shown <==> l.contains("DOVIWithEL"@) || l.contains(
                "DOVI"@,
            ))
            &&& name == "dolby_vision_el_hdr10_plus"@ ==> (shown <==> l.contains(
                "DOVIWithELHDR10Plus"@,
            ) || l.contains("DOVIWithEL"@) || l.contains("DOVI"@) || l.contains("HDR10Plus"@)
                || l.contains("HDR10"@))
            &&& name == "dovi_invalid"@ ==> (shown <==> l.contains("DOVIInvalid"@) || l.contains(
                "DOVI"@,
            ) || l.contains("HDR10"@))
            &&& video::video_objections(codec, supported, vp, None, vs, profile)[4] is None
        }),
{
    let l = text::texts(profile.supported_range_types@);
    lemma_range_names();
    lemma_shared(video::playable_as(video::range_type(hdr)), l);
}

/// A range of any other name is shown by a client that lists that name in upper case, and by
/// no other.
pub proof fn other_ranges_are_shown_by_their_name(
    codec: Seq<char>,
    supported: Seq<Seq<char>>,
    vp: Option<Seq<char>>,
    hdr: Seq<char>,
    vs: VideoStreamInfo,
    profile: ClientProfile,
)
    requires
        ({
            let name = text::lowercase(hdr);
            &&& name != "sdr"@ && name != "hdr10"@ && name != "hdr10plus"@ && name != "hdr10_plus"@
            &&& name != "hlg"@ && name != "dolby_vision"@ && name != "dovi"@
            &&& name != "dolby_vision_hdr10"@ && name != "dolby_vision_hdr10_plus"@
            &&& name != "dolby_vision_hlg"@ && name != "dolby_vision_sdr"@
            &&& name != "dolby_vision_el"@ && name != "dolby_vision_el_hdr10_plus"@
            &&& name != "dovi_invalid"@
        }),
        vstd::utf8::is_ascii_chars(hdr),
    ensures
        video::video_objections(codec, supported, vp, Some(hdr), vs, profile)[4] is None
            <==> text::texts(profile.supported_range_types@).contains(text::uppercase(hdr)),
{
    let l = text::texts(profile.supported_range_types@);
    let range = video::range_type(hdr);
    lemma_range_names();
    assert(range == text::uppercase(hdr));
    lemma_upper_is_lowered(hdr, "SDR"@, "sdr"@);
    lemma_upper_is_lowered(hdr, "HDR10"@, "hdr10"@);
    lemma_upper_is_lowered(hdr, "HLG"@, "hlg"@);
    lemma_upper_is_lowered(hdr, "DOVI"@, "dovi"@);
    lemma_no_small_letter(hdr, "HDR10Plus"@, 6);
    lemma_no_small_letter(hdr, "DOVIWithHDR10"@, 5);
    lemma_no_small_letter(hdr, "DOVIWithHDR10Plus"@, 5);
    lemma_no_small_letter(hdr, "DOVIWithHLG"@, 5);
    lemma_no_small_letter(hdr, "DOVIWithSDR"@, 5);
    lemma_no_small_letter(hdr, "DOVIWithEL"@, 5);
    lemma_no_small_letter(hdr, "DOVIWithELHDR10Plus"@, 5);
    lemma_no_small_letter(hdr, "DOVIInvalid"@, 5);
    reveal_strlit("HDR10Plus");
    reveal_strlit("DOVIWithHDR10");
    reveal_strlit("DOVIWithHDR10Plus");
    reveal_strlit("DOVIWithHLG");
    reveal_strlit("DOVIWithSDR");
    reveal_strlit("DOVIWithEL");
    reveal_strlit("DOVIWithELHDR10Plus");
    reveal_strlit("DOVIInvalid");
    reveal_strlit("SDR");
    reveal_strlit("sdr");
    reveal_strlit("HDR10");
    reveal_strlit("hdr10");
    reveal_strlit("HLG");
    reveal_strlit("hlg");
    reveal_strlit("DOVI");
    reveal_strlit("dovi");
    assert(video::playable_as(range) =~= seq![range]);
    lemma_shared(video::playable_as(range), l);
}

/// A text whose upper case is `upper` has the lower case of `upper`.
proof fn lemma_upper_is_lowered(s: Seq<char>, upper: Seq<char>, lower: Seq<char>)
    requires
        vstd::utf8::is_ascii_chars(s),
    ensures
        text::uppercase(s) == upper && upper.len() == lower.len() && (forall|i: int|
            0 <= i < upper.len() ==> text::ascii_lower(#[trigger] upper[i]) == lower[i])
            ==> text::lowercase(s) == lower,
{
    if text::uppercase(s) == upper && upper.len() == lower.len() && (forall|i: int|
        0 <= i < upper.len() ==> text::ascii_lower(#[trigger] upper[i]) == lower[i]) {
        assert forall|i: int| 0 <= i < s.len() implies text::ascii_lower(#[trigger] s[i])
            == lower[i] by {
            assert(text::ascii_uppercase(s)[i] == text::ascii_upper(s[i]));
            assert(upper[i] == text::ascii_upper(s[i]));
        }
        assert(text::ascii_lowercase(s) =~= lower);
    }
}

/// A text in upper case has no small letter.
proof fn lemma_no_small_letter(s: Seq<char>, other: Seq<char>, at: int)
    requires
        vstd::utf8::is_ascii_chars(s),
    ensures
        0 <= at < other.len() && 97 <= other[at] as u32 <= 122 ==> text::uppercase(s) != other,
{
    if 0 <= at < other.len() && 97 <= other[at] as u32 <= 122 && text::uppercase(s) == other {
        assert(text::ascii_uppercase(s)[at] == text::ascii_upper(s[at]));
    }
}

// ── Tags ─────────────────────────────────────────────────────────────────────

/// A client that lists the tags of HEVC plays those alone, whatever their case, and none
/// that is unknown; of a client that lists none, and of another codec, no tag is asked.
pub proof fn tags_of_hevc_are_those_that_the_client_lists(
    codec: Seq<char>,
    tag: Option<Seq<char>>,
    tags: Seq<Seq<char>>,
)
    ensures
        video::hevc_tag_reason(codec, tag, tags) is Some <==> {
            &&& codec == "hevc"@
            &&& tags.len() > 0
            &&& tag matches Some(t) ==> !tags.contains(text::lowercase(t))
        },
{
}

/// H.264 in an AVI file is refused exactly where it is known not to be in the AVC form.
pub proof fn h264_in_avi_files_has_to_be_avc(front: Seq<char>, ext: Seq<char>, vs: VideoStreamInfo)
    requires
        !ext.contains('.'),
    ensures
        video::avi_reason("h264"@, vs, front.push('.') + ext) is Some <==> (vs.is_avc == Some(false)
            && text::lowercase(ext) == "avi"@),
        video::avi_reason("hevc"@, vs, front.push('.') + ext) is None,
{
    extension_stands_behind_the_last_dot(front, ext);
    lemma_profiles_differ();
}

// ── What is read off a probed stream ─────────────────────────────────────────

/// Ten bits are told by these marks in the name of a pixel format, and twelve by these where
/// there is none for ten; a depth that is written counts before them.
pub proof fn depths_are_told_by_the_pixel_format(raw: Seq<char>, format: Seq<char>)
    ensures
        ({
            let ten = text::has_part(format, "10le"@) || text::has_part(format, "10be"@)
                || text::has_part(format, "p010"@);
            let twelve = text::has_part(format, "12le"@) || text::has_part(format, "12be"@);
            &&& types::depth_of(None, Some(format)) == if ten {
                Some(10i32)
            } else if twelve {
                Some(12i32)
            } else {
                None
            }
            &&& types::depth_of(None, None) is None
            &&& number::i32_value(raw) is Some ==> types::depth_of(Some(raw), Some(format))
                == number::i32_value(raw) && types::depth_of(Some(raw), None)
                == number::i32_value(raw)
            &&& number::i32_value(raw) is None ==> types::depth_of(Some(raw), Some(format))
                == types::depth_of(None, Some(format)) && types::depth_of(Some(raw), None) is None
        }),
{
}

/// A bit rate of `b` bits per second is read as its thousands, cut towards zero: what is cut
/// off is less than a thousand. One that is written as text counts before one that is a number.
pub proof fn bit_rates_are_read_in_thousands(b: i64, other: Option<i64>, raw: Seq<char>)
    ensures
        b >= 0 ==> (types::kbps_of(None, Some(b)) matches Some(k) && 1000 * k <= b < 1000 * (k
            + 1)),
        b < 0 ==> (types::kbps_of(None, Some(b)) matches Some(k) && 1000 * (k - 1) < b <= 1000 * k),
        number::i64_value(raw) == Some(b) ==> types::kbps_of(Some(raw), other) == types::kbps_of(
            None,
            Some(b),
        ),
        number::i64_value(raw) is None ==> types::kbps_of(Some(raw), other) == types::kbps_of(
            None,
            other,
        ),
        types::kbps_of(None, None) is None,
{
}

/// A frame rate is the quotient only where both numbers are there and the second is above 0.
pub proof fn frame_rates_are_quotients(n: FrameRateNumbers)
    ensures
        match n {
            FrameRateNumbers::Ratio { numerator, denominator, quotient } => {
                VideoStreamInfo::frame_rate_of(n) == if numerator is Some && (
                denominator matches Some(d) && number::above(d.bits, 0)) {
                    Some(quotient)
                } else {
                    None
                }
            },
            FrameRateNumbers::Plain { number } => VideoStreamInfo::frame_rate_of(n) == number,
        },
{
}

/// The numerator of a frame rate is what stands before the first slash.
pub proof fn numerators_stand_before_the_first_slash(a: Seq<char>, b: Seq<char>, c: char)
    requires
        !a.contains(c),
    ensures
        types::before_first(a + seq![c] + b, c) == a,
        types::before_first(a, c) == a,
    decreases a.len(),
{
    let s = a + seq![c] + b;
    if a.len() == 0 {
        assert(s[0] == c);
        assert(a =~= Seq::<char>::empty());
    } else {
        let less = a.drop_first();
        assert(!less.contains(c)) by {
            if less.contains(c) {
                let i = choose|i: int| 0 <= i < less.len() && less[i] == c;
                assert(a[i + 1] == c);
            }
        }
        assert(a[0] != c);
        numerators_stand_before_the_first_slash(less, b, c);
        assert(s.drop_first() =~= less + seq![c] + b);
        assert(s[0] == a[0]);
        assert(seq![a[0]] + less =~= a);
    }
}

/// Parameters of a client are read as what they write: whole numbers in decimal, and the ranges
/// as a list between commas, standard range alone where nothing is written. What is absent, or
/// writes no number, is no bound.
pub proof fn parameters_are_read_as_written(s: &str, sep: char, how: text::Cleaning)
    ensures
        types::opt_i32(Some(s)) == number::i32_value(s@),
        types::opt_i32(None) is None,
        types::opt_i64(Some(s)) == number::i64_value(s@),
        types::opt_i64(None) is None,
        types::opt_list(Some(s), sep, how) == text::listed(s@, sep, how),
        types::opt_list(None, sep, how).len() == 0,
        s@.len() == 0 ==> types::range_list(s@) == seq!["SDR"@],
        s@.len() > 0 ==> types::range_list(s@) == text::listed(s@, ',', text::Cleaning::Trim),
{
}

/// What is told of a probed stream: it is interlaced where a field order other than progressive
/// and unknown is written, and anamorphic where a ratio other than 1:1 and 0:1 is; its sizes,
/// tag and bit rate are those of its members, and the average frame rate counts before the
/// other.
pub proof fn streams_are_what_their_members_tell(
    v: VideoStreamInfo,
    members: Map<Seq<char>, json::JsonMember>,
    avg: Option<Float>,
    other: Option<Float>,
    written: Seq<char>,
    whole: i64,
)
    requires
        v.told_by(members, avg, other),
    ensures
        !members.contains_key("field_order"@) ==> v.is_interlaced is None,
        members.contains_pair("field_order"@, json::JsonMember::Text(written)) ==> (
        v.is_interlaced == Some(
            !(written == "progressive"@ || written == "unknown"@ || written == ""@),
        )),
        !members.contains_key("sample_aspect_ratio"@) ==> v.is_anamorphic is None,
        members.contains_pair("sample_aspect_ratio"@, json::JsonMember::Text(written)) ==> (
        v.is_anamorphic == Some(!(written == "1:1"@ || written == "0:1"@ || written == ""@))),
        members.contains_pair("codec_tag_string"@, json::JsonMember::Text(written)) ==> (
        v.codec_tag matches Some(tag) && tag@ == written),
        !members.contains_key("codec_tag_string"@) ==> v.codec_tag is None,
        members.contains_pair("width"@, json::JsonMember::Whole(whole)) && 0 <= whole <= i32::MAX
            ==> (v.width matches Some(w) && w == whole),
        !members.contains_key("width"@) ==> v.width is None,
        members.contains_pair("height"@, json::JsonMember::Whole(whole)) && 0 <= whole <= i32::MAX
            ==> (v.height matches Some(h) && h == whole),
        !members.contains_key("height"@) ==> v.height is None,
        members.contains_pair("bit_rate"@, json::JsonMember::Whole(whole)) ==> v.bitrate_kbps
            == types::kbps_of(None, Some(whole)),
        members.contains_pair("bit_rate"@, json::JsonMember::Text(written)) ==> v.bitrate_kbps
            == types::kbps_of(Some(written), None),
        !members.contains_key("bit_rate"@) ==> v.bitrate_kbps is None,
        members.contains_pair("bits_per_raw_sample"@, json::JsonMember::Text(written))
            && !members.contains_key("pix_fmt"@) ==> v.bit_depth == types::depth_of(
            Some(written),
            None,
        ),
        members.contains_pair("pix_fmt"@, json::JsonMember::Text(written))
            && !members.contains_key("bits_per_raw_sample"@) ==> v.bit_depth == types::depth_of(
            None,
            Some(written),
        ),
        avg is Some ==> v.frame_rate == avg,
        avg is None ==> v.frame_rate == other,
        v.level is None && v.is_avc is None && v.ref_frames is None,
{
}

}
