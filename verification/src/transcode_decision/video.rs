//! Video streams.
use super::audio::limit_text;
use super::container;
use super::helpers;
use super::types::{ClientProfile, FrameRateLimit, H264Level, VideoLevel, VideoStreamInfo};
use crate::number;
use crate::number::Float;
use crate::text;
use vstd::prelude::*;
use vstd::string::*;

verus! {

broadcast use vstd::string::group_string_axioms;

// ── The rules ────────────────────────────────────────────────────────────────

/// The codecs that the client decodes: those it lists, else H.264 alone.
pub open spec fn accepted_codecs(supported: Seq<Seq<char>>) -> Seq<Seq<char>> {
    if supported.len() == 0 {
        seq!["h264"@]
    } else {
        supported
    }
}

/// The objection to the codec.
pub open spec fn codec_reason(codec: Seq<char>, supported: Seq<Seq<char>>) -> Option<Seq<char>> {
    let accepted = accepted_codecs(supported);
    if accepted.contains(codec) {
        None
    } else {
        Some(
            "VideoCodecNotSupported (source="@ + codec + ", client supports=["@ + text::joined(
                accepted,
                ","@,
            ) + "])"@,
        )
    }
}

/// The objection to interlaced video.
pub open spec fn interlaced_reason(vs: VideoStreamInfo) -> Option<Seq<char>> {
    if vs.is_interlaced == Some(true) {
        Some("InterlacedVideoNotSupported"@)
    } else {
        None
    }
}

/// The objection to anamorphic video.
pub open spec fn anamorphic_reason(vs: VideoStreamInfo, profile: ClientProfile) -> Option<
    Seq<char>,
> {
    if !profile.supports_anamorphic && vs.is_anamorphic == Some(true) {
        Some("AnamorphicVideoNotSupported"@)
    } else {
        None
    }
}

/// The highest score of the profiles that the client reports, or -1.
pub open spec fn best_score(codec: Seq<char>, profiles: Seq<Seq<char>>) -> int
    decreases profiles.len(),
{
    if profiles.len() == 0 {
        -1
    } else {
        let before = best_score(codec, profiles.drop_last());
        let last = helpers::profile_score(codec, profiles.last());
        if last > before {
            last
        } else {
            before
        }
    }
}

/// The objection to the profile of a codec with a table of profiles: a known profile above
/// every profile that the client reports, or above `usual` where the client reports none.
pub open spec fn scored_profile_reason(
    codec: Seq<char>,
    usual: Seq<char>,
    profiles: Seq<Seq<char>>,
    vp: Seq<char>,
) -> Option<Seq<char>> {
    let score = helpers::profile_score(codec, vp);
    if profiles.len() == 0 {
        if score != -1 && score > helpers::profile_score(codec, usual) {
            Some("VideoProfileNotSupported ("@ + codec + " profile="@ + vp + ")"@)
        } else {
            None
        }
    } else {
        let best = best_score(codec, profiles);
        if score != -1 && best != -1 && score > best {
            Some(
                "VideoProfileNotSupported ("@ + codec + " profile="@ + vp + ", client max=["@
                    + text::joined(profiles, ","@) + "])"@,
            )
        } else {
            None
        }
    }
}

/// The objection to the profile of an AV1 stream: to any but the main one.
pub open spec fn av1_profile_reason(vp: Seq<char>) -> Option<Seq<char>> {
    let name = text::without(text::lowercase(vp), ' ');
    if name != "main"@ && name.len() > 0 {
        Some("VideoProfileNotSupported (av1 profile="@ + vp + ", only 'main' supported)"@)
    } else {
        None
    }
}

/// The objection to the profile.
pub open spec fn profile_reason(
    codec: Seq<char>,
    vp: Option<Seq<char>>,
    profile: ClientProfile,
) -> Option<Seq<char>> {
    match vp {
        None => None,
        Some(vp) => if codec == "h264"@ {
            scored_profile_reason(codec, "high"@, text::texts(profile.h264_profiles@), vp)
        } else if codec == "hevc"@ {
            scored_profile_reason(codec, "main10"@, text::texts(profile.hevc_profiles@), vp)
        } else if codec == "av1"@ {
            av1_profile_reason(vp)
        } else {
            None
        },
    }
}

/// The range type that names a kind of dynamic range.
pub open spec fn range_type(hdr: Seq<char>) -> Seq<char> {
    let name = text::lowercase(hdr);
    if name == "sdr"@ {
        "SDR"@
    } else if name == "hdr10"@ {
        "HDR10"@
    } else if name == "hdr10plus"@ || name == "hdr10_plus"@ {
        "HDR10Plus"@
    } else if name == "dolby_vision"@ || name == "dovi"@ {
        "DOVI"@
    } else if name == "dolby_vision_hdr10"@ {
        "DOVIWithHDR10"@
    } else if name == "dolby_vision_hdr10_plus"@ {
        "DOVIWithHDR10Plus"@
    } else if name == "dolby_vision_hlg"@ {
        "DOVIWithHLG"@
    } else if name == "dolby_vision_sdr"@ {
        "DOVIWithSDR"@
    } else if name == "dolby_vision_el"@ {
        "DOVIWithEL"@
    } else if name == "dolby_vision_el_hdr10_plus"@ {
        "DOVIWithELHDR10Plus"@
    } else if name == "dovi_invalid"@ {
        "DOVIInvalid"@
    } else if name == "hlg"@ {
        "HLG"@
    } else {
        text::uppercase(hdr)
    }
}

/// The range types any one of which lets a client show a stream of the given range type.
pub open spec fn playable_as(range: Seq<char>) -> Seq<Seq<char>> {
    if range == "SDR"@ {
        seq!["SDR"@, "DOVIWithSDR"@]
    } else if range == "HDR10"@ {
        seq!["HDR10"@, "DOVIWithHDR10"@]
    } else if range == "HDR10Plus"@ {
        seq!["HDR10Plus"@, "HDR10"@, "DOVIWithHDR10Plus"@, "DOVIWithHDR10"@]
    } else if range == "HLG"@ {
        seq!["HLG"@, "DOVIWithHLG"@]
    } else if range == "DOVI"@ {
        seq![
            "DOVI"@,
            "DOVIWithHDR10"@,
            "DOVIWithHLG"@,
            "DOVIWithSDR"@,
            "DOVIWithEL"@,
            "DOVIInvalid"@,
        ]
    } else if range == "DOVIWithHDR10"@ {
        seq!["DOVIWithHDR10"@, "DOVI"@, "HDR10"@]
    } else if range == "DOVIWithHDR10Plus"@ {
        seq!["DOVIWithHDR10Plus"@, "DOVIWithHDR10"@, "DOVI"@, "HDR10Plus"@, "HDR10"@]
    } else if range == "DOVIWithHLG"@ {
        seq!["DOVIWithHLG"@, "DOVI"@, "HLG"@]
    } else if range == "DOVIWithSDR"@ {
        seq!["DOVIWithSDR"@, "DOVI"@, "SDR"@]
    } else if range == "DOVIWithEL"@ {
        seq!["DOVIWithEL"@, "DOVI"@]
    } else if range == "DOVIWithELHDR10Plus"@ {
        seq!["DOVIWithELHDR10Plus"@, "DOVIWithEL"@, "DOVI"@, "HDR10Plus"@, "HDR10"@]
    } else if range == "DOVIInvalid"@ {
        seq!["DOVIInvalid"@, "DOVI"@, "HDR10"@]
    } else {
        seq![range]
    }
}

/// Whether the two lists have a text in common.
pub open spec fn share(a: Seq<Seq<char>>, b: Seq<Seq<char>>) -> bool {
    exists|i: int| 0 <= i < a.len() && b.contains(#[trigger] a[i])
}

/// The objection to the dynamic range.
pub open spec fn range_reason(hdr: Option<Seq<char>>, profile: ClientProfile) -> Option<
    Seq<char>,
> {
    match hdr {
        None => None,
        Some(hdr) => {
            let range = range_type(hdr);
            let supported = text::texts(profile.supported_range_types@);
            if share(playable_as(range), supported) {
                None
            } else {
                Some(
                    "VideoRangeTypeNotSupported (source="@ + range + ", client supports=["@
                        + text::joined(supported, ","@) + "])"@,
                )
            }
        },
    }
}

/// The objection to the bit depth.
pub open spec fn depth_reason(
    codec: Seq<char>,
    vs: VideoStreamInfo,
    profile: ClientProfile,
) -> Option<Seq<char>> {
    match vs.bit_depth {
        None => None,
        Some(depth) => if depth > 8 && codec == "h264"@ && !text::texts(
            profile.h264_profiles@,
        ).contains("high10"@) {
            Some(
                "VideoBitDepthNotSupported (h264 "@ + number::signed_decimal(depth as int)
                    + "-bit, client lacks high 10)"@,
            )
        } else {
            match profile.max_video_bit_depth {
                Some(max) => if depth > max {
                    Some(
                        "VideoBitDepthNotSupported ("@ + codec + " "@ + number::signed_decimal(
                            depth as int,
                        ) + "-bit > max="@ + number::signed_decimal(max as int) + ")"@,
                    )
                } else {
                    None
                },
                None => None,
            }
        },
    }
}

/// The bit pattern of 5.2, the highest H.264 level of a client that reports none.
pub const USUAL_H264_LEVEL: u64 = 0x4014_CCCC_CCCC_CCCD;

/// The highest HEVC level of a client that reports none.
pub const USUAL_HEVC_LEVEL: i32 = 120;

/// The bit pattern of 10, above which a level is on the scale of 52.
pub const TEN: u64 = 0x4024_0000_0000_0000;

/// The level on the scale of 5.2.
pub open spec fn on_small_scale(l: H264Level) -> Float {
    if number::above(l.value.bits, TEN) {
        l.tenth
    } else {
        l.value
    }
}

/// The bit pattern of the highest H.264 level of a client, on the scale of 5.2.
pub open spec fn h264_bound(max: Option<H264Level>) -> u64 {
    match max {
        Some(m) => on_small_scale(m).bits,
        None => USUAL_H264_LEVEL,
    }
}

/// The objection to the level of an H.264 stream.
pub open spec fn h264_level_reason(level: H264Level, max: Option<H264Level>) -> Option<Seq<char>> {
    let got = on_small_scale(level);
    let shown = match max {
        Some(m) => on_small_scale(m).text@,
        None => "5.2"@,
    };
    if number::above(got.bits, h264_bound(max)) {
        Some("VideoLevelNotSupported (h264 level="@ + got.text@ + " > max="@ + shown + ")"@)
    } else {
        None
    }
}

/// The level in thirtieths: a level up to ten is on the scale of 5.2.
pub open spec fn in_thirtieths(l: VideoLevel) -> i32 {
    if number::at_most(l.level.value.bits, TEN) {
        l.thirtyfold
    } else {
        l.whole
    }
}

/// The highest HEVC level of a client, in thirtieths.
pub open spec fn hevc_bound(max: Option<i32>) -> i32 {
    match max {
        Some(m) => m,
        None => USUAL_HEVC_LEVEL,
    }
}

/// The objection to a level that is a whole number.
pub open spec fn whole_level_reason(codec: Seq<char>, level: i32, max: i32) -> Option<Seq<char>> {
    if level > max {
        Some(
            "VideoLevelNotSupported ("@ + codec + " level="@ + number::signed_decimal(
                level as int,
            ) + " > max="@ + number::signed_decimal(max as int) + ")"@,
        )
    } else {
        None
    }
}

/// The objection to the level.
pub open spec fn level_reason(
    codec: Seq<char>,
    vs: VideoStreamInfo,
    profile: ClientProfile,
) -> Option<Seq<char>> {
    match vs.level {
        None => None,
        Some(level) => if codec == "h264"@ {
            h264_level_reason(level.level, profile.max_h264_level)
        } else if codec == "hevc"@ {
            whole_level_reason(codec, in_thirtieths(level), hevc_bound(profile.max_hevc_level))
        } else if codec == "av1"@ {
            match profile.max_av1_level {
                Some(max) => whole_level_reason(codec, level.whole, max),
                None => None,
            }
        } else {
            None
        },
    }
}

/// The bit rate in bits per second that a stream of unknown bit rate is taken to have.
pub const UNKNOWN_BITRATE: i64 = 40_000_000;

/// The bit rate of the stream in bits per second.
pub open spec fn bits_per_second(vs: VideoStreamInfo) -> int {
    match vs.bitrate_kbps {
        Some(k) => k * 1000,
        None => UNKNOWN_BITRATE as int,
    }
}

/// The objection to the bit rate.
pub open spec fn bitrate_reason(vs: VideoStreamInfo, profile: ClientProfile) -> Option<Seq<char>> {
    match profile.max_bitrate {
        None => None,
        Some(max) => if bits_per_second(vs) > max {
            Some(
                "VideoBitrateNotSupported ("@ + number::signed_decimal(bits_per_second(vs))
                    + " bps > max="@ + number::signed_decimal(max as int) + " bps)"@,
            )
        } else {
            None
        },
    }
}

/// The objection to a whole number above its limit.
pub open spec fn over_reason(
    front: Seq<char>,
    value: Option<i32>,
    max: Option<i32>,
) -> Option<Seq<char>> {
    match (max, value) {
        (Some(max), Some(v)) => if v > max {
            Some(
                front + number::signed_decimal(v as int) + " > max="@ + number::signed_decimal(
                    max as int,
                ) + ")"@,
            )
        } else {
            None
        },
        _ => None,
    }
}

/// The objection to a frame rate above its limit.
pub open spec fn framerate_reason(
    front: Seq<char>,
    rate: Option<Float>,
    max: Option<FrameRateLimit>,
) -> Option<Seq<char>> {
    match (max, rate) {
        (Some(max), Some(rate)) => if number::above(rate.bits, max.tolerated.bits) {
            Some(front + rate.text@ + " fps > max="@ + max.value.text@ + " fps)"@)
        } else {
            None
        },
        _ => None,
    }
}

/// The objection to the frame rate of an HEVC stream.
pub open spec fn hevc_framerate_reason(
    codec: Seq<char>,
    vs: VideoStreamInfo,
    profile: ClientProfile,
) -> Option<Seq<char>> {
    if codec == "hevc"@ {
        framerate_reason(
            "VideoFramerateNotSupported (HEVC "@,
            vs.frame_rate,
            profile.hevc_max_framerate,
        )
    } else {
        None
    }
}

/// The objections to a video stream, in the order in which they are raised.
pub open spec fn video_objections(
    codec: Seq<char>,
    supported: Seq<Seq<char>>,
    vp: Option<Seq<char>>,
    hdr: Option<Seq<char>>,
    vs: VideoStreamInfo,
    profile: ClientProfile,
) -> Seq<Option<Seq<char>>> {
    seq![
        codec_reason(codec, supported),
        interlaced_reason(vs),
        anamorphic_reason(vs, profile),
        profile_reason(codec, vp, profile),
        range_reason(hdr, profile),
        depth_reason(codec, vs, profile),
        level_reason(codec, vs, profile),
        bitrate_reason(vs, profile),
        over_reason("VideoResolutionNotSupported (width="@, vs.width, profile.max_width),
        over_reason("VideoResolutionNotSupported (height="@, vs.height, profile.max_height),
        over_reason("RefFramesNotSupported ("@, vs.ref_frames, profile.max_ref_frames),
        framerate_reason("VideoFramerateNotSupported ("@, vs.frame_rate, profile.max_framerate),
        hevc_framerate_reason(codec, vs, profile),
    ]
}

/// Whether `reason` is the first of the objections that is raised, or `None` where none is.
pub open spec fn is_first_of(
    reason: Option<Seq<char>>,
    objections: Seq<Option<Seq<char>>>,
) -> bool {
    match reason {
        None => forall|i: int| 0 <= i < objections.len() ==> #[trigger] objections[i] is None,
        Some(_) => exists|i: int|
            {
                &&& 0 <= i < objections.len()
                &&& #[trigger] objections[i] == reason
                &&& forall|k: int| 0 <= k < i ==> #[trigger] objections[k] is None
            },
    }
}

/// Whether an objection is raised.
pub open spec fn any_raised(objections: Seq<Option<Seq<char>>>) -> bool {
    exists|i: int| 0 <= i < objections.len() && #[trigger] objections[i] is Some
}

/// Whether `reason` is what `video_transcode_reason` answers: nothing where there is no
/// video, else the first objection.
pub open spec fn video_reason_is(
    reason: Option<Seq<char>>,
    codec: Option<Seq<char>>,
    supported: Seq<Seq<char>>,
    vp: Option<Seq<char>>,
    hdr: Option<Seq<char>>,
    vs: VideoStreamInfo,
    profile: ClientProfile,
) -> bool {
    match codec {
        None => reason is None,
        Some(name) => is_first_of(reason, video_objections(name, supported, vp, hdr, vs, profile)),
    }
}

/// There is one first objection: two reasons that are both the first are the same.
pub proof fn first_objection_is_unique(
    a: Option<Seq<char>>,
    b: Option<Seq<char>>,
    objections: Seq<Option<Seq<char>>>,
)
    requires
        is_first_of(a, objections),
        is_first_of(b, objections),
    ensures
        a == b,
{
    if a is Some && b is Some {
        let i = choose|i: int|
            {
                &&& 0 <= i < objections.len()
                &&& #[trigger] objections[i] == a
                &&& forall|k: int| 0 <= k < i ==> #[trigger] objections[k] is None
            };
        let j = choose|j: int|
            {
                &&& 0 <= j < objections.len()
                &&& #[trigger] objections[j] == b
                &&& forall|k: int| 0 <= k < j ==> #[trigger] objections[k] is None
            };
        if i < j {
            assert(objections[i] is None);
        } else if j < i {
            assert(objections[j] is None);
        }
    }
}

/// A reason is given exactly where an objection is raised.
pub proof fn reason_means_objection(
    reason: Option<Seq<char>>,
    objections: Seq<Option<Seq<char>>>,
)
    requires
        is_first_of(reason, objections),
    ensures
        reason is Some <==> any_raised(objections),
{
}

/// A client that lists the range type of the source itself raises no objection to it.
pub proof fn own_range_is_accepted(hdr: Seq<char>, profile: ClientProfile)
    requires
        text::texts(profile.supported_range_types@).contains(range_type(hdr)),
    ensures
        range_reason(Some(hdr), profile) is None,
{
    let range = range_type(hdr);
    assert(playable_as(range)[0] == range);
}

/// Whether the limit `b` is the limit `a`, raised or dropped.
pub open spec fn eases(a: Option<i32>, b: Option<i32>) -> bool {
    match (a, b) {
        (_, None) => true,
        (Some(low), Some(high)) => low <= high,
        (None, Some(_)) => false,
    }
}

/// Whether the bit pattern `b` bounds no more than `a` does: it is no lower, or no number.
pub open spec fn bounds_less(a: u64, b: u64) -> bool {
    number::at_most(a, b) || number::not_a_number(b)
}

/// Whether the limit `b` on the frame rate is the limit `a`, raised or dropped.
pub open spec fn eases_rate(a: Option<FrameRateLimit>, b: Option<FrameRateLimit>) -> bool {
    match (a, b) {
        (_, None) => true,
        (Some(low), Some(high)) => bounds_less(low.tolerated.bits, high.tolerated.bits),
        (None, Some(_)) => false,
    }
}

/// Whether `q` is the client `p` with limits on video raised or dropped. Where an H.264 or
/// HEVC level is dropped, the usual one takes its place, and that must not be lower.
pub open spec fn eases_limits(p: ClientProfile, q: ClientProfile) -> bool {
    &&& text::texts(q.supported_range_types@) == text::texts(p.supported_range_types@)
    &&& text::texts(q.h264_profiles@) == text::texts(p.h264_profiles@)
    &&& text::texts(q.hevc_profiles@) == text::texts(p.hevc_profiles@)
    &&& p.supports_anamorphic ==> q.supports_anamorphic
    &&& eases(p.max_video_bit_depth, q.max_video_bit_depth)
    &&& bounds_less(h264_bound(p.max_h264_level), h264_bound(q.max_h264_level))
    &&& hevc_bound(p.max_hevc_level) <= hevc_bound(q.max_hevc_level)
    &&& eases(p.max_av1_level, q.max_av1_level)
    &&& q.max_bitrate matches Some(high) ==> p.max_bitrate matches Some(low) && low <= high
    &&& eases(p.max_width, q.max_width)
    &&& eases(p.max_height, q.max_height)
    &&& eases(p.max_ref_frames, q.max_ref_frames)
    &&& eases_rate(p.max_framerate, q.max_framerate)
    &&& eases_rate(p.hevc_max_framerate, q.hevc_max_framerate)
}

/// A client whose limits are raised or dropped raises no objection that it did not raise
/// before: what it could play it still can.
pub proof fn higher_limits_object_to_less(
    codec: Seq<char>,
    supported: Seq<Seq<char>>,
    vp: Option<Seq<char>>,
    hdr: Option<Seq<char>>,
    vs: VideoStreamInfo,
    p: ClientProfile,
    q: ClientProfile,
)
    requires
        eases_limits(p, q),
    ensures
        ({
            let before = video_objections(codec, supported, vp, hdr, vs, p);
            let after = video_objections(codec, supported, vp, hdr, vs, q);
            &&& after.len() == before.len()
            &&& forall|i: int|
                0 <= i < after.len() && #[trigger] after[i] is Some ==> before[i] is Some
            &&& !any_raised(before) ==> !any_raised(after)
        }),
{
    let before = video_objections(codec, supported, vp, hdr, vs, p);
    let after = video_objections(codec, supported, vp, hdr, vs, q);
    assert(forall|i: int|
        0 <= i < after.len() && #[trigger] after[i] is Some ==> before[i] is Some);
}

/// A client that states no limits raises objections to the codec, interlacing, the profile,
/// the dynamic range, the depth of H.264 and the usual levels alone.
pub proof fn unlimited_client_has_few_objections(
    codec: Seq<char>,
    supported: Seq<Seq<char>>,
    vp: Option<Seq<char>>,
    hdr: Option<Seq<char>>,
    vs: VideoStreamInfo,
    profile: ClientProfile,
)
    requires
        profile.is_default(),
    ensures
        ({
            let all = video_objections(codec, supported, vp, hdr, vs, profile);
            &&& all[2] is None
            &&& forall|i: int| 7 <= i < all.len() ==> #[trigger] all[i] is None
        }),
{
}

// ── The checks ───────────────────────────────────────────────────────────────

fn check_codec(codec: &str, supported: &[String]) -> (r: Option<String>)
    ensures
        text::opt_string(r) == codec_reason(codec@, text::texts(supported@)),
{
    let listed: String;
    if supported.len() == 0 {
        let mut usual: Vec<String> = Vec::new();
        usual.push(text::copy_text("h264"));
        assert(text::texts(usual@) =~= seq!["h264"@]);
        if text::list_has(&usual, codec) {
            return None;
        }
        listed = text::join_list(&usual, ",");
    } else {
        if text::list_has(supported, codec) {
            return None;
        }
        listed = text::join_list(supported, ",");
    }
    let mut r = "VideoCodecNotSupported (source=".to_owned();
    r.append(codec);
    r.append(", client supports=[");
    r.append(listed.as_str());
    r.append("])");
    Some(r)
}

fn is_true(b: Option<bool>) -> (r: bool)
    ensures
        r == (b == Some(true)),
{
    match b {
        Some(x) => x,
        None => false,
    }
}

fn client_best(codec: &str, profiles: &[String]) -> (r: i32)
    ensures
        r == best_score(codec@, text::texts(profiles@)),
        r >= -1,
{
    let n: usize = profiles.len();
    let mut best: i32 = -1;
    let mut i: usize = 0;
    while i < n
        invariant
            n == profiles@.len(),
            i <= n,
            best >= -1,
            best == best_score(codec@, text::texts(profiles@).take(i as int)),
        decreases n - i,
    {
        proof {
            let next = text::texts(profiles@).take(i + 1);
            assert(next.drop_last() =~= text::texts(profiles@).take(i as int));
            assert(next.last() == profiles@[i as int]@);
        }
        let score: i32 = helpers::video_profile_score(codec, profiles[i].as_str());
        if score > best {
            best = score;
        }
        i += 1;
    }
    assert(text::texts(profiles@).take(n as int) =~= text::texts(profiles@));
    best
}

fn check_scored_profile(codec: &str, usual: &str, profiles: &[String], vp: &str) -> (r: Option<
    String,
>)
    ensures
        text::opt_string(r) == scored_profile_reason(codec@, usual@, text::texts(profiles@), vp@),
{
    let score: i32 = helpers::video_profile_score(codec, vp);
    if profiles.len() == 0 {
        let bound: i32 = helpers::video_profile_score(codec, usual);
        if score != -1 && score > bound {
            let mut r = "VideoProfileNotSupported (".to_owned();
            r.append(codec);
            r.append(" profile=");
            r.append(vp);
            r.append(")");
            return Some(r);
        }
    } else {
        let bound: i32 = client_best(codec, profiles);
        if score != -1 && bound != -1 && score > bound {
            let mut r = "VideoProfileNotSupported (".to_owned();
            r.append(codec);
            r.append(" profile=");
            r.append(vp);
            r.append(", client max=[");
            let listed = text::join_list(profiles, ",");
            r.append(listed.as_str());
            r.append("])");
            return Some(r);
        }
    }
    None
}

fn check_profile(codec: &str, vp: Option<&str>, profile: &ClientProfile) -> (r: Option<String>)
    ensures
        text::opt_string(r) == profile_reason(codec@, text::opt_text(vp), *profile),
{
    let vp = match vp {
        Some(vp) => vp,
        None => {
            return None;
        },
    };
    if text::same_text(codec, "h264") {
        check_scored_profile(codec, "high", &profile.h264_profiles, vp)
    } else if text::same_text(codec, "hevc") {
        check_scored_profile(codec, "main10", &profile.hevc_profiles, vp)
    } else if text::same_text(codec, "av1") {
        let lower = vp.to_lowercase();
        let name = text::drop_char(lower.as_str(), ' ');
        if !text::same_text(name.as_str(), "main") && !name.as_str().is_empty() {
            Some(
                text::join3("VideoProfileNotSupported (av1 profile=", vp, ", only 'main' supported)"),
            )
        } else {
            None
        }
    } else {
        None
    }
}

fn name_range(hdr: &str) -> (r: String)
    ensures
        r@ == range_type(hdr@),
{
    let lower = hdr.to_lowercase();
    let name = lower.as_str();
    if text::same_text(name, "sdr") {
        text::copy_text("SDR")
    } else if text::same_text(name, "hdr10") {
        text::copy_text("HDR10")
    } else if text::same_text(name, "hdr10plus") || text::same_text(name, "hdr10_plus") {
        text::copy_text("HDR10Plus")
    } else if text::same_text(name, "dolby_vision") || text::same_text(name, "dovi") {
        text::copy_text("DOVI")
    } else if text::same_text(name, "dolby_vision_hdr10") {
        text::copy_text("DOVIWithHDR10")
    } else if text::same_text(name, "dolby_vision_hdr10_plus") {
        text::copy_text("DOVIWithHDR10Plus")
    } else if text::same_text(name, "dolby_vision_hlg") {
        text::copy_text("DOVIWithHLG")
    } else if text::same_text(name, "dolby_vision_sdr") {
        text::copy_text("DOVIWithSDR")
    } else if text::same_text(name, "dolby_vision_el") {
        text::copy_text("DOVIWithEL")
    } else if text::same_text(name, "dolby_vision_el_hdr10_plus") {
        text::copy_text("DOVIWithELHDR10Plus")
    } else if text::same_text(name, "dovi_invalid") {
        text::copy_text("DOVIInvalid")
    } else if text::same_text(name, "hlg") {
        text::copy_text("HLG")
    } else {
        hdr.to_uppercase()
    }
}

fn lists_any(wanted: &[&str], list: &[String]) -> (r: bool)
    ensures
        r == share(text::literals(wanted@), text::texts(list@)),
{
    let n: usize = wanted.len();
    let mut i: usize = 0;
    while i < n
        invariant
            n == wanted@.len(),
            i <= n,
            forall|k: int|
                0 <= k < i ==> !text::texts(list@).contains(
                    #[trigger] text::literals(wanted@)[k],
                ),
        decreases n - i,
    {
        assert(text::literals(wanted@)[i as int] == wanted@[i as int]@);
        if text::list_has(list, wanted[i]) {
            return true;
        }
        i += 1;
    }
    false
}

fn is_playable(range: &str, list: &[String]) -> (r: bool)
    ensures
        r == share(playable_as(range@), text::texts(list@)),
{
    if text::same_text(range, "SDR") {
        let wanted = ["SDR", "DOVIWithSDR"];
        assert(text::literals(wanted@) =~= playable_as(range@));
        lists_any(&wanted, list)
    } else if text::same_text(range, "HDR10") {
        let wanted = ["HDR10", "DOVIWithHDR10"];
        assert(text::literals(wanted@) =~= playable_as(range@));
        lists_any(&wanted, list)
    } else if text::same_text(range, "HDR10Plus") {
        let wanted = ["HDR10Plus", "HDR10", "DOVIWithHDR10Plus", "DOVIWithHDR10"];
        assert(text::literals(wanted@) =~= playable_as(range@));
        lists_any(&wanted, list)
    } else if text::same_text(range, "HLG") {
        let wanted = ["HLG", "DOVIWithHLG"];
        assert(text::literals(wanted@) =~= playable_as(range@));
        lists_any(&wanted, list)
    } else if text::same_text(range, "DOVI") {
        let wanted = ["DOVI", "DOVIWithHDR10", "DOVIWithHLG", "DOVIWithSDR", "DOVIWithEL", "DOVIInvalid"];
        assert(text::literals(wanted@) =~= playable_as(range@));
        lists_any(&wanted, list)
    } else if text::same_text(range, "DOVIWithHDR10") {
        let wanted = ["DOVIWithHDR10", "DOVI", "HDR10"];
        assert(text::literals(wanted@) =~= playable_as(range@));
        lists_any(&wanted, list)
    } else if text::same_text(range, "DOVIWithHDR10Plus") {
        let wanted = ["DOVIWithHDR10Plus", "DOVIWithHDR10", "DOVI", "HDR10Plus", "HDR10"];
        assert(text::literals(wanted@) =~= playable_as(range@));
        lists_any(&wanted, list)
    } else if text::same_text(range, "DOVIWithHLG") {
        let wanted = ["DOVIWithHLG", "DOVI", "HLG"];
        assert(text::literals(wanted@) =~= playable_as(range@));
        lists_any(&wanted, list)
    } else if text::same_text(range, "DOVIWithSDR") {
        let wanted = ["DOVIWithSDR", "DOVI", "SDR"];
        assert(text::literals(wanted@) =~= playable_as(range@));
        lists_any(&wanted, list)
    } else if text::same_text(range, "DOVIWithEL") {
        let wanted = ["DOVIWithEL", "DOVI"];
        assert(text::literals(wanted@) =~= playable_as(range@));
        lists_any(&wanted, list)
    } else if text::same_text(range, "DOVIWithELHDR10Plus") {
        let wanted = ["DOVIWithELHDR10Plus", "DOVIWithEL", "DOVI", "HDR10Plus", "HDR10"];
        assert(text::literals(wanted@) =~= playable_as(range@));
        lists_any(&wanted, list)
    } else if text::same_text(range, "DOVIInvalid") {
        let wanted = ["DOVIInvalid", "DOVI", "HDR10"];
        assert(text::literals(wanted@) =~= playable_as(range@));
        lists_any(&wanted, list)
    } else {
        let wanted = [range];
        assert(text::literals(wanted@) =~= playable_as(range@));
        lists_any(&wanted, list)
    }
}

fn check_range(hdr: Option<&str>, profile: &ClientProfile) -> (r: Option<String>)
    ensures
        text::opt_string(r) == range_reason(text::opt_text(hdr), *profile),
{
    let hdr = match hdr {
        Some(hdr) => hdr,
        None => {
            return None;
        },
    };
    let range = name_range(hdr);
    if is_playable(range.as_str(), &profile.supported_range_types) {
        return None;
    }
    let mut r = "VideoRangeTypeNotSupported (source=".to_owned();
    r.append(range.as_str());
    r.append(", client supports=[");
    let listed = text::join_list(&profile.supported_range_types, ",");
    r.append(listed.as_str());
    r.append("])");
    Some(r)
}

fn check_depth(codec: &str, vs: &VideoStreamInfo, profile: &ClientProfile) -> (r: Option<String>)
    ensures
        text::opt_string(r) == depth_reason(codec@, *vs, *profile),
{
    let depth: i32 = match vs.bit_depth {
        Some(depth) => depth,
        None => {
            return None;
        },
    };
    if depth > 8 && text::same_text(codec, "h264") && !text::list_has(
        &profile.h264_profiles,
        "high10",
    ) {
        let shown = number::signed_text(depth as i128);
        return Some(
            text::join3(
                "VideoBitDepthNotSupported (h264 ",
                shown.as_str(),
                "-bit, client lacks high 10)",
            ),
        );
    }
    match profile.max_video_bit_depth {
        Some(max) => {
            if depth > max {
                let front = text::join3("VideoBitDepthNotSupported (", codec, " ");
                Some(
                    limit_text(front.as_str(), depth as i128, "-bit > max=", max as i128, ")"),
                )
            } else {
                None
            }
        },
        None => None,
    }
}

fn check_whole_level(codec: &str, level: i32, max: i32) -> (r: Option<String>)
    ensures
        text::opt_string(r) == whole_level_reason(codec@, level, max),
{
    if level > max {
        let front = text::join3("VideoLevelNotSupported (", codec, " level=");
        Some(limit_text(front.as_str(), level as i128, " > max=", max as i128, ")"))
    } else {
        None
    }
}

fn small_scale(l: &H264Level) -> (r: Float)
    ensures
        r.bits == on_small_scale(*l).bits,
        r.text@ == on_small_scale(*l).text@,
{
    if l.value.exceeds(&Float::new(TEN, "10")) {
        l.tenth.copy()
    } else {
        l.value.copy()
    }
}

fn check_h264_level(level: &H264Level, max: &Option<H264Level>) -> (r: Option<String>)
    ensures
        text::opt_string(r) == h264_level_reason(*level, *max),
{
    let got = small_scale(level);
    let bound = match max {
        Some(m) => small_scale(m),
        None => Float::new(USUAL_H264_LEVEL, "5.2"),
    };
    if got.exceeds(&bound) {
        let mut r = "VideoLevelNotSupported (h264 level=".to_owned();
        r.append(got.text.as_str());
        r.append(" > max=");
        r.append(bound.text.as_str());
        r.append(")");
        Some(r)
    } else {
        None
    }
}

fn check_level(codec: &str, vs: &VideoStreamInfo, profile: &ClientProfile) -> (r: Option<String>)
    ensures
        text::opt_string(r) == level_reason(codec@, *vs, *profile),
{
    match &vs.level {
        None => None,
        Some(level) => {
            if text::same_text(codec, "h264") {
                check_h264_level(&level.level, &profile.max_h264_level)
            } else if text::same_text(codec, "hevc") {
                let max: i32 = match profile.max_hevc_level {
                    Some(max) => max,
                    None => USUAL_HEVC_LEVEL,
                };
                let got: i32 = if level.level.value.at_most(&Float::new(TEN, "10")) {
                    level.thirtyfold
                } else {
                    level.whole
                };
                check_whole_level(codec, got, max)
            } else if text::same_text(codec, "av1") {
                match profile.max_av1_level {
                    Some(max) => check_whole_level(codec, level.whole, max),
                    None => None,
                }
            } else {
                None
            }
        },
    }
}

fn check_bitrate(vs: &VideoStreamInfo, profile: &ClientProfile) -> (r: Option<String>)
    ensures
        text::opt_string(r) == bitrate_reason(*vs, *profile),
{
    match profile.max_bitrate {
        None => None,
        Some(max) => {
            let rate: i128 = match vs.bitrate_kbps {
                Some(k) => k as i128 * 1000,
                None => UNKNOWN_BITRATE as i128,
            };
            let max: i128 = max as i128;
            if rate > max {
                Some(limit_text("VideoBitrateNotSupported (", rate, " bps > max=", max, " bps)"))
            } else {
                None
            }
        },
    }
}

fn check_over(front: &str, value: Option<i32>, max: Option<i32>) -> (r: Option<String>)
    ensures
        text::opt_string(r) == over_reason(front@, value, max),
{
    match (max, value) {
        (Some(max), Some(v)) => {
            if v > max {
                Some(limit_text(front, v as i128, " > max=", max as i128, ")"))
            } else {
                None
            }
        },
        _ => None,
    }
}

fn check_framerate(front: &str, rate: &Option<Float>, max: &Option<FrameRateLimit>) -> (r: Option<
    String,
>)
    ensures
        text::opt_string(r) == framerate_reason(front@, *rate, *max),
{
    match (max, rate) {
        (Some(max), Some(rate)) => {
            if rate.exceeds(&max.tolerated) {
                let mut r = front.to_owned();
                r.append(rate.text.as_str());
                r.append(" fps > max=");
                r.append(max.value.text.as_str());
                r.append(" fps)");
                Some(r)
            } else {
                None
            }
        },
        _ => None,
    }
}

// ── The answers ──────────────────────────────────────────────────────────────

/// The reason why the video stream needs transcoding, or `None` where it can be copied.
/// `video_codec` is the canonical name of the stream's codec, and `supported` holds those of
/// the codecs that the profile lists.
pub fn video_transcode_reason(
    video_codec: Option<&str>,
    supported: &[String],
    video_profile: Option<&str>,
    hdr_type: Option<&str>,
    vs: &VideoStreamInfo,
    profile: &ClientProfile,
) -> (r: Option<String>)
    ensures
        video_reason_is(
            text::opt_string(r),
            text::opt_text(video_codec),
            text::texts(supported@),
            text::opt_text(video_profile),
            text::opt_text(hdr_type),
            *vs,
            *profile,
        ),
{
    let codec = match video_codec {
        Some(codec) => codec,
        None => {
            return None;
        },
    };
    let ghost all = video_objections(
        codec@,
        text::texts(supported@),
        text::opt_text(video_profile),
        text::opt_text(hdr_type),
        *vs,
        *profile,
    );
    let reason = check_codec(codec, supported);
    assert(all[0] == text::opt_string(reason));
    if reason.is_some() {
        return reason;
    }
    let reason = if is_true(vs.is_interlaced) {
        Some(text::copy_text("InterlacedVideoNotSupported"))
    } else {
        None
    };
    assert(all[1] == text::opt_string(reason));
    if reason.is_some() {
        return reason;
    }
    let reason = if !profile.supports_anamorphic && is_true(vs.is_anamorphic) {
        Some(text::copy_text("AnamorphicVideoNotSupported"))
    } else {
        None
    };
    assert(all[2] == text::opt_string(reason));
    if reason.is_some() {
        return reason;
    }
    let reason = check_profile(codec, video_profile, profile);
    assert(all[3] == text::opt_string(reason));
    if reason.is_some() {
        return reason;
    }
    let reason = check_range(hdr_type, profile);
    assert(all[4] == text::opt_string(reason));
    if reason.is_some() {
        return reason;
    }
    let reason = check_depth(codec, vs, profile);
    assert(all[5] == text::opt_string(reason));
    if reason.is_some() {
        return reason;
    }
    let reason = check_level(codec, vs, profile);
    assert(all[6] == text::opt_string(reason));
    if reason.is_some() {
        return reason;
    }
    let reason = check_bitrate(vs, profile);
    assert(all[7] == text::opt_string(reason));
    if reason.is_some() {
        return reason;
    }
    let reason = check_over("VideoResolutionNotSupported (width=", vs.width, profile.max_width);
    assert(all[8] == text::opt_string(reason));
    if reason.is_some() {
        return reason;
    }
    let reason = check_over("VideoResolutionNotSupported (height=", vs.height, profile.max_height);
    assert(all[9] == text::opt_string(reason));
    if reason.is_some() {
        return reason;
    }
    let reason = check_over("RefFramesNotSupported (", vs.ref_frames, profile.max_ref_frames);
    assert(all[10] == text::opt_string(reason));
    if reason.is_some() {
        return reason;
    }
    let reason = check_framerate(
        "VideoFramerateNotSupported (",
        &vs.frame_rate,
        &profile.max_framerate,
    );
    assert(all[11] == text::opt_string(reason));
    if reason.is_some() {
        return reason;
    }
    let reason = if text::same_text(codec, "hevc") {
        check_framerate(
            "VideoFramerateNotSupported (HEVC ",
            &vs.frame_rate,
            &profile.hevc_max_framerate,
        )
    } else {
        None
    };
    assert(all[12] == text::opt_string(reason));
    if reason.is_some() {
        return reason;
    }
    assert forall|i: int| 0 <= i < all.len() implies #[trigger] all[i] is None by {}
    None
}

/// Whether the video needs transcoding, and cannot be played directly.
pub fn needs_video_transcode(
    video_codec: Option<&str>,
    supported: &[String],
    video_profile: Option<&str>,
    hdr_type: Option<&str>,
    vs: &VideoStreamInfo,
    profile: &ClientProfile,
) -> (r: bool)
    ensures
        r == (video_codec matches Some(codec) && any_raised(
            video_objections(
                codec@,
                text::texts(supported@),
                text::opt_text(video_profile),
                text::opt_text(hdr_type),
                *vs,
                *profile,
            ),
        )),
{
    let r = video_transcode_reason(
        video_codec,
        supported,
        video_profile,
        hdr_type,
        vs,
        profile,
    ).is_some();
    r
}

/// Whether the kind of dynamic range is a high one.
pub fn is_hdr(hdr_type: Option<&str>) -> (r: bool)
    ensures
        r == (hdr_type matches Some(ht) && text::lowercase(ht@).len() > 0 && text::lowercase(ht@)
            != "sdr"@),
{
    match hdr_type {
        None => false,
        Some(ht) => {
            let lower = ht.to_lowercase();
            !lower.as_str().is_empty() && !text::same_text(lower.as_str(), "sdr")
        },
    }
}

/// The objection to the codec tag of an HEVC stream, where the client has requirements.
pub open spec fn hevc_tag_reason(
    codec: Seq<char>,
    tag: Option<Seq<char>>,
    tags: Seq<Seq<char>>,
) -> Option<Seq<char>> {
    if codec == "hevc"@ && tags.len() > 0 {
        match tag {
            Some(tag) => if tags.contains(text::lowercase(tag)) {
                None
            } else {
                Some(
                    "VideoCodecTagNotSupported (tag="@ + tag + ", client requires=["@
                        + text::joined(tags, ","@) + "])"@,
                )
            },
            None => Some("VideoCodecTagNotSupported (tag unknown, client has requirements)"@),
        }
    } else {
        None
    }
}

/// The objection to an H.264 stream in an AVI file that is not in the AVC form.
pub open spec fn avi_reason(codec: Seq<char>, vs: VideoStreamInfo, path: Seq<char>) -> Option<
    Seq<char>,
> {
    if codec == "h264"@ && vs.is_avc == Some(false) && container::extension(path) == "avi"@ {
        Some("VideoCodecTagNotSupported (h264 non-AVC in AVI)"@)
    } else {
        None
    }
}

/// The reason why the codec tag does not suit the client, or `None`. `video_codec` is the
/// canonical name of the stream's codec.
pub fn codec_tag_transcode_reason(
    video_codec: Option<&str>,
    vs: &VideoStreamInfo,
    profile: &ClientProfile,
    path: &str,
) -> (r: Option<String>)
    ensures
        text::opt_string(r) == match video_codec {
            None => None,
            Some(codec) => match hevc_tag_reason(
                codec@,
                text::opt_string(vs.codec_tag),
                text::texts(profile.hevc_codec_tags@),
            ) {
                Some(reason) => Some(reason),
                None => avi_reason(codec@, *vs, path@),
            },
        },
{
    let codec = match video_codec {
        Some(codec) => codec,
        None => {
            return None;
        },
    };
    if text::same_text(codec, "hevc") && profile.hevc_codec_tags.len() > 0 {
        match &vs.codec_tag {
            Some(tag) => {
                let lower = tag.as_str().to_lowercase();
                if !text::list_has(&profile.hevc_codec_tags, lower.as_str()) {
                    let mut r = "VideoCodecTagNotSupported (tag=".to_owned();
                    r.append(tag.as_str());
                    r.append(", client requires=[");
                    let listed = text::join_list(&profile.hevc_codec_tags, ",");
                    r.append(listed.as_str());
                    r.append("])");
                    return Some(r);
                }
            },
            None => {
                return Some(
                    text::copy_text(
                        "VideoCodecTagNotSupported (tag unknown, client has requirements)",
                    ),
                );
            },
        }
    }
    let not_avc = match vs.is_avc {
        Some(avc) => !avc,
        None => false,
    };
    if text::same_text(codec, "h264") && not_avc {
        let ext = container::path_extension(path);
        if text::same_text(ext.as_str(), "avi") {
            return Some(text::copy_text("VideoCodecTagNotSupported (h264 non-AVC in AVI)"));
        }
    }
    None
}

/// The reason why an H.264 stream in a container known for open groups of pictures cannot be
/// copied: seeking in it breaks.
pub fn open_gop_transcode_reason(path: &str, video_codec: Option<&str>) -> (r: Option<String>)
    ensures
        text::opt_string(r) == if helpers::open_gop_containers().contains(
            container::extension(path@),
        ) && (video_codec matches Some(codec) && text::lowercase(codec@) == "h264"@) {
            Some("OpenGOP (m2ts H.264 non-IDR I-slices, MSE seek incompatible)"@)
        } else {
            None
        },
{
    let ext = container::path_extension(path);
    let h264 = match video_codec {
        Some(codec) => {
            let lower = codec.to_lowercase();
            text::same_text(lower.as_str(), "h264")
        },
        None => false,
    };
    if helpers::is_open_gop_container(ext.as_str()) && h264 {
        Some(text::copy_text("OpenGOP (m2ts H.264 non-IDR I-slices, MSE seek incompatible)"))
    } else {
        None
    }
}

}
