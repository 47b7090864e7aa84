//! Audio streams.
use super::helpers;
use super::types::{AudioInfo, ClientProfile};
use crate::number;
use crate::text;
use vstd::prelude::*;
use vstd::string::*;

verus! {

/// The first reason of the two.
pub open spec fn earlier(a: Option<Seq<char>>, b: Option<Seq<char>>) -> Option<Seq<char>> {
    match a {
        Some(reason) => Some(reason),
        None => b,
    }
}

/// Whether the client decodes the audio codec: it lists it, or lists nothing and browsers do.
pub open spec fn audio_codec_supported(codec: Seq<char>, client: Seq<Seq<char>>) -> bool {
    if client.len() == 0 {
        helpers::browser_audio().contains(codec)
    } else {
        client.contains(codec)
    }
}

/// The objection to the bit depth.
pub open spec fn audio_depth_reason(info: AudioInfo, profile: ClientProfile) -> Option<Seq<char>> {
    match (profile.max_audio_bit_depth, info.bit_depth) {
        (Some(max), Some(depth)) => if depth > max {
            Some(
                "AudioBitDepthNotSupported ("@ + number::signed_decimal(depth as int)
                    + "-bit > max="@ + number::signed_decimal(max as int) + ")"@,
            )
        } else {
            None
        },
        _ => None,
    }
}

/// The objection to the number of channels.
pub open spec fn audio_channels_reason(info: AudioInfo, profile: ClientProfile) -> Option<
    Seq<char>,
> {
    match (profile.max_audio_channels, info.channels) {
        (Some(max), Some(channels)) => if channels <= 0 {
            Some("AudioChannelsNotSupported (invalid: ≤0)"@)
        } else if channels > max {
            Some(
                "AudioChannelsNotSupported ("@ + number::signed_decimal(channels as int)
                    + "ch > max="@ + number::signed_decimal(max as int) + ")"@,
            )
        } else {
            None
        },
        _ => None,
    }
}

/// The objection to the sample rate.
pub open spec fn audio_rate_reason(info: AudioInfo, profile: ClientProfile) -> Option<Seq<char>> {
    match (profile.max_audio_sample_rate, info.sample_rate) {
        (Some(max), Some(rate)) => if rate <= 0 {
            Some("AudioSampleRateNotSupported (invalid: ≤0)"@)
        } else if rate > max {
            Some(
                "AudioSampleRateNotSupported ("@ + number::signed_decimal(rate as int)
                    + " > max="@ + number::signed_decimal(max as int) + ")"@,
            )
        } else {
            None
        },
        _ => None,
    }
}

/// The objection to the bit rate.
pub open spec fn audio_bitrate_reason(info: AudioInfo, profile: ClientProfile) -> Option<
    Seq<char>,
> {
    match (profile.max_audio_bitrate, info.bitrate) {
        (Some(max), Some(rate)) => if rate > max {
            Some(
                "AudioBitrateNotSupported ("@ + number::signed_decimal(rate as int) + " > max="@
                    + number::signed_decimal(max as int) + ")"@,
            )
        } else {
            None
        },
        _ => None,
    }
}

/// The first objection to an audio stream: to its codec, and where more is known of it, to
/// its bit depth, its channels, its sample rate and its bit rate, in this order. There is
/// none where there is no audio.
pub open spec fn audio_reason(
    codec: Option<Seq<char>>,
    info: Option<AudioInfo>,
    profile: ClientProfile,
    client: Seq<Seq<char>>,
) -> Option<Seq<char>> {
    match (codec, info) {
        (None, _) => None,
        (Some(name), about) => if !audio_codec_supported(name, client) {
            Some("AudioCodecNotSupported ("@ + name + ")"@)
        } else {
            match about {
                None => None,
                Some(info) => earlier(
                    audio_depth_reason(info, profile),
                    earlier(
                        audio_channels_reason(info, profile),
                        earlier(
                            audio_rate_reason(info, profile),
                            audio_bitrate_reason(info, profile),
                        ),
                    ),
                ),
            }
        },
    }
}

/// Writes `front`, a number, `middle`, a number and `back`.
pub fn limit_text(front: &str, a: i128, middle: &str, b: i128, back: &str) -> (r: String)
    ensures
        r@ == front@ + number::signed_decimal(a as int) + middle@ + number::signed_decimal(
            b as int,
        ) + back@,
{
    let mut r = front.to_owned();
    let left = number::signed_text(a);
    r.append(left.as_str());
    r.append(middle);
    let right = number::signed_text(b);
    r.append(right.as_str());
    r.append(back);
    r
}

/// Whether the audio needs transcoding for a client of which nothing is known: whether
/// browsers cannot typically decode the codec. `audio_codec` is the codec's canonical name.
pub fn needs_audio_transcode(audio_codec: Option<&str>) -> (r: bool)
    ensures
        r == (audio_codec matches Some(codec) && !helpers::browser_audio().contains(codec@)),
        forall|profile: ClientProfile| #[trigger]
            profile.is_default() ==> r == (audio_reason(
                text::opt_text(audio_codec),
                None,
                profile,
                Seq::empty(),
            ) is Some),
{
    let profile = ClientProfile::default();
    let none: Vec<String> = Vec::new();
    assert(text::texts(none@) =~= Seq::<Seq<char>>::empty());
    audio_transcode_reason(audio_codec, None, &profile, &none).is_some()
}

/// The reason why the audio stream needs transcoding, or `None` where it can be copied.
/// `audio_codec` is the codec's canonical name.
pub fn audio_transcode_reason(
    audio_codec: Option<&str>,
    audio_info: Option<&AudioInfo>,
    profile: &ClientProfile,
    client_audio_codecs: &[String],
) -> (r: Option<String>)
    ensures
        text::opt_string(r) == audio_reason(
            text::opt_text(audio_codec),
            match audio_info {
                Some(info) => Some(*info),
                None => None,
            },
            *profile,
            text::texts(client_audio_codecs@),
        ),
{
    let codec = match audio_codec {
        Some(codec) => codec,
        None => {
            return None;
        },
    };
    let supported = if client_audio_codecs.len() == 0 {
        helpers::is_browser_audio(codec)
    } else {
        text::list_has(client_audio_codecs, codec)
    };
    if !supported {
        return Some(text::join3("AudioCodecNotSupported (", codec, ")"));
    }
    let info = match audio_info {
        Some(info) => info,
        None => {
            return None;
        },
    };
    if let (Some(max), Some(depth)) = (profile.max_audio_bit_depth, info.bit_depth) {
        if depth > max {
            return Some(
                limit_text(
                    "AudioBitDepthNotSupported (",
                    depth as i128,
                    "-bit > max=",
                    max as i128,
                    ")",
                ),
            );
        }
    }
    if let (Some(max), Some(channels)) = (profile.max_audio_channels, info.channels) {
        if channels <= 0 {
            return Some(text::copy_text("AudioChannelsNotSupported (invalid: ≤0)"));
        }
        if channels > max as i64 {
            return Some(
                limit_text(
                    "AudioChannelsNotSupported (",
                    channels as i128,
                    "ch > max=",
                    max as i128,
                    ")",
                ),
            );
        }
    }
    if let (Some(max), Some(rate)) = (profile.max_audio_sample_rate, info.sample_rate) {
        if rate <= 0 {
            return Some(text::copy_text("AudioSampleRateNotSupported (invalid: ≤0)"));
        }
        if rate > max as i64 {
            return Some(
                limit_text(
                    "AudioSampleRateNotSupported (",
                    rate as i128,
                    " > max=",
                    max as i128,
                    ")",
                ),
            );
        }
    }
    if let (Some(max), Some(rate)) = (profile.max_audio_bitrate, info.bitrate) {
        if rate > max {
            return Some(
                limit_text(
                    "AudioBitrateNotSupported (",
                    rate as i128,
                    " > max=",
                    max as i128,
                    ")",
                ),
            );
        }
    }
    None
}

}
