//! What is known of a media file and of the client that asks for it.
use crate::json;
use crate::number;
use crate::number::Float;
use crate::text;
use vstd::prelude::*;

verus! {

/// What the decisions need to know of an audio stream.
#[derive(Debug, Clone)]
pub struct AudioInfo {
    pub channels: Option<i64>,
    pub bitrate: Option<i64>,
    pub sample_rate: Option<i64>,
    pub bit_depth: Option<i32>,
    pub profile: Option<String>,
}

impl Default for AudioInfo {
    fn default() -> (r: AudioInfo)
        ensures
            r.channels is None,
            r.bitrate is None,
            r.sample_rate is None,
            r.bit_depth is None,
            r.profile is None,
    {
        AudioInfo {
            channels: None,
            bitrate: None,
            sample_rate: None,
            bit_depth: None,
            profile: None,
        }
    }
}

/// An H.264 level: it comes on the scale of 5.2 or on that of 52.
#[derive(Debug, Clone)]
pub struct H264Level {
    pub value: Float,
    /// A tenth of it.
    pub tenth: Float,
}

/// A limit on the frame rate.
#[derive(Debug, Clone)]
pub struct FrameRateLimit {
    pub value: Float,
    /// The limit with 0.05 added, which a frame rate may not be above.
    pub tolerated: Float,
}

/// The device profile of a client, as its query string gives it.
#[derive(Debug, Clone)]
pub struct ClientProfile {
    pub supported_vc: Vec<String>,
    pub supported_range_types: Vec<String>,
    pub max_h264_level: Option<H264Level>,
    pub max_hevc_level: Option<i32>,
    pub max_bitrate: Option<i64>,
    pub max_width: Option<i32>,
    pub max_height: Option<i32>,
    pub max_ref_frames: Option<i32>,
    pub max_framerate: Option<FrameRateLimit>,
    pub supports_anamorphic: bool,
    pub hevc_codec_tags: Vec<String>,
    pub max_video_bit_depth: Option<i32>,
    pub max_audio_channels: Option<i32>,
    pub max_audio_bitrate: Option<i64>,
    pub max_audio_sample_rate: Option<i32>,
    pub max_audio_bit_depth: Option<i32>,
    /// The highest frame rate of HEVC video.
    pub hevc_max_framerate: Option<FrameRateLimit>,
    /// The highest AV1 level (15 to 19).
    pub max_av1_level: Option<i32>,
    /// The H.264 profiles that the client reports.
    pub h264_profiles: Vec<String>,
    /// The HEVC profiles that the client reports.
    pub hevc_profiles: Vec<String>,
}

/// The `i32` that an optional parameter writes.
pub open spec fn opt_i32(s: Option<&str>) -> Option<i32> {
    match s {
        Some(x) => number::i32_value(x@),
        None => None,
    }
}

/// The `i64` that an optional parameter writes.
pub open spec fn opt_i64(s: Option<&str>) -> Option<i64> {
    match s {
        Some(x) => number::i64_value(x@),
        None => None,
    }
}

/// The list that an optional parameter writes; none where it is absent.
pub open spec fn opt_list(s: Option<&str>, sep: char, how: text::Cleaning) -> Seq<Seq<char>> {
    match s {
        Some(x) => text::listed(x@, sep, how),
        None => Seq::empty(),
    }
}

/// The range types that a parameter writes: standard range alone where it is empty.
pub open spec fn range_list(vr: Seq<char>) -> Seq<Seq<char>> {
    if vr.len() == 0 {
        seq!["SDR"@]
    } else {
        text::listed(vr, ',', text::Cleaning::Trim)
    }
}

fn read_i32(s: Option<&str>) -> (r: Option<i32>)
    ensures
        r == opt_i32(s),
{
    match s {
        Some(x) => number::parse_i32(x),
        None => None,
    }
}

fn read_i64(s: Option<&str>) -> (r: Option<i64>)
    ensures
        r == opt_i64(s),
{
    match s {
        Some(x) => number::parse_i64(x),
        None => None,
    }
}

fn read_opt_list(s: Option<&str>, sep: char, how: text::Cleaning) -> (r: Vec<String>)
    ensures
        text::texts(r@) == opt_list(s, sep, how),
{
    match s {
        Some(x) => text::read_list(x, sep, how),
        None => {
            let none: Vec<String> = Vec::new();
            assert(text::texts(none@) =~= Seq::<Seq<char>>::empty());
            none
        },
    }
}

fn standard_range() -> (r: Vec<String>)
    ensures
        text::texts(r@) == seq!["SDR"@],
{
    let mut r: Vec<String> = Vec::new();
    r.push(text::copy_text("SDR"));
    assert(text::texts(r@) =~= seq!["SDR"@]);
    r
}

impl ClientProfile {
    /// Reads the profile of a client from its parameters. The H.264 level and the frame rates
    /// are given as the numbers they write.
    pub fn parse(
        vc: &str,
        vr: &str,
        h264_level: Option<H264Level>,
        hevc_level: Option<&str>,
        max_bitrate: Option<&str>,
        max_width: Option<&str>,
        max_height: Option<&str>,
        max_ref_frames: Option<&str>,
        max_framerate: Option<FrameRateLimit>,
        supports_anamorphic: Option<&str>,
        hevc_codec_tags: Option<&str>,
        max_video_bit_depth: Option<&str>,
        max_audio_channels: Option<&str>,
        max_audio_bitrate: Option<&str>,
        max_audio_sample_rate: Option<&str>,
        max_audio_bit_depth: Option<&str>,
        hevc_max_framerate: Option<FrameRateLimit>,
        av1_level: Option<&str>,
        h264_profiles: Option<&str>,
        hevc_profiles: Option<&str>,
    ) -> (r: ClientProfile)
        ensures
            text::texts(r.supported_vc@) == text::listed(vc@, ',', text::Cleaning::Trim),
            text::texts(r.supported_range_types@) == range_list(vr@),
            r.max_h264_level == h264_level,
            r.max_hevc_level == opt_i32(hevc_level),
            r.max_bitrate == opt_i64(max_bitrate),
            r.max_width == opt_i32(max_width),
            r.max_height == opt_i32(max_height),
            r.max_ref_frames == opt_i32(max_ref_frames),
            r.max_framerate == max_framerate,
            r.supports_anamorphic == (text::opt_text(supports_anamorphic) != Some("0"@)),
            text::texts(r.hevc_codec_tags@) == opt_list(
                hevc_codec_tags,
                ',',
                text::Cleaning::Lower,
            ),
            r.max_video_bit_depth == opt_i32(max_video_bit_depth),
            r.max_audio_channels == opt_i32(max_audio_channels),
            r.max_audio_bitrate == opt_i64(max_audio_bitrate),
            r.max_audio_sample_rate == opt_i32(max_audio_sample_rate),
            r.max_audio_bit_depth == opt_i32(max_audio_bit_depth),
            r.hevc_max_framerate == hevc_max_framerate,
            r.max_av1_level == opt_i32(av1_level),
            text::texts(r.h264_profiles@) == opt_list(
                h264_profiles,
                '|',
                text::Cleaning::LowerPacked,
            ),
            text::texts(r.hevc_profiles@) == opt_list(
                hevc_profiles,
                '|',
                text::Cleaning::LowerPacked,
            ),
    {
        let supported_range_types = if vr.is_empty() {
            standard_range()
        } else {
            text::read_list(vr, ',', text::Cleaning::Trim)
        };
        let anamorphic = match supports_anamorphic {
            Some(x) => !text::same_text(x, "0"),
            None => true,
        };
        ClientProfile {
            supported_vc: text::read_list(vc, ',', text::Cleaning::Trim),
            supported_range_types,
            max_h264_level: h264_level,
            max_hevc_level: read_i32(hevc_level),
            max_bitrate: read_i64(max_bitrate),
            max_width: read_i32(max_width),
            max_height: read_i32(max_height),
            max_ref_frames: read_i32(max_ref_frames),
            max_framerate,
            supports_anamorphic: anamorphic,
            hevc_codec_tags: read_opt_list(hevc_codec_tags, ',', text::Cleaning::Lower),
            max_video_bit_depth: read_i32(max_video_bit_depth),
            max_audio_channels: read_i32(max_audio_channels),
            max_audio_bitrate: read_i64(max_audio_bitrate),
            max_audio_sample_rate: read_i32(max_audio_sample_rate),
            max_audio_bit_depth: read_i32(max_audio_bit_depth),
            hevc_max_framerate,
            max_av1_level: read_i32(av1_level),
            h264_profiles: read_opt_list(h264_profiles, '|', text::Cleaning::LowerPacked),
            hevc_profiles: read_opt_list(hevc_profiles, '|', text::Cleaning::LowerPacked),
        }
    }

    /// Whether the profile states no limit: standard range, anamorphic video accepted, every
    /// other list empty and every bound absent.
    pub open spec fn is_default(self) -> bool {
        &&& text::texts(self.supported_vc@) == Seq::<Seq<char>>::empty()
        &&& text::texts(self.supported_range_types@) == seq!["SDR"@]
        &&& self.max_h264_level is None
        &&& self.max_hevc_level is None
        &&& self.max_bitrate is None
        &&& self.max_width is None
        &&& self.max_height is None
        &&& self.max_ref_frames is None
        &&& self.max_framerate is None
        &&& self.supports_anamorphic
        &&& text::texts(self.hevc_codec_tags@) == Seq::<Seq<char>>::empty()
        &&& self.max_video_bit_depth is None
        &&& self.max_audio_channels is None
        &&& self.max_audio_bitrate is None
        &&& self.max_audio_sample_rate is None
        &&& self.max_audio_bit_depth is None
        &&& self.hevc_max_framerate is None
        &&& self.max_av1_level is None
        &&& text::texts(self.h264_profiles@) == Seq::<Seq<char>>::empty()
        &&& text::texts(self.hevc_profiles@) == Seq::<Seq<char>>::empty()
    }
}

impl Default for ClientProfile {
    fn default() -> (r: ClientProfile)
        ensures
            r.is_default(),
    {
        ClientProfile {
            supported_vc: read_opt_list(None, ',', text::Cleaning::Trim),
            supported_range_types: standard_range(),
            max_h264_level: None,
            max_hevc_level: None,
            max_bitrate: None,
            max_width: None,
            max_height: None,
            max_ref_frames: None,
            max_framerate: None,
            supports_anamorphic: true,
            hevc_codec_tags: read_opt_list(None, ',', text::Cleaning::Trim),
            max_video_bit_depth: None,
            max_audio_channels: None,
            max_audio_bitrate: None,
            max_audio_sample_rate: None,
            max_audio_bit_depth: None,
            hevc_max_framerate: None,
            max_av1_level: None,
            h264_profiles: read_opt_list(None, ',', text::Cleaning::Trim),
            hevc_profiles: read_opt_list(None, ',', text::Cleaning::Trim),
        }
    }
}

/// The level of a video stream.
#[derive(Debug, Clone)]
pub struct VideoLevel {
    pub level: H264Level,
    /// Thirty times the level, cut to a whole number.
    pub thirtyfold: i32,
    /// The level, cut to a whole number.
    pub whole: i32,
}

/// What is known of a video stream.
#[derive(Debug, Clone)]
pub struct VideoStreamInfo {
    pub is_interlaced: Option<bool>,
    pub level: Option<VideoLevel>,
    pub bit_depth: Option<i32>,
    pub is_avc: Option<bool>,
    pub width: Option<i32>,
    pub height: Option<i32>,
    pub ref_frames: Option<i32>,
    /// The frame rate, shown with two decimals.
    pub frame_rate: Option<Float>,
    pub bitrate_kbps: Option<i64>,
    pub codec_tag: Option<String>,
    pub is_anamorphic: Option<bool>,
}

/// The members of a probed video stream that are read.
#[derive(Debug, Clone)]
pub struct VideoStreamFields {
    pub field_order: Option<String>,
    pub bits_per_raw_sample: Option<String>,
    pub pix_fmt: Option<String>,
    pub avg_frame_rate: Option<String>,
    pub r_frame_rate: Option<String>,
    pub bit_rate_text: Option<String>,
    pub bit_rate_number: Option<i64>,
    pub codec_tag_string: Option<String>,
    pub sample_aspect_ratio: Option<String>,
    pub width: Option<i64>,
    pub height: Option<i64>,
}

/// The members of the JSON value; none where there is no value.
pub open spec fn members_of(val: Option<&serde_json::Value>) -> Map<Seq<char>, json::JsonMember> {
    match val {
        Some(v) => json::json_members(*v),
        None => Map::empty(),
    }
}

fn text_member(val: Option<&serde_json::Value>, key: &str) -> (r: Option<String>)
    ensures
        text::opt_string(r) == json::member_text(members_of(val), key@),
{
    match val {
        Some(v) => json::json_text(v, key),
        None => None,
    }
}

fn whole_member(val: Option<&serde_json::Value>, key: &str) -> (r: Option<i64>)
    ensures
        r == json::member_whole(members_of(val), key@),
{
    match val {
        Some(v) => json::json_whole(v, key),
        None => None,
    }
}

impl VideoStreamFields {
    /// Whether these are the members that a JSON object holds.
    pub open spec fn read_from(self, members: Map<Seq<char>, json::JsonMember>) -> bool {
        &&& text::opt_string(self.field_order) == json::member_text(members, "field_order"@)
        &&& text::opt_string(self.bits_per_raw_sample) == json::member_text(
            members,
            "bits_per_raw_sample"@,
        )
        &&& text::opt_string(self.pix_fmt) == json::member_text(members, "pix_fmt"@)
        &&& text::opt_string(self.avg_frame_rate) == json::member_text(members, "avg_frame_rate"@)
        &&& text::opt_string(self.r_frame_rate) == json::member_text(members, "r_frame_rate"@)
        &&& text::opt_string(self.bit_rate_text) == json::member_text(members, "bit_rate"@)
        &&& self.bit_rate_number == json::member_whole(members, "bit_rate"@)
        &&& text::opt_string(self.codec_tag_string) == json::member_text(
            members,
            "codec_tag_string"@,
        )
        &&& text::opt_string(self.sample_aspect_ratio) == json::member_text(
            members,
            "sample_aspect_ratio"@,
        )
        &&& self.width == json::member_whole(members, "width"@)
        &&& self.height == json::member_whole(members, "height"@)
    }

    /// Reads the members of a probed video stream; none where there is no object.
    pub fn from_json(val: Option<&serde_json::Value>) -> (r: VideoStreamFields)
        ensures
            r.read_from(members_of(val)),
    {
        VideoStreamFields {
            field_order: text_member(val, "field_order"),
            bits_per_raw_sample: text_member(val, "bits_per_raw_sample"),
            pix_fmt: text_member(val, "pix_fmt"),
            avg_frame_rate: text_member(val, "avg_frame_rate"),
            r_frame_rate: text_member(val, "r_frame_rate"),
            bit_rate_text: text_member(val, "bit_rate"),
            bit_rate_number: whole_member(val, "bit_rate"),
            codec_tag_string: text_member(val, "codec_tag_string"),
            sample_aspect_ratio: text_member(val, "sample_aspect_ratio"),
            width: whole_member(val, "width"),
            height: whole_member(val, "height"),
        }
    }
}

/// `a` divided by a thousand and cut towards zero.
pub open spec fn thousandth(a: int) -> int {
    if a >= 0 {
        a / 1000
    } else {
        -((-a) / 1000)
    }
}

/// Whether a field order is that of interlaced video.
pub open spec fn interlaced_order(order: Seq<char>) -> bool {
    order != "progressive"@ && order != "unknown"@ && order != ""@
}

/// Whether a sample aspect ratio is that of anamorphic video.
pub open spec fn anamorphic_ratio(ratio: Seq<char>) -> bool {
    ratio != "1:1"@ && ratio != "0:1"@ && ratio != ""@
}

/// The bit depth that the name of a pixel format tells.
pub open spec fn depth_of_format(format: Seq<char>) -> Option<i32> {
    if text::has_part(format, "10le"@) || text::has_part(format, "10be"@) || text::has_part(
        format,
        "p010"@,
    ) {
        Some(10)
    } else if text::has_part(format, "12le"@) || text::has_part(format, "12be"@) {
        Some(12)
    } else {
        None
    }
}

/// The bit depth: the one that is written, else the one that the pixel format tells.
pub open spec fn depth_of(raw: Option<Seq<char>>, format: Option<Seq<char>>) -> Option<i32> {
    let written = match raw {
        Some(s) => number::i32_value(s),
        None => None,
    };
    match (written, format) {
        (Some(d), _) => Some(d),
        (None, Some(f)) => depth_of_format(f),
        (None, None) => None,
    }
}

/// The bit rate in thousands: of the one that is written as text, else as a number.
pub open spec fn kbps_of(written: Option<Seq<char>>, number: Option<i64>) -> Option<i64> {
    let read = match written {
        Some(s) => number::i64_value(s),
        None => None,
    };
    match (read, number) {
        (Some(b), _) => Some(thousandth(b as int) as i64),
        (None, Some(b)) => Some(thousandth(b as int) as i64),
        (None, None) => None,
    }
}

/// How a frame rate is written.
pub enum FrameRateText {
    /// A numerator and a denominator.
    Ratio { numerator: String, denominator: String },
    /// One number.
    Plain { number: String },
}

/// `s` up to its first `c`; all of `s` where there is none.
pub open spec fn before_first(s: Seq<char>, c: char) -> Seq<char>
    decreases s.len(),
{
    if s.len() == 0 || s[0] == c {
        Seq::empty()
    } else {
        seq![s[0]] + before_first(s.drop_first(), c)
    }
}

proof fn lemma_before_first(s: Seq<char>, c: char, k: int)
    requires
        0 <= k <= s.len(),
        forall|i: int| 0 <= i < k ==> s[i] != c,
        k < s.len() ==> s[k] == c,
    ensures
        before_first(s, c) == s.take(k),
    decreases s.len(),
{
    if s.len() > 0 && s[0] != c {
        let rest = s.drop_first();
        assert forall|i: int| 0 <= i < k - 1 implies rest[i] != c by {
            assert(rest[i] == s[i + 1]);
        }
        lemma_before_first(rest, c, k - 1);
        assert(s.take(k) =~= seq![s[0]] + rest.take(k - 1));
    } else {
        assert(s.take(k) =~= Seq::<char>::empty());
    }
}

impl FrameRateText {
    /// Parts the text of a frame rate at its first slash.
    pub fn read(s: &str) -> (r: FrameRateText)
        ensures
            s@.contains('/') ==> (r matches FrameRateText::Ratio { numerator, denominator }
                && numerator@ == before_first(s@, '/') && s@ == numerator@.push('/')
                + denominator@),
            !s@.contains('/') ==> (r matches FrameRateText::Plain { number } && number@ == s@),
    {
        let chars = text::to_chars(s);
        let n: usize = chars.len();
        let mut k: usize = 0;
        while k < n && chars[k] != '/'
            invariant
                n == chars@.len(),
                chars@ == s@,
                k <= n,
                forall|i: int| 0 <= i < k ==> s@[i] != '/',
            decreases n - k,
        {
            k += 1;
        }
        if k == n {
            return FrameRateText::Plain { number: text::copy_text(s) };
        }
        proof {
            lemma_before_first(s@, '/', k as int);
            assert(s@[k as int] == '/');
        }
        let (head, tail) = chars.as_slice().split_at(k);
        let (_, rest) = tail.split_at(1);
        let numerator = text::from_chars(head);
        let denominator = text::from_chars(rest);
        assert(numerator@ =~= s@.take(k as int));
        assert(s@ =~= numerator@.push('/') + denominator@);
        FrameRateText::Ratio { numerator, denominator }
    }
}

/// A frame rate as the numbers that its text writes; none for a text that writes none.
#[derive(Debug, Clone)]
pub enum FrameRateNumbers {
    /// The quotient is that of the other two, where they are numbers.
    Ratio { numerator: Option<Float>, denominator: Option<Float>, quotient: Float },
    Plain { number: Option<Float> },
}

impl VideoStreamInfo {
    /// The frame rate: the number, or the quotient of two numbers of which the second is
    /// above 0.
    pub open spec fn frame_rate_of(n: FrameRateNumbers) -> Option<Float> {
        match n {
            FrameRateNumbers::Ratio { numerator, denominator, quotient } => match (
                numerator,
                denominator,
            ) {
                (Some(_), Some(d)) => if number::above(d.bits, 0) {
                    Some(quotient)
                } else {
                    None
                },
                _ => None,
            },
            FrameRateNumbers::Plain { number } => number,
        }
    }

    /// The frame rate that the numbers of its text tell.
    pub fn parse_frame_rate(n: FrameRateNumbers) -> (r: Option<Float>)
        ensures
            r == VideoStreamInfo::frame_rate_of(n),
    {
        match n {
            FrameRateNumbers::Ratio { numerator, denominator, quotient } => {
                match (numerator, denominator) {
                    (Some(_), Some(d)) => {
                        if d.exceeds(&Float::new(0, "0")) {
                            Some(quotient)
                        } else {
                            None
                        }
                    },
                    _ => None,
                }
            },
            FrameRateNumbers::Plain { number } => number,
        }
    }

    /// Whether this says what the JSON object of a probed stream tells, the two frame rates
    /// being the numbers that its members write.
    pub open spec fn told_by(
        self,
        members: Map<Seq<char>, json::JsonMember>,
        avg_frame_rate: Option<Float>,
        r_frame_rate: Option<Float>,
    ) -> bool {
        &&& self.is_interlaced == match json::member_text(members, "field_order"@) {
            Some(order) => Some(interlaced_order(order)),
            None => None,
        }
        &&& self.level is None
        &&& self.bit_depth == depth_of(
            json::member_text(members, "bits_per_raw_sample"@),
            json::member_text(members, "pix_fmt"@),
        )
        &&& self.is_avc is None
        &&& self.width == match json::member_whole(members, "width"@) {
            Some(w) => Some(w as i32),
            None => None,
        }
        &&& self.height == match json::member_whole(members, "height"@) {
            Some(h) => Some(h as i32),
            None => None,
        }
        &&& self.ref_frames is None
        &&& self.frame_rate == match avg_frame_rate {
            Some(f) => Some(f),
            None => r_frame_rate,
        }
        &&& self.bitrate_kbps == kbps_of(
            json::member_text(members, "bit_rate"@),
            json::member_whole(members, "bit_rate"@),
        )
        &&& text::opt_string(self.codec_tag) == json::member_text(members, "codec_tag_string"@)
        &&& self.is_anamorphic == match json::member_text(members, "sample_aspect_ratio"@) {
            Some(ratio) => Some(anamorphic_ratio(ratio)),
            None => None,
        }
    }

    /// Says what the members of a probed stream tell.
    pub fn from_fields(
        fields: &VideoStreamFields,
        avg_frame_rate: Option<Float>,
        r_frame_rate: Option<Float>,
    ) -> (r: VideoStreamInfo)
        ensures
            forall|members: Map<Seq<char>, json::JsonMember>| #[trigger]
                fields.read_from(members) ==> r.told_by(members, avg_frame_rate, r_frame_rate),
            r.is_interlaced == match fields.field_order {
                Some(order) => Some(interlaced_order(order@)),
                None => None,
            },
            r.level is None,
            r.bit_depth == depth_of(
                text::opt_string(fields.bits_per_raw_sample),
                text::opt_string(fields.pix_fmt),
            ),
            r.is_avc is None,
            r.width == match fields.width {
                Some(w) => Some(w as i32),
                None => None,
            },
            r.height == match fields.height {
                Some(h) => Some(h as i32),
                None => None,
            },
            r.ref_frames is None,
            r.frame_rate == match avg_frame_rate {
                Some(f) => Some(f),
                None => r_frame_rate,
            },
            r.bitrate_kbps == kbps_of(
                text::opt_string(fields.bit_rate_text),
                fields.bit_rate_number,
            ),
            text::opt_string(r.codec_tag) == text::opt_string(fields.codec_tag_string),
            r.is_anamorphic == match fields.sample_aspect_ratio {
                Some(ratio) => Some(anamorphic_ratio(ratio@)),
                None => None,
            },
    {
        let is_interlaced = match &fields.field_order {
            Some(order) => {
                let order = order.as_str();
                Some(
                    !text::same_text(order, "progressive") && !text::same_text(order, "unknown")
                        && !text::same_text(order, ""),
                )
            },
            None => None,
        };
        let is_anamorphic = match &fields.sample_aspect_ratio {
            Some(ratio) => {
                let ratio = ratio.as_str();
                Some(
                    !text::same_text(ratio, "1:1") && !text::same_text(ratio, "0:1")
                        && !text::same_text(ratio, ""),
                )
            },
            None => None,
        };
        let frame_rate = match avg_frame_rate {
            Some(f) => Some(f),
            None => r_frame_rate,
        };
        let width: Option<i32> = match fields.width {
            Some(w) => Some(#[verifier::truncate] (w as i32)),
            None => None,
        };
        let height: Option<i32> = match fields.height {
            Some(h) => Some(#[verifier::truncate] (h as i32)),
            None => None,
        };
        VideoStreamInfo {
            is_interlaced,
            level: None,
            bit_depth: read_depth(&fields.bits_per_raw_sample, &fields.pix_fmt),
            is_avc: None,
            width,
            height,
            ref_frames: None,
            frame_rate,
            bitrate_kbps: read_kbps(&fields.bit_rate_text, fields.bit_rate_number),
            codec_tag: text::copy_opt(&fields.codec_tag_string),
            is_anamorphic,
        }
    }

    /// Says what the JSON of a probed video stream tells, the two frame rates being the
    /// numbers that its members `avg_frame_rate` and `r_frame_rate` write.
    pub fn from_json(
        val: Option<&serde_json::Value>,
        avg_frame_rate: Option<Float>,
        r_frame_rate: Option<Float>,
    ) -> (r: VideoStreamInfo)
        ensures
            r.told_by(members_of(val), avg_frame_rate, r_frame_rate),
    {
        let fields = VideoStreamFields::from_json(val);
        VideoStreamInfo::from_fields(&fields, avg_frame_rate, r_frame_rate)
    }
}

impl Default for VideoStreamInfo {
    fn default() -> (r: VideoStreamInfo)
        ensures
            r == (VideoStreamInfo {
                is_interlaced: None,
                level: None,
                bit_depth: None,
                is_avc: None,
                width: None,
                height: None,
                ref_frames: None,
                frame_rate: None,
                bitrate_kbps: None,
                codec_tag: None,
                is_anamorphic: None,
            }),
    {
        VideoStreamInfo {
            is_interlaced: None,
            level: None,
            bit_depth: None,
            is_avc: None,
            width: None,
            height: None,
            ref_frames: None,
            frame_rate: None,
            bitrate_kbps: None,
            codec_tag: None,
            is_anamorphic: None,
        }
    }
}

fn read_depth(raw: &Option<String>, format: &Option<String>) -> (r: Option<i32>)
    ensures
        r == depth_of(text::opt_string(*raw), text::opt_string(*format)),
{
    let written: Option<i32> = match raw {
        Some(s) => number::parse_i32(s.as_str()),
        None => None,
    };
    if written.is_some() {
        return written;
    }
    match format {
        Some(f) => {
            let f = f.as_str();
            if text::contains_part(f, "10le") || text::contains_part(f, "10be")
                || text::contains_part(f, "p010") {
                Some(10)
            } else if text::contains_part(f, "12le") || text::contains_part(f, "12be") {
                Some(12)
            } else {
                None
            }
        },
        None => None,
    }
}

fn read_kbps(written: &Option<String>, number: Option<i64>) -> (r: Option<i64>)
    ensures
        r == kbps_of(text::opt_string(*written), number),
{
    let read: Option<i64> = match written {
        Some(s) => number::parse_i64(s.as_str()),
        None => None,
    };
    let bits: Option<i64> = match read {
        Some(b) => Some(b),
        None => number,
    };
    match bits {
        Some(b) => {
            if b >= 0 {
                Some(b / 1000)
            } else {
                let size: i128 = -(b as i128);
                Some((-(size / 1000)) as i64)
            }
        },
        None => None,
    }
}

}
