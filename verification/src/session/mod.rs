//! One transcoding session: what it has written, what the client has asked for, and when the
//! transcoder has to pause, to go on or to start anew elsewhere.
//!
//! A session goes through passes. Each pass writes segments from one number on; a client that
//! jumps starts a new pass. What watches the output of a pass, and who waits for its
//! segments, refers to the pass by its index.
pub mod laws;

use crate::ffmpeg;
use crate::ffmpeg::{build_transcode_options, segment_type_for, EncodingAnswers, TranscodeOptions};
use crate::ffmpeg::SEGMENT_DURATION;
use crate::hw_detect::{HwCapabilities, Platform};
use crate::playlist;
use crate::playlist::{generate_vod_playlist, HlsSegmentType, SECOND};
use crate::segments;
use crate::segments::{count_segments_from, next_segment_path, parse_segment_number};
use crate::segments::{segment_name_text, FilePath};
use crate::text;
use crate::types::{CreateSessionRequest, PlaybackSnapshot, SessionState};
use vstd::prelude::*;
use vstd::string::*;

verus! {

broadcast use vstd::string::group_string_axioms;

/// How many segments ahead of what is written a request may be before a new pass is started:
/// 24 seconds.
pub const SEEK_THRESHOLD_SEGMENTS: u32 = 24 / SEGMENT_DURATION;

/// How often the lead of the transcoder is looked at, in seconds.
pub const THROTTLE_CHECK_INTERVAL_SECS: u64 = 5;

/// How far the transcoder may be ahead of the client before it pauses, in seconds.
pub const THROTTLE_AHEAD_SECS: u32 = 60;

/// How far the transcoder may be ahead of the client before it pauses, in segments.
pub const THROTTLE_AHEAD_SEGMENTS: u32 = THROTTLE_AHEAD_SECS / SEGMENT_DURATION;

/// How long a segment is waited for, in seconds.
pub const WAIT_LIMIT_SECS: u64 = 60;

/// How far from the end of the file a pass starts at the latest, in nanoseconds.
pub const SEEK_MARGIN: u128 = 5_000_000_000;

/// How far behind a keyframe a pass is started so as to begin with it, in nanoseconds.
pub const SEEK_NUDGE: u128 = 100_000_000;

/// Stands for the number of a segment where none is known to be written to the end.
pub const NONE_COMPLETED: i64 = -1;

/// One pass of the transcoder.
#[derive(Debug, Clone, Copy)]
pub struct Pass {
    /// The number of its first segment.
    pub start_segment: u32,
    /// Whether it has been told to end.
    pub stopped: bool,
    /// How many segments it has written without a gap.
    pub segment_count: u32,
    /// The highest number that the client has asked for.
    pub download_position: u32,
    /// The highest number that is known to be written to the end.
    pub last_completed: i64,
}

/// A transcoding session.
#[derive(Debug)]
pub struct HlsSession {
    pub id: String,
    pub file_id: String,
    pub audio_stream_index: u32,
    /// The duration of the media file in nanoseconds.
    pub duration_ns: u128,
    pub output_dir: String,
    pub state: SessionState,
    /// The playlist, whole from the beginning.
    pub vod_playlist: String,
    /// The starts of the segments in nanoseconds, where they are cut at keyframes; none where
    /// they are of equal length.
    pub segment_start_times: Vec<u128>,
    pub segment_type: HlsSegmentType,
    /// Whether the video is encoded anew.
    pub transcode_video: bool,
    /// Whether the worker is held.
    pub has_worker: bool,
    /// Whether the worker can be sent commands.
    pub has_channel: bool,
    /// Whether the worker's pass is cancelled.
    pub cancelled: bool,
    /// Whether the worker's pass is paused.
    pub paused: bool,
    /// Whether the worker's pass has come to its end.
    pub ffmpeg_exited: bool,
    /// The number of the first segment of the worker's pass.
    pub ffmpeg_start_segment: u32,
    /// The passes, the current one last.
    pub passes: Vec<Pass>,
    pub user_id: Option<String>,
    pub video_item_id: Option<String>,
    pub episode_id: Option<String>,
}

/// What a session says.
pub struct SessionView {
    pub id: Seq<char>,
    pub file_id: Seq<char>,
    pub audio_stream_index: u32,
    pub duration_ns: u128,
    pub output_dir: Seq<char>,
    pub state: SessionState,
    pub vod_playlist: Seq<char>,
    pub segment_start_times: Seq<u128>,
    pub segment_type: HlsSegmentType,
    pub transcode_video: bool,
    pub has_worker: bool,
    pub has_channel: bool,
    pub cancelled: bool,
    pub paused: bool,
    pub ffmpeg_exited: bool,
    pub ffmpeg_start_segment: u32,
    pub passes: Seq<Pass>,
    pub user_id: Option<Seq<char>>,
    pub video_item_id: Option<Seq<char>>,
    pub episode_id: Option<Seq<char>>,
}

impl View for HlsSession {
    type V = SessionView;

    open spec fn view(&self) -> SessionView {
        SessionView {
            id: self.id@,
            file_id: self.file_id@,
            audio_stream_index: self.audio_stream_index,
            duration_ns: self.duration_ns,
            output_dir: self.output_dir@,
            state: self.state,
            vod_playlist: self.vod_playlist@,
            segment_start_times: self.segment_start_times@,
            segment_type: self.segment_type,
            transcode_video: self.transcode_video,
            has_worker: self.has_worker,
            has_channel: self.has_channel,
            cancelled: self.cancelled,
            paused: self.paused,
            ffmpeg_exited: self.ffmpeg_exited,
            ffmpeg_start_segment: self.ffmpeg_start_segment,
            passes: self.passes@,
            user_id: text::opt_string(self.user_id),
            video_item_id: text::opt_string(self.video_item_id),
            episode_id: text::opt_string(self.episode_id),
        }
    }
}

impl SessionView {
    /// The current pass.
    pub open spec fn current(self) -> Pass {
        self.passes.last()
    }

    /// Whether the session is sound: there is a pass; every pass but the current one has been
    /// told to end; the numbers of segments stay in the range of `u32`; and a current pass
    /// that goes on is the worker's.
    pub open spec fn sound(self) -> bool {
        &&& self.passes.len() > 0
        &&& forall|k: int| 0 <= k < self.passes.len() - 1 ==> (#[trigger] self.passes[k]).stopped
        &&& forall|k: int|
            0 <= k < self.passes.len() ==> (#[trigger] self.passes[k]).start_segment
                + self.passes[k].segment_count <= u32::MAX
        &&& !self.current().stopped ==> self.current().start_segment == self.ffmpeg_start_segment
    }

    /// The session with another current pass.
    pub open spec fn with_current(self, p: Pass) -> SessionView {
        self.with_pass(self.passes.len() - 1, p)
    }

    /// The session with another pass in the place of one.
    pub open spec fn with_pass(self, k: int, p: Pass) -> SessionView {
        SessionView { passes: self.passes.update(k, p), ..self }
    }
}

// ── Waiting for a segment ────────────────────────────────────────────────────

/// What is needed to wait for a segment without holding the session.
#[derive(Debug, Clone)]
pub struct SegmentWaitHandle {
    pub path: FilePath,
    /// The file whose presence shows that the segment is written to the end.
    pub next_path: Option<FilePath>,
    /// The pass that writes the segment.
    pub pass: usize,
    pub requested_segment: Option<u32>,
}

/// What a `SegmentWaitHandle` says.
pub struct HandleView {
    pub path: segments::FilePathView,
    pub next_path: Option<segments::FilePathView>,
    pub pass: int,
    pub requested_segment: Option<u32>,
}

impl View for SegmentWaitHandle {
    type V = HandleView;

    open spec fn view(&self) -> HandleView {
        HandleView {
            path: self.path@,
            next_path: segments::opt_path(self.next_path),
            pass: self.pass as int,
            requested_segment: self.requested_segment,
        }
    }
}

/// What is seen of a segment at one moment.
#[derive(Debug, Clone, Copy)]
pub struct SegmentSight {
    /// Whether the pass has been told to end.
    pub stopped: bool,
    /// Whether the worker's pass has come to its end.
    pub ffmpeg_exited: bool,
    /// The highest number that is known to be written to the end.
    pub last_completed: i64,
    /// Whether the file is there.
    pub exists: bool,
    /// Whether the file behind it is there.
    pub next_exists: bool,
}

/// When a segment is looked at.
#[derive(Debug, Clone, Copy, PartialEq, Eq, Structural)]
pub enum WaitMoment {
    /// Before waiting.
    Look,
    /// Before waiting, with no time left to wait.
    Late,
    /// After the session has given notice.
    Notified,
    /// After the time is over.
    TimedOut,
}

/// What a waiter does next.
#[derive(Debug, Clone, Copy, PartialEq, Eq, Structural)]
pub enum WaitStep {
    /// Serve the file.
    Serve,
    /// Serve nothing.
    GiveUp,
    /// Wait for a notice, for as long as there is time.
    Wait,
    /// Look again.
    Again,
}

impl HandleView {
    /// Whether the segment can be served: it is there, and either the pass has come to its
    /// end, or it is known to be written to the end, or the file behind it is there or there
    /// is none to look for.
    pub open spec fn ready(self, seen: SegmentSight) -> bool {
        &&& seen.exists
        &&& {
            ||| seen.ffmpeg_exited
            ||| (self.requested_segment matches Some(n) && seen.last_completed >= n)
            ||| self.next_path is None
            ||| seen.next_exists
        }
    }

    /// What a waiter does next.
    pub open spec fn next_step(self, moment: WaitMoment, seen: SegmentSight) -> WaitStep {
        let looks = moment == WaitMoment::Look || moment == WaitMoment::Late;
        if looks && seen.stopped {
            WaitStep::GiveUp
        } else if self.ready(seen) {
            WaitStep::Serve
        } else if seen.ffmpeg_exited || moment == WaitMoment::Late || moment == WaitMoment::TimedOut {
            WaitStep::GiveUp
        } else if moment == WaitMoment::Notified {
            WaitStep::Again
        } else {
            WaitStep::Wait
        }
    }
}

impl SegmentWaitHandle {
    /// Whether the segment can be served.
    pub fn is_ready(&self, seen: &SegmentSight) -> (r: bool)
        ensures
            r == self@.ready(*seen),
    {
        if !seen.exists {
            return false;
        }
        if seen.ffmpeg_exited {
            return true;
        }
        if let Some(n) = self.requested_segment {
            if seen.last_completed >= n as i64 {
                return true;
            }
        }
        match &self.next_path {
            None => true,
            Some(_) => seen.next_exists,
        }
    }

    /// What a waiter does next.
    pub fn wait(&self, moment: WaitMoment, seen: &SegmentSight) -> (r: WaitStep)
        ensures
            r == self@.next_step(moment, *seen),
    {
        match moment {
            WaitMoment::Look => {
                if seen.stopped {
                    return WaitStep::GiveUp;
                }
            },
            WaitMoment::Late => {
                if seen.stopped {
                    return WaitStep::GiveUp;
                }
            },
            _ => {},
        }
        if self.is_ready(seen) {
            return WaitStep::Serve;
        }
        if seen.ffmpeg_exited {
            return WaitStep::GiveUp;
        }
        match moment {
            WaitMoment::Look => WaitStep::Wait,
            WaitMoment::Notified => WaitStep::Again,
            _ => WaitStep::GiveUp,
        }
    }
}

// ── Starting ─────────────────────────────────────────────────────────────────

/// Whether the name is that of a Matroska file.
pub open spec fn is_mkv(hint: Seq<char>) -> bool {
    ".mkv"@.is_suffix_of(text::ascii_lowercase(hint))
}

fn names_mkv(hint: &str) -> (r: bool)
    ensures
        r == is_mkv(hint@),
{
    let lower = text::to_ascii_lower(hint);
    text::ends_with(lower.as_str(), ".mkv")
}

/// Whether keyframes are looked for in the local file: only where the video is copied.
pub fn wants_local_index(req: &CreateSessionRequest) -> (r: bool)
    ensures
        r == (!req.transcode_video && (req.local_path matches Some(p) && is_mkv(p@))),
{
    if req.transcode_video {
        return false;
    }
    match &req.local_path {
        Some(p) => names_mkv(p.as_str()),
        None => false,
    }
}

/// Whether keyframes are looked for in the remote source: only where the local file has given
/// none.
pub fn wants_remote_index(req: &CreateSessionRequest, local_found: bool) -> (r: bool)
    ensures
        r == (!req.transcode_video && !local_found && (req.direct_input matches Some(input) && (
        input.filename_hint matches Some(hint) && is_mkv(hint@)))),
{
    if req.transcode_video || local_found {
        return false;
    }
    match &req.direct_input {
        Some(input) => match &input.filename_hint {
            Some(hint) => names_mkv(hint.as_str()),
            None => false,
        },
        None => false,
    }
}

/// The keyframes that the playlist is cut at: none where the video is encoded anew, else
/// those of the local file, else those of the remote source.
pub open spec fn keyframes_used(
    transcode_video: bool,
    local: Option<Seq<u128>>,
    remote: Option<Seq<u128>>,
) -> Option<Seq<u128>> {
    if transcode_video {
        None
    } else if local is Some {
        local
    } else {
        remote
    }
}

/// An optional list of times, as a sequence.
pub open spec fn opt_times(times: Option<Vec<u128>>) -> Option<Seq<u128>> {
    match times {
        Some(t) => Some(t@),
        None => None,
    }
}

/// The directory that a session writes to, from that for temporary files.
pub open spec fn session_dir(temp_dir: Seq<char>, id: Seq<char>) -> segments::FilePathView {
    segments::FilePathView { dir: temp_dir, name: "tokimo-hls/"@ + id }
}

/// The directory that a session writes to, from that for temporary files.
pub fn session_output_dir(temp_dir: &str, id: &str) -> (r: FilePath)
    ensures
        r@ == session_dir(temp_dir@, id@),
{
    let below = text::join2("tokimo-hls/", id);
    FilePath::new(temp_dir, below.as_str())
}

/// Whether the session is the one that a request starts.
pub open spec fn started(
    s: SessionView,
    id: Seq<char>,
    req: CreateSessionRequest,
    output_dir: Seq<char>,
    keyframes: Option<Seq<u128>>,
) -> bool {
    let kind = ffmpeg::container_of(req.transcode_video);
    let length = SEGMENT_DURATION * SECOND;
    let segs = playlist::vod_segments(req.duration_ns as int, length, keyframes);
    &&& s.id == id
    &&& s.file_id == req.file_id@
    &&& s.audio_stream_index == req.audio_stream_index
    &&& s.duration_ns == req.duration_ns
    &&& s.output_dir == output_dir
    &&& s.state == SessionState::Running
    &&& s.vod_playlist == playlist::playlist_text(segs, length, kind)
    &&& s.segment_start_times.map_values(|t: u128| t as int) == if keyframes is Some {
        playlist::starts(segs)
    } else {
        Seq::empty()
    }
    &&& s.segment_type == kind
    &&& s.transcode_video == req.transcode_video
    &&& s.has_worker
    &&& s.has_channel
    &&& !s.cancelled
    &&& !s.paused
    &&& !s.ffmpeg_exited
    &&& s.ffmpeg_start_segment == 0
    &&& s.passes == seq![fresh_pass(0)]
    &&& s.user_id == text::opt_string(req.user_id)
    &&& s.video_item_id == text::opt_string(req.video_item_id)
    &&& s.episode_id == text::opt_string(req.episode_id)
}

/// A pass that has just begun.
pub open spec fn fresh_pass(start: u32) -> Pass {
    Pass {
        start_segment: start,
        stopped: false,
        segment_count: 0,
        download_position: start,
        last_completed: NONE_COMPLETED,
    }
}

fn new_pass(start: u32) -> (r: Pass)
    ensures
        r == fresh_pass(start),
{
    Pass {
        start_segment: start,
        stopped: false,
        segment_count: 0,
        download_position: start,
        last_completed: NONE_COMPLETED,
    }
}

// ── Segments that are asked for ──────────────────────────────────────────────

/// The first file of fragmented MP4, which holds no segment.
pub open spec fn is_init(name: Seq<char>) -> bool {
    name == "init.mp4"@
}

/// The number behind the last segment that is written without a gap.
pub open spec fn written_up_to(s: SessionView) -> int {
    s.ffmpeg_start_segment + s.current().segment_count
}

/// How far `a` is ahead of `b`.
pub open spec fn lead(a: int, b: int) -> int {
    if a > b {
        a - b
    } else {
        0
    }
}

/// The session after a segment was asked for: the client's position moves up, and a paused
/// transcoder goes on where the client has come near.
pub open spec fn asked(s: SessionView, name: Seq<char>) -> SessionView {
    match segments::segment_number(name, s.segment_type.ext()) {
        Some(n) => if is_init(name) {
            s
        } else {
            let p = s.current();
            let moved = s.with_current(
                Pass {
                    download_position: if n > p.download_position {
                        n
                    } else {
                        p.download_position
                    },
                    ..p
                },
            );
            SessionView {
                paused: s.paused && lead(written_up_to(s), n as int) > THROTTLE_AHEAD_SEGMENTS,
                ..moved
            }
        },
        None => s,
    }
}

/// Whether a new pass has to be started for the segment: the worker's pass has come to its
/// end, began behind the segment, or is too far before it.
pub open spec fn needs_seek(s: SessionView, n: int) -> bool {
    s.ffmpeg_exited || n < s.ffmpeg_start_segment || n > written_up_to(s)
        + SEEK_THRESHOLD_SEGMENTS
}

/// Where a pass for the segment `target` starts, in nanoseconds. With the starts of the
/// segments known, a little behind that of the segment, so that the keyframe there is found;
/// else at its place, or one segment before it where the video is copied, since the next
/// keyframe may lie behind its place. Not within the last seconds of the file.
pub open spec fn seek_position(s: SessionView, target: u32) -> int {
    let place = target * SEGMENT_DURATION * SECOND;
    let latest = if s.duration_ns > SEEK_MARGIN {
        s.duration_ns - SEEK_MARGIN
    } else {
        0
    };
    if target == 0 {
        0
    } else if s.segment_start_times.len() > 0 {
        let exact = if target < s.segment_start_times.len() {
            s.segment_start_times[target as int] as int
        } else {
            place
        };
        playlist::smaller(exact + SEEK_NUDGE, latest)
    } else if s.transcode_video {
        playlist::smaller(place, latest)
    } else {
        playlist::smaller(place - SEGMENT_DURATION * SECOND, latest)
    }
}

/// The session after the worker's pass was told to end for one that starts at `target`.
pub open spec fn seeking(s: SessionView, target: u32) -> SessionView {
    let ended = s.with_current(Pass { stopped: true, ..s.current() });
    SessionView {
        state: SessionState::Running,
        cancelled: false,
        paused: false,
        ffmpeg_exited: false,
        ffmpeg_start_segment: target,
        ..ended
    }
}

/// What a waiter for the file is given.
pub open spec fn handle_for(s: SessionView, name: Seq<char>) -> HandleView {
    let ext = s.segment_type.ext();
    HandleView {
        path: segments::FilePathView { dir: s.output_dir, name },
        next_path: if is_init(name) {
            Some(
                segments::FilePathView {
                    dir: s.output_dir,
                    name: segments::segment_name(s.ffmpeg_start_segment as nat, ext),
                },
            )
        } else {
            segments::path_of_next(name, s.output_dir, ext)
        },
        pass: s.passes.len() - 1,
        requested_segment: segments::segment_number(name, ext),
    }
}

/// Starts a new pass: the running one is cancelled, segments from the target on are deleted,
/// and the worker is sent the order.
#[derive(Debug, Clone, Copy)]
pub struct SeekOrder {
    pub target_segment: u32,
    /// In nanoseconds.
    pub seek_ns: u128,
}

/// What is done about a file that is asked for.
#[derive(Debug, Clone)]
pub enum SegmentPlan {
    /// The session has been stopped.
    Gone,
    /// It is waited for.
    Wait(SegmentWaitHandle),
    /// A new pass is started first.
    Seek(SeekOrder),
}

/// The segment that a new pass is started for; the first where the file is none.
pub open spec fn target_of(s: SessionView, name: Seq<char>) -> u32 {
    match segments::segment_number(name, s.segment_type.ext()) {
        Some(n) => n,
        None => 0,
    }
}

/// Whether a new pass is started for the file.
pub open spec fn seeks_for(s: SessionView, name: Seq<char>, on_disk: bool) -> bool {
    !on_disk && !is_init(name) && needs_seek(s, target_of(s, name) as int)
}

/// Whether `plan` is what is done about the file that is asked for, and leaves the session as
/// `after`.
pub open spec fn is_plan_for(
    before: SessionView,
    name: Seq<char>,
    on_disk: bool,
    plan: SegmentPlan,
    after: SessionView,
) -> bool {
    let s = asked(before, name);
    if before.current().stopped {
        plan is Gone && after == before
    } else if seeks_for(s, name, on_disk) {
        &&& plan matches SegmentPlan::Seek(order)
        &&& order.target_segment == target_of(s, name)
        &&& order.seek_ns == seek_position(s, order.target_segment)
        &&& after == seeking(s, order.target_segment)
    } else {
        &&& plan matches SegmentPlan::Wait(handle)
        &&& handle@ == handle_for(s, name)
        &&& after == s
    }
}

// ── Watching the output ──────────────────────────────────────────────────────

/// What the watcher of the output has seen.
#[derive(Debug, Clone, Copy, PartialEq, Eq, Structural)]
pub enum WatchEvent {
    /// A file was made.
    Created,
    /// A file that was written to was closed.
    Closed,
    /// Something else.
    Other,
    /// Nothing for some time.
    Quiet,
}

/// What the watcher does about what it has seen.
#[derive(Debug, Clone, Copy, PartialEq, Eq, Structural)]
pub enum WatchStep {
    /// Give notice to those who wait.
    Notify,
    /// Nothing.
    GoOn,
}

/// The greatest of the numbers of the segments and `least`.
pub open spec fn greatest_number(names: Seq<Seq<char>>, ext: Seq<char>, least: i64) -> i64
    decreases names.len(),
{
    if names.len() == 0 {
        least
    } else {
        let before = greatest_number(names.drop_last(), ext, least);
        match segments::segment_number(names.last(), ext) {
            Some(n) => if n > before {
                n as i64
            } else {
                before
            },
            None => before,
        }
    }
}

fn highest(names: &[String], ext: &str, least: i64) -> (r: i64)
    ensures
        r == greatest_number(text::texts(names@), ext@, least),
{
    let n: usize = names.len();
    let mut best: i64 = least;
    let mut i: usize = 0;
    while i < n
        invariant
            n == names@.len(),
            i <= n,
            best == greatest_number(text::texts(names@).take(i as int), ext@, least),
        decreases n - i,
    {
        proof {
            assert(text::texts(names@).take(i + 1).drop_last() =~= text::texts(names@).take(
                i as int,
            ));
            assert(text::texts(names@).take(i + 1).last() == names@[i as int]@);
        }
        if let Some(num) = parse_segment_number(names[i].as_str(), ext) {
            if num as i64 > best {
                best = num as i64;
            }
        }
        i += 1;
    }
    assert(text::texts(names@).take(n as int) =~= text::texts(names@));
    best
}

/// The pass after the event. `closed` holds the names of the files that
/// were closed, and `count` is the number of segments that are there without a gap.
pub open spec fn pass_after(
    before: Pass,
    event: WatchEvent,
    closed: Seq<Seq<char>>,
    count: u32,
    ext: Seq<char>,
) -> Pass {
    let counted = Pass { segment_count: count, ..before };
    match event {
        WatchEvent::Created => counted,
        WatchEvent::Closed => Pass {
            last_completed: greatest_number(closed, ext, before.last_completed),
            ..counted
        },
        WatchEvent::Other => before,
        WatchEvent::Quiet => counted,
    }
}

// ── Throttling ───────────────────────────────────────────────────────────────

/// What the throttle has done.
#[derive(Debug, Clone, Copy, PartialEq, Eq, Structural)]
pub enum ThrottleStep {
    /// It ends.
    Stop,
    /// It has paused the transcoder.
    Pause,
    /// It has let the transcoder go on.
    Resume,
    /// Nothing.
    Keep,
}

/// How far a pass is ahead of the client, in segments.
pub open spec fn pass_lead(p: Pass) -> int {
    lead(p.start_segment + p.segment_count, p.download_position as int)
}

impl HlsSession {
    /// Starts a session, once its directory was made: it has a playlist from the beginning,
    /// and a first pass from the first segment on. The second part tells the transcoder what
    /// to do. `output_dir` is the path that the platform makes of `session_output_dir`, and
    /// `local` and `remote` hold the keyframes that were found.
    pub fn start(
        id: &str,
        req: &CreateSessionRequest,
        output_dir: &str,
        dir_made: Result<(), String>,
        local: Option<Vec<u128>>,
        remote: Option<Vec<u128>>,
        caps: &HwCapabilities,
        platform: Platform,
        answers: &EncodingAnswers,
    ) -> (r: Result<(HlsSession, TranscodeOptions), String>)
        requires
            ffmpeg::bitrate_usable(req.transcode_video, *caps, *answers),
        ensures
            match (dir_made, r) {
                (Ok(_), Ok((s, opts))) => {
                    &&& s@.sound()
                    &&& started(
                        s@,
                        id@,
                        *req,
                        output_dir@,
                        keyframes_used(req.transcode_video, opt_times(local), opt_times(remote)),
                    )
                    &&& ffmpeg::tells(
                        opts,
                        text::opt_string(req.local_path),
                        req.audio_stream_index,
                        req.audio_streams@,
                        output_dir@,
                        SEGMENT_DURATION,
                        None,
                        0,
                        req.transcode_video,
                        req.transcode_audio,
                        borrowed(&req.tonemap),
                        req.video_bitrate,
                        req.deinterlace,
                        req.client_supports_hevc,
                        text::opt_string(req.iso_type),
                        caps,
                        platform,
                        *answers,
                    )
                },
                (Err(e), Err(m)) => m@ == "Failed to create HLS temp dir: "@ + e@,
                _ => false,
            },
    {
        match dir_made {
            Ok(_) => {},
            Err(e) => {
                return Err(text::join2("Failed to create HLS temp dir: ", e.as_str()));
            },
        }
        let segment_type = segment_type_for(req.transcode_video);
        let keyframes: Option<&[u128]> = if req.transcode_video {
            None
        } else {
            match &local {
                Some(kfs) => Some(kfs.as_slice()),
                None => match &remote {
                    Some(kfs) => Some(kfs.as_slice()),
                    None => None,
                },
            }
        };
        let (vod_playlist, starts) = generate_vod_playlist(
            req.duration_ns,
            SEGMENT_DURATION,
            segment_type,
            keyframes,
        );
        let opts = build_transcode_options(
            text::borrow_opt(&req.local_path),
            req.audio_stream_index,
            &req.audio_streams,
            output_dir,
            SEGMENT_DURATION,
            None,
            0,
            req.transcode_video,
            req.transcode_audio,
            match &req.tonemap {
                Some(tm) => Some(tm),
                None => None,
            },
            req.video_bitrate,
            req.deinterlace,
            req.client_supports_hevc,
            text::borrow_opt(&req.iso_type),
            caps,
            platform,
            answers,
        );
        let segment_start_times: Vec<u128> = if keyframes.is_some() {
            starts
        } else {
            Vec::new()
        };
        let mut passes: Vec<Pass> = Vec::new();
        passes.push(new_pass(0));
        let s = HlsSession {
            id: text::copy_text(id),
            file_id: text::copy_text(req.file_id.as_str()),
            audio_stream_index: req.audio_stream_index,
            duration_ns: req.duration_ns,
            output_dir: text::copy_text(output_dir),
            state: SessionState::Running,
            vod_playlist,
            segment_start_times,
            segment_type,
            transcode_video: req.transcode_video,
            has_worker: true,
            has_channel: true,
            cancelled: false,
            paused: false,
            ffmpeg_exited: false,
            ffmpeg_start_segment: 0,
            passes,
            user_id: text::copy_opt(&req.user_id),
            video_item_id: text::copy_opt(&req.video_item_id),
            episode_id: text::copy_opt(&req.episode_id),
        };
        assert(s@.passes =~= seq![fresh_pass(0)]);
        proof {
            if keyframes is None {
                assert(s@.segment_start_times.map_values(|t: u128| t as int) =~= Seq::empty());
            }
        }
        Ok((s, opts))
    }

    /// The index of the current pass.
    pub fn current_pass(&self) -> (r: usize)
        requires
            self@.sound(),
        ensures
            r == self@.passes.len() - 1,
    {
        self.passes.len() - 1
    }

    /// Whether the session has been stopped.
    pub fn is_stopped(&self) -> (r: bool)
        requires
            self@.sound(),
        ensures
            r == self@.current().stopped,
    {
        self.passes[self.passes.len() - 1].stopped
    }

    /// What is seen of a segment, as far as the session knows it.
    pub fn sight(&self, handle: &SegmentWaitHandle, exists: bool, next_exists: bool) -> (r:
        SegmentSight)
        requires
            handle.pass < self@.passes.len(),
        ensures
            r.stopped == self@.passes[handle.pass as int].stopped,
            r.ffmpeg_exited == self@.ffmpeg_exited,
            r.last_completed == self@.passes[handle.pass as int].last_completed,
            r.exists == exists,
            r.next_exists == next_exists,
    {
        let p = self.passes[handle.pass];
        SegmentSight {
            stopped: p.stopped,
            ffmpeg_exited: self.ffmpeg_exited,
            last_completed: p.last_completed,
            exists,
            next_exists,
        }
    }

    /// The path of a file of the session.
    pub fn segment_path(&self, name: &str) -> (r: FilePath)
        ensures
            r@ == (segments::FilePathView { dir: self@.output_dir, name: name@ }),
    {
        FilePath::new(self.output_dir.as_str(), name)
    }

    /// What a waiter for the file is given.
    pub fn wait_handle(&self, name: &str) -> (r: SegmentWaitHandle)
        requires
            self@.sound(),
            segments::segment_number(name@, self@.segment_type.ext()) != Some(u32::MAX),
        ensures
            r@ == handle_for(self@, name@),
    {
        let ext = self.segment_type.extension();
        let dir = self.output_dir.as_str();
        let next_path = if text::same_text(name, "init.mp4") {
            let first = segment_name_text(self.ffmpeg_start_segment as u64, ext);
            Some(FilePath::new(dir, first.as_str()))
        } else {
            next_segment_path(name, dir, ext)
        };
        SegmentWaitHandle {
            path: self.segment_path(name),
            next_path,
            pass: self.passes.len() - 1,
            requested_segment: parse_segment_number(name, ext),
        }
    }

    /// Takes note of a file that is asked for.
    fn note_request(&mut self, name: &str)
        requires
            old(self)@.sound(),
            !old(self)@.current().stopped,
        ensures
            final(self)@ == asked(old(self)@, name@),
            final(self)@.sound(),
    {
        if text::same_text(name, "init.mp4") {
            return ;
        }
        let ext = self.segment_type.extension();
        match parse_segment_number(name, ext) {
            None => {},
            Some(n) => {
                let last: usize = self.passes.len() - 1;
                let p = self.passes[last];
                let mut moved = p;
                if n > p.download_position {
                    moved.download_position = n;
                }
                self.passes.set(last, moved);
                if self.paused {
                    let estimated_max: u32 = self.ffmpeg_start_segment + p.segment_count;
                    let gap: u32 = if estimated_max > n {
                        estimated_max - n
                    } else {
                        0
                    };
                    if gap <= THROTTLE_AHEAD_SEGMENTS {
                        self.paused = false;
                    }
                }
                assert(self@.passes =~= asked(old(self)@, name@).passes);
            },
        }
    }

    /// What is done about a file that is asked for. `on_disk` tells whether it is there. The
    /// caller lets go of the session before it waits. Where a new pass has to be started, the
    /// caller carries the order out, reports by `seek_sent`, and then takes a `wait_handle`.
    pub fn prepare_segment_wait(&mut self, name: &str, on_disk: bool) -> (r: SegmentPlan)
        requires
            old(self)@.sound(),
            old(self)@.current().stopped || segments::segment_number(
                name@,
                old(self)@.segment_type.ext(),
            ) != Some(u32::MAX),
        ensures
            final(self)@.sound(),
            is_plan_for(old(self)@, name@, on_disk, r, final(self)@),
    {
        if self.is_stopped() {
            return SegmentPlan::Gone;
        }
        self.note_request(name);
        if on_disk {
            return SegmentPlan::Wait(self.wait_handle(name));
        }
        if !text::same_text(name, "init.mp4") {
            let ext = self.segment_type.extension();
            let requested: u32 = match parse_segment_number(name, ext) {
                Some(n) => n,
                None => 0,
            };
            let last: usize = self.passes.len() - 1;
            let estimated_max: u64 = self.ffmpeg_start_segment as u64
                + self.passes[last].segment_count as u64;
            let seek = self.ffmpeg_exited || requested < self.ffmpeg_start_segment
                || requested as u64 > estimated_max + SEEK_THRESHOLD_SEGMENTS as u64;
            if seek {
                return SegmentPlan::Seek(self.seek_restart(requested));
            }
        }
        SegmentPlan::Wait(self.wait_handle(name))
    }

    /// Where a pass for the segment starts, in nanoseconds.
    fn seek_target(&self, target: u32) -> (r: u128)
        ensures
            r == seek_position(self@, target),
    {
        if target == 0 {
            return 0;
        }
        let place: u128 = target as u128 * SEGMENT_DURATION as u128 * SECOND;
        let latest: u128 = if self.duration_ns > SEEK_MARGIN {
            self.duration_ns - SEEK_MARGIN
        } else {
            0
        };
        let wanted: u128 = if self.segment_start_times.len() > 0 {
            let exact: u128 = if (target as usize) < self.segment_start_times.len() {
                self.segment_start_times[target as usize]
            } else {
                place
            };
            if exact >= latest {
                return latest;
            }
            exact + SEEK_NUDGE
        } else if self.transcode_video {
            place
        } else {
            place - SEGMENT_DURATION as u128 * SECOND
        };
        if wanted <= latest {
            wanted
        } else {
            latest
        }
    }

    /// Tells the worker's pass to end for one that starts at the segment `target_segment`.
    pub fn seek_restart(&mut self, target_segment: u32) -> (r: SeekOrder)
        requires
            old(self)@.sound(),
        ensures
            final(self)@ == seeking(old(self)@, target_segment),
            final(self)@.sound(),
            r.target_segment == target_segment,
            r.seek_ns == seek_position(old(self)@, target_segment),
    {
        let seek_ns: u128 = self.seek_target(target_segment);
        let last: usize = self.passes.len() - 1;
        let mut p = self.passes[last];
        p.stopped = true;
        self.passes.set(last, p);
        self.ffmpeg_exited = false;
        self.cancelled = false;
        self.paused = false;
        self.state = SessionState::Running;
        self.ffmpeg_start_segment = target_segment;
        assert(self@.passes =~= seeking(old(self)@, target_segment).passes);
        SeekOrder { target_segment, seek_ns }
    }

    /// Takes note of whether the order for a new pass has reached the worker: if so, the pass
    /// begins; if not, the session stays stopped.
    pub fn seek_sent(&mut self, sent: bool) -> (r: Result<(), String>)
        requires
            old(self)@.sound(),
            old(self)@.current().stopped,
        ensures
            final(self)@.sound(),
            if old(self)@.has_channel && sent {
                &&& r is Ok
                &&& final(self)@ == (SessionView {
                    passes: old(self)@.passes.push(fresh_pass(old(self)@.ffmpeg_start_segment)),
                    ..old(self)@
                })
            } else {
                &&& r matches Err(m)
                &&& m@ == "[HLS:"@ + old(self)@.id + if old(self)@.has_channel {
                    "] worker thread has exited"@
                } else {
                    "] no worker thread available"@
                }
                &&& final(self)@ == old(self)@
            },
    {
        if !self.has_channel {
            return Err(
                text::join3("[HLS:", self.id.as_str(), "] no worker thread available"),
            );
        }
        if !sent {
            return Err(text::join3("[HLS:", self.id.as_str(), "] worker thread has exited"));
        }
        let start: u32 = self.ffmpeg_start_segment;
        self.passes.push(new_pass(start));
        assert(forall|k: int|
            0 <= k < self@.passes.len() - 1 ==> self@.passes[k] == old(self)@.passes[k]);
        assert(self@.passes =~= old(self)@.passes.push(fresh_pass(start)));
        Ok(())
    }

    /// Whether the watcher of a pass's output ends: the pass has been told to. It asks before
    /// it waits, so that what it then sees is taken note of all the same.
    pub fn watch_ends(&self, pass: usize) -> (r: bool)
        requires
            pass < self@.passes.len(),
        ensures
            r == self@.passes[pass as int].stopped,
    {
        self.passes[pass].stopped
    }

    /// Takes note of what the watcher of a pass's output has seen, also where the pass has
    /// been told to end meanwhile. `names` holds the names of all files that are there, and
    /// `closed` those that were closed.
    pub fn watch_segments(
        &mut self,
        pass: usize,
        event: WatchEvent,
        closed: &[String],
        names: &[String],
    ) -> (r: WatchStep)
        requires
            old(self)@.sound(),
            pass < old(self)@.passes.len(),
            segments::run_ends(
                text::texts(names@),
                old(self)@.passes[pass as int].start_segment,
                old(self)@.segment_type.ext(),
            ),
        ensures
            final(self)@.sound(),
            ({
                let p = old(self)@.passes[pass as int];
                let ext = old(self)@.segment_type.ext();
                exists|count: u32|
                    {
                        &&& #[trigger] segments::run_length(
                            text::texts(names@),
                            p.start_segment,
                            ext,
                            count as int,
                        )
                        &&& final(self)@ == old(self)@.with_pass(
                            pass as int,
                            pass_after(p, event, text::texts(closed@), count, ext),
                        )
                        &&& r == if event == WatchEvent::Closed || event == WatchEvent::Quiet || (
                        event == WatchEvent::Created && count != p.segment_count) {
                            WatchStep::Notify
                        } else {
                            WatchStep::GoOn
                        }
                    }
            }),
    {
        let p = self.passes[pass];
        let ext = self.segment_type.extension();
        let count: u32 = count_segments_from(names, p.start_segment, ext);
        let mut after = p;
        match event {
            WatchEvent::Closed => {
                after.last_completed = highest(closed, ext, p.last_completed);
                after.segment_count = count;
            },
            WatchEvent::Created => {
                after.segment_count = count;
            },
            WatchEvent::Quiet => {
                after.segment_count = count;
            },
            WatchEvent::Other => {},
        }
        self.passes.set(pass, after);
        proof {
            assert(self@.passes =~= old(self)@.passes.update(pass as int, after));
            assert(segments::run_length(
                text::texts(names@),
                p.start_segment,
                self@.segment_type.ext(),
                count as int,
            ));
        }
        match event {
            WatchEvent::Closed => WatchStep::Notify,
            WatchEvent::Quiet => WatchStep::Notify,
            WatchEvent::Created => {
                if count != p.segment_count {
                    WatchStep::Notify
                } else {
                    WatchStep::GoOn
                }
            },
            WatchEvent::Other => WatchStep::GoOn,
        }
    }

    /// Takes note of what a look at a pass's output has seen, where nothing watches it.
    pub fn watch_segments_poll(&mut self, pass: usize, names: &[String]) -> (r: WatchStep)
        requires
            old(self)@.sound(),
            pass < old(self)@.passes.len(),
            segments::run_ends(
                text::texts(names@),
                old(self)@.passes[pass as int].start_segment,
                old(self)@.segment_type.ext(),
            ),
        ensures
            final(self)@.sound(),
            ({
                let p = old(self)@.passes[pass as int];
                exists|count: u32|
                    {
                        &&& #[trigger] segments::run_length(
                            text::texts(names@),
                            p.start_segment,
                            old(self)@.segment_type.ext(),
                            count as int,
                        )
                        &&& final(self)@ == old(self)@.with_pass(
                            pass as int,
                            Pass { segment_count: count, ..p },
                        )
                        &&& r == if count != p.segment_count {
                            WatchStep::Notify
                        } else {
                            WatchStep::GoOn
                        }
                    }
            }),
    {
        let none: Vec<String> = Vec::new();
        self.watch_segments(pass, WatchEvent::Created, &none, names)
    }

    /// Pauses the transcoder where a pass is too far ahead of the client, and lets it go on
    /// where it is not.
    pub fn throttle(&mut self, pass: usize) -> (r: ThrottleStep)
        requires
            old(self)@.sound(),
            pass < old(self)@.passes.len(),
        ensures
            final(self)@.sound(),
            ({
                let p = old(self)@.passes[pass as int];
                let ahead = pass_lead(p) > THROTTLE_AHEAD_SEGMENTS;
                if p.stopped {
                    r == ThrottleStep::Stop && final(self)@ == old(self)@
                } else {
                    &&& final(self)@ == (SessionView { paused: ahead, ..old(self)@ })
                    &&& r == if ahead == old(self)@.paused {
                        ThrottleStep::Keep
                    } else if ahead {
                        ThrottleStep::Pause
                    } else {
                        ThrottleStep::Resume
                    }
                }
            }),
    {
        let p = self.passes[pass];
        if p.stopped {
            return ThrottleStep::Stop;
        }
        let written: u32 = p.start_segment + p.segment_count;
        let gap: u32 = if written > p.download_position {
            written - p.download_position
        } else {
            0
        };
        let was = self.paused;
        if gap > THROTTLE_AHEAD_SEGMENTS {
            self.paused = true;
            if was {
                ThrottleStep::Keep
            } else {
                ThrottleStep::Pause
            }
        } else {
            self.paused = false;
            if was {
                ThrottleStep::Resume
            } else {
                ThrottleStep::Keep
            }
        }
    }

    /// Takes note that a pass of the worker has ended, by itself or because it was cancelled.
    pub fn pass_finished(&mut self, completed: bool)
        requires
            old(self)@.sound(),
        ensures
            final(self)@.sound(),
            final(self)@ == (SessionView {
                ffmpeg_exited: old(self)@.ffmpeg_exited || completed,
                ..old(self)@
            }),
    {
        if completed {
            self.ffmpeg_exited = true;
        }
    }

    /// Takes note that the worker has ended.
    pub fn worker_exited(&mut self)
        requires
            old(self)@.sound(),
        ensures
            final(self)@.sound(),
            final(self)@ == (SessionView { ffmpeg_exited: true, ..old(self)@ }),
    {
        self.ffmpeg_exited = true;
    }

    /// Brings the state up to date, given whether the worker has ended.
    pub fn check_ffmpeg_status(&mut self, worker_finished: bool)
        requires
            old(self)@.sound(),
        ensures
            final(self)@.sound(),
            final(self)@ == if old(self)@.has_worker && worker_finished
                && old(self)@.ffmpeg_exited {
                SessionView {
                    state: if old(self)@.cancelled {
                        SessionState::Stopped
                    } else {
                        SessionState::Finished
                    },
                    ..old(self)@
                }
            } else {
                old(self)@
            },
    {
        if self.has_worker && worker_finished && self.ffmpeg_exited {
            if self.cancelled {
                self.state = SessionState::Stopped;
            } else {
                self.state = SessionState::Finished;
            }
        }
    }

    /// The playback state at this moment.
    pub fn playback_snapshot(&self) -> (r: PlaybackSnapshot)
        requires
            self@.sound(),
        ensures
            r.session_id@ == self@.id,
            r.file_id@ == self@.file_id,
            text::opt_string(r.user_id) == self@.user_id,
            text::opt_string(r.video_item_id) == self@.video_item_id,
            text::opt_string(r.episode_id) == self@.episode_id,
            r.duration_ns == self@.duration_ns,
            r.position_secs == self@.current().download_position * SEGMENT_DURATION,
            r.client_name@ == "HLS Server"@,
    {
        let p = self.passes[self.passes.len() - 1];
        let length: u64 = SEGMENT_DURATION as u64;
        assert(length == 6);
        PlaybackSnapshot {
            session_id: text::copy_text(self.id.as_str()),
            file_id: text::copy_text(self.file_id.as_str()),
            user_id: text::copy_opt(&self.user_id),
            video_item_id: text::copy_opt(&self.video_item_id),
            episode_id: text::copy_opt(&self.episode_id),
            duration_ns: self.duration_ns,
            position_secs: p.download_position as u64 * length,
            client_name: "HLS Server",
        }
    }

    /// Stops the session. Returns whether it has gone on until now: then the caller cancels
    /// the running pass, tells the worker to end, waits for it and removes the directory.
    pub fn stop(&mut self) -> (r: bool)
        requires
            old(self)@.sound(),
        ensures
            final(self)@.sound(),
            r == !old(self)@.current().stopped,
            final(self)@ == if r {
                stopped_for_good(old(self)@)
            } else {
                old(self)@
            },
    {
        let last: usize = self.passes.len() - 1;
        let mut p = self.passes[last];
        if p.stopped {
            return false;
        }
        p.stopped = true;
        self.passes.set(last, p);
        self.state = SessionState::Stopped;
        self.cancelled = true;
        self.paused = false;
        self.has_channel = false;
        self.has_worker = false;
        assert(self@.passes =~= stopped_for_good(old(self)@).passes);
        true
    }

    /// Lets go of a session that is dropped: whatever runs is told to end. Returns whether
    /// the worker has to be told.
    pub fn abandon(&mut self) -> (r: bool)
        requires
            old(self)@.sound(),
        ensures
            final(self)@.sound(),
            r == old(self)@.has_channel,
            final(self)@ == abandoned(old(self)@),
    {
        let last: usize = self.passes.len() - 1;
        let mut p = self.passes[last];
        p.stopped = true;
        self.passes.set(last, p);
        self.cancelled = true;
        self.paused = false;
        let had = self.has_channel;
        self.has_channel = false;
        assert(self@.passes =~= abandoned(old(self)@).passes);
        had
    }
}

/// What is borrowed from an option.
pub open spec fn borrowed<T>(x: &Option<T>) -> Option<&T> {
    match x {
        Some(v) => Some(v),
        None => None,
    }
}

/// The session after it was stopped.
pub open spec fn stopped_for_good(s: SessionView) -> SessionView {
    let ended = s.with_current(Pass { stopped: true, ..s.current() });
    SessionView {
        state: SessionState::Stopped,
        cancelled: true,
        paused: false,
        has_channel: false,
        has_worker: false,
        ..ended
    }
}

/// The session after it was let go of.
pub open spec fn abandoned(s: SessionView) -> SessionView {
    let ended = s.with_current(Pass { stopped: true, ..s.current() });
    SessionView { cancelled: true, paused: false, has_channel: false, ..ended }
}

}
