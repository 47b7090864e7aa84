//! What holds of a session over several calls.
use super::{Pass, SegmentPlan, SegmentSight, WaitMoment, WaitStep, WatchEvent};
use super::{SEEK_MARGIN, SEEK_NUDGE, THROTTLE_AHEAD_SEGMENTS};
use crate::ffmpeg::SEGMENT_DURATION;
use crate::playlist;
use crate::playlist::{HlsSegmentType, SECOND};
use crate::segments;
use crate::text;
use crate::types::{CreateSessionRequest, SessionState};
use vstd::prelude::*;

verus! {

// ── Starting anew elsewhere ──────────────────────────────────────────────────

/// A pass starts within the file, and not within its last seconds.
pub proof fn seek_stays_within_the_file(s: super::SessionView, target: u32)
    ensures
        0 <= super::seek_position(s, target),
        super::seek_position(s, target) <= if s.duration_ns > SEEK_MARGIN {
            s.duration_ns - SEEK_MARGIN
        } else {
            0
        },
{
    assert(target > 0 ==> target * SEGMENT_DURATION * SECOND >= SEGMENT_DURATION * SECOND)
        by (nonlinear_arith);
}

/// With the starts of the segments known, a pass starts just behind that of its first
/// segment, as long as that is not within the last seconds of the file.
pub proof fn indexed_seek_lands_behind_the_keyframe(s: super::SessionView, target: u32)
    requires
        0 < target < s.segment_start_times.len(),
        s.segment_start_times[target as int] + SEEK_NUDGE + SEEK_MARGIN <= s.duration_ns,
    ensures
        super::seek_position(s, target) == s.segment_start_times[target as int] + SEEK_NUDGE,
{
}

/// Where the video is copied and the starts of the segments are unknown, a pass starts one
/// segment early at least.
pub proof fn unindexed_copy_seeks_early(s: super::SessionView, target: u32)
    requires
        target > 0,
        !s.transcode_video,
        s.segment_start_times.len() == 0,
    ensures
        super::seek_position(s, target) + SEGMENT_DURATION * SECOND <= target * SEGMENT_DURATION
            * SECOND,
{
}

/// Once a new pass has begun for a segment, the same request starts no other.
pub proof fn a_new_pass_serves_its_request(s: super::SessionView, name: Seq<char>, on_disk: bool)
    requires
        s.sound(),
        super::seeks_for(s, name, on_disk),
    ensures
        ({
            let target = super::target_of(s, name);
            let ended = super::seeking(s, target);
            let begun = super::SessionView {
                passes: ended.passes.push(super::fresh_pass(target)),
                ..ended
            };
            &&& begun.sound()
            &&& !super::seeks_for(begun, name, on_disk)
            &&& !super::seeks_for(super::asked(begun, name), name, on_disk)
        }),
{
    let target = super::target_of(s, name);
    let ended = super::seeking(s, target);
    let begun = super::SessionView {
        passes: ended.passes.push(super::fresh_pass(target)),
        ..ended
    };
    assert forall|k: int| 0 <= k < begun.passes.len() - 1 implies (
    #[trigger] begun.passes[k]).stopped && begun.passes[k].start_segment
        + begun.passes[k].segment_count <= u32::MAX by {
        assert(begun.passes[k] == ended.passes[k]);
        if k < s.passes.len() - 1 {
            assert(ended.passes[k] == s.passes[k]);
        }
    }
    assert(begun.current() == super::fresh_pass(target));
}

/// Whoever waits for a segment of an earlier pass gives up at the next look.
pub proof fn earlier_waiters_give_up(
    s: super::SessionView,
    target: u32,
    h: super::HandleView,
    seen: SegmentSight,
)
    requires
        s.sound(),
        0 <= h.pass < s.passes.len(),
        seen.stopped == super::seeking(s, target).passes[h.pass].stopped,
    ensures
        h.next_step(WaitMoment::Look, seen) == WaitStep::GiveUp,
{
    if h.pass < s.passes.len() - 1 {
        assert(super::seeking(s, target).passes[h.pass] == s.passes[h.pass]);
    }
}

// ── Waiting ──────────────────────────────────────────────────────────────────

/// A file is served only where it is there.
pub proof fn only_files_that_exist_are_served(
    h: super::HandleView,
    moment: WaitMoment,
    seen: SegmentSight,
)
    requires
        h.next_step(moment, seen) == WaitStep::Serve,
    ensures
        seen.exists,
{
}

/// Waiting ends when its time is over, and once the transcoder has ended.
pub proof fn waiting_ends(h: super::HandleView, moment: WaitMoment, seen: SegmentSight)
    requires
        moment == WaitMoment::TimedOut || moment == WaitMoment::Late || seen.ffmpeg_exited,
    ensures
        h.next_step(moment, seen) == WaitStep::Serve || h.next_step(moment, seen) == WaitStep::GiveUp,
{
}

/// A segment that is there once the transcoder has ended is served, unless the session was
/// stopped.
pub proof fn whatever_was_written_is_served(
    h: super::HandleView,
    moment: WaitMoment,
    seen: SegmentSight,
)
    requires
        seen.exists,
        seen.ffmpeg_exited,
        !seen.stopped,
    ensures
        h.next_step(moment, seen) == WaitStep::Serve,
{
}

// ── Throttling ───────────────────────────────────────────────────────────────

/// A client that comes near the transcoder never finds it paused, whether by its own request
/// or by the throttle's next look.
pub proof fn a_near_client_is_not_held_up(s: super::SessionView, name: Seq<char>, n: u32)
    requires
        s.sound(),
        !s.current().stopped,
        !super::is_init(name),
        segments::segment_number(name, s.segment_type.ext()) == Some(n),
        super::lead(super::written_up_to(s), n as int) <= THROTTLE_AHEAD_SEGMENTS,
    ensures
        !super::asked(s, name).paused,
        super::pass_lead(super::asked(s, name).current()) <= THROTTLE_AHEAD_SEGMENTS,
{
}

/// What is asked for moves the client's position up, never down, and keeps all else of the
/// pass.
pub proof fn the_client_never_moves_back(s: super::SessionView, name: Seq<char>)
    requires
        s.sound(),
    ensures
        super::asked(s, name).current().download_position >= s.current().download_position,
        super::asked(s, name).current() == (Pass {
            download_position: super::asked(s, name).current().download_position,
            ..s.current()
        }),
        super::asked(s, name).sound(),
{
    let a = super::asked(s, name);
    assert forall|k: int| 0 <= k < a.passes.len() - 1 implies (#[trigger] a.passes[k])
        == s.passes[k] by {}
}

// ── Stopping ─────────────────────────────────────────────────────────────────

/// A session that was stopped stays so: it is stopped, cancelled and not paused, and nothing
/// that is asked for changes that.
pub proof fn stopping_is_for_good(s: super::SessionView)
    requires
        s.sound(),
    ensures
        ({
            let over = super::stopped_for_good(s);
            &&& over.sound()
            &&& over.current().stopped
            &&& over.cancelled && !over.paused
            &&& !over.has_channel && !over.has_worker
        }),
{
    let over = super::stopped_for_good(s);
    assert forall|k: int| 0 <= k < over.passes.len() - 1 implies (#[trigger] over.passes[k])
        == s.passes[k] by {}
}

/// The segments of the playlist are those that the session writes: where the keyframes are
/// unknown, each begins at its number times the length of a segment, which is where a pass
/// that encodes anew starts for it.
pub proof fn playlist_and_seek_agree(s: super::SessionView, target: u32)
    requires
        s.transcode_video,
        s.segment_start_times.len() == 0,
        0 < target,
        target * SEGMENT_DURATION * SECOND + SEEK_MARGIN <= s.duration_ns,
    ensures
        ({
            let length = SEGMENT_DURATION * SECOND;
            let segs = playlist::vod_segments(s.duration_ns as int, length, None);
            &&& target < segs.len()
            &&& super::seek_position(s, target) == segs[target as int].0
        }),
{
    let length = SEGMENT_DURATION * SECOND;
    let duration = s.duration_ns as int;
    playlist::equal_segments_are_equal(duration, length);
    let segs = playlist::vod_segments(duration, length, None);
    assert(target * SEGMENT_DURATION * SECOND == target * length) by (nonlinear_arith)
        requires
            length == SEGMENT_DURATION * SECOND,
    ;
    if target >= segs.len() {
        assert((segs.len() - 1) * length + length <= target * length) by (nonlinear_arith)
            requires
                segs.len() <= target,
                length > 0,
        ;
    }
}

// ── Requests ─────────────────────────────────────────────────────────────────

/// A live pass serves what it is about to write. Once the watcher has seen `count` segments
/// without a gap from the first of the pass on, a request for a segment that is not there is
/// waited for where it is one of the pass and at most four behind the last of them; it starts
/// a new pass at that very segment where it comes before the pass or lies further ahead. What
/// is there is never a reason to start one.
pub proof fn a_live_pass_serves_what_it_is_about_to_write(
    s: super::SessionView,
    event: WatchEvent,
    closed: Seq<Seq<char>>,
    names: Seq<Seq<char>>,
    count: u32,
    name: Seq<char>,
    n: u32,
    on_disk: bool,
    plan: SegmentPlan,
    after: super::SessionView,
)
    requires
        s.sound(),
        !s.current().stopped,
        !s.ffmpeg_exited,
        event != WatchEvent::Other,
        segments::run_length(names, s.current().start_segment, s.segment_type.ext(), count as int),
        name != "init.mp4"@,
        segments::segment_number(name, s.segment_type.ext()) == Some(n),
        super::is_plan_for(
            s.with_pass(
                s.passes.len() - 1,
                super::pass_after(s.current(), event, closed, count, s.segment_type.ext()),
            ),
            name,
            on_disk,
            plan,
            after,
        ),
    ensures
        ({
            let start = s.current().start_segment;
            if on_disk || start <= n <= start + count + 4 {
                &&& plan matches SegmentPlan::Wait(handle)
                &&& handle.requested_segment == Some(n)
                &&& after.passes.len() == s.passes.len()
                &&& !after.current().stopped
                &&& after.ffmpeg_start_segment == start
            } else {
                &&& plan matches SegmentPlan::Seek(order)
                &&& order.target_segment == n
                &&& after.current().stopped
                &&& after.ffmpeg_start_segment == n
            }
        }),
{
}

/// A request to a session that was stopped gets nothing and changes nothing. Once the worker's
/// pass has come to its end, a segment that is not there starts a new pass at that segment, and
/// a file that is no segment starts one at the beginning; the first file of fragmented MP4
/// never starts one.
pub proof fn requests_of_other_kinds(
    s: super::SessionView,
    name: Seq<char>,
    on_disk: bool,
    plan: SegmentPlan,
    after: super::SessionView,
)
    requires
        s.sound(),
        super::is_plan_for(s, name, on_disk, plan, after),
    ensures
        s.current().stopped ==> plan is Gone && after == s,
        !s.current().stopped && (on_disk || name == "init.mp4"@) ==> plan is Wait,
        !s.current().stopped && s.ffmpeg_exited && !on_disk && name != "init.mp4"@ ==> (
        plan matches SegmentPlan::Seek(order) && order.target_segment
            == match segments::segment_number(name, s.segment_type.ext()) {
            Some(n) => n,
            None => 0,
        }),
{
}

/// A pass for a segment of video that is encoded anew starts at six seconds times its number;
/// one for video that is copied six seconds earlier; and one for a segment whose start is known
/// a tenth of a second behind that start. None starts in the last five seconds of the file, and
/// the first segment is at its beginning.
pub proof fn passes_start_where_their_segment_does(s: super::SessionView, target: u32)
    ensures
        ({
            let at = super::seek_position(s, target);
            let latest = if s.duration_ns > 5_000_000_000 {
                s.duration_ns - 5_000_000_000
            } else {
                0
            };
            let wanted = if target < s.segment_start_times.len() {
                s.segment_start_times[target as int] + 100_000_000
            } else if s.segment_start_times.len() > 0 {
                target * 6_000_000_000 + 100_000_000
            } else if s.transcode_video {
                target * 6_000_000_000
            } else {
                target * 6_000_000_000 - 6_000_000_000
            };
            &&& target == 0 ==> at == 0
            &&& target > 0 && wanted <= latest ==> at == wanted
            &&& target > 0 && wanted > latest ==> at == latest
        }),
{
    assert(target * SEGMENT_DURATION * SECOND == target * 6_000_000_000) by (nonlinear_arith)
        requires
            SEGMENT_DURATION == 6,
            SECOND == 1_000_000_000,
    ;
}

/// A request moves the client to the segment where that is ahead of it, and lets a paused
/// transcoder go on where it is at most ten segments ahead of the request; it changes nothing
/// else. Requests for other files change nothing.
pub proof fn requests_move_the_client(s: super::SessionView, name: Seq<char>)
    requires
        s.sound(),
        !s.current().stopped,
    ensures
        ({
            let a = super::asked(s, name);
            let p = s.current();
            match segments::segment_number(name, s.segment_type.ext()) {
                Some(n) => name != "init.mp4"@ ==> {
                    &&& a.current().download_position == if n > p.download_position {
                        n
                    } else {
                        p.download_position
                    }
                    &&& a.paused <==> s.paused && p.start_segment + p.segment_count > n + 10
                    &&& a.state == s.state && a.cancelled == s.cancelled
                    &&& a.passes.len() == s.passes.len()
                },
                None => a == s,
            }
        }),
{
}

/// A pass is paused exactly where it is more than ten segments, a minute, ahead of the client.
pub proof fn a_minute_ahead_is_too_far(p: Pass)
    ensures
        super::pass_lead(p) > THROTTLE_AHEAD_SEGMENTS <==> p.start_segment + p.segment_count
            > p.download_position + 10,
        THROTTLE_AHEAD_SEGMENTS * SEGMENT_DURATION == 60,
        super::SEEK_THRESHOLD_SEGMENTS * SEGMENT_DURATION == 24,
{
}

/// A segment can be served exactly where it is there and known to be whole: the transcoder has
/// ended, or this or a later segment is known to be written to the end, or the file behind it
/// is there, or there is none to look for.
pub proof fn segments_are_served_whole(h: super::HandleView, seen: SegmentSight)
    ensures
        h.ready(seen) <==> {
            &&& seen.exists
            &&& {
                ||| seen.ffmpeg_exited
                ||| h.next_path is None
                ||| seen.next_exists
                ||| (h.requested_segment is Some && h.requested_segment->0 <= seen.last_completed)
            }
        },
{
}

/// A waiter that looks at a pass that was told to end gives up. Else what is whole is served,
/// and what is not is waited for, for as long as there is time and the transcoder runs.
pub proof fn waiters_wait_for_what_is_not_whole(
    h: super::HandleView,
    moment: WaitMoment,
    seen: SegmentSight,
)
    ensures
        ({
            let step = h.next_step(moment, seen);
            let before = moment == WaitMoment::Look || moment == WaitMoment::Late;
            &&& before && seen.stopped ==> step == WaitStep::GiveUp
            &&& !(before && seen.stopped) && h.ready(seen) ==> step == WaitStep::Serve
            &&& !(before && seen.stopped) && !h.ready(seen) ==> if seen.ffmpeg_exited {
                step == WaitStep::GiveUp
            } else {
                match moment {
                    WaitMoment::Look => step == WaitStep::Wait,
                    WaitMoment::Late => step == WaitStep::GiveUp,
                    WaitMoment::Notified => step == WaitStep::Again,
                    WaitMoment::TimedOut => step == WaitStep::GiveUp,
                }
            }
        }),
{
}

/// What a waiter is given: the file in the session's directory, the pass that goes on, and as
/// the file behind it the next segment; behind the first file of fragmented MP4, the first
/// segment of the pass; behind other files, none.
pub proof fn waiters_look_for_the_next_segment(s: super::SessionView, name: Seq<char>)
    ensures
        ({
            let h = super::handle_for(s, name);
            let ext = s.segment_type.ext();
            &&& h.path.dir == s.output_dir && h.path.name == name
            &&& h.pass == s.passes.len() - 1
            &&& h.requested_segment == segments::segment_number(name, ext)
            &&& name == "init.mp4"@ ==> (h.next_path matches Some(p) && p.dir == s.output_dir
                && p.name == segments::segment_name(s.ffmpeg_start_segment as nat, ext))
            &&& name != "init.mp4"@ ==> match segments::segment_number(name, ext) {
                Some(n) => h.next_path matches Some(p) && p.dir == s.output_dir && p.name
                    == segments::segment_name((n + 1) as nat, ext),
                None => h.next_path is None,
            }
        }),
{
}

/// A new pass leaves nothing of the old one: the session runs, is neither cancelled nor paused
/// nor at its end, and begins at the target; the old pass is told to end, and all else of it
/// stays.
pub proof fn a_new_pass_begins_afresh(s: super::SessionView, target: u32)
    requires
        s.sound(),
    ensures
        ({
            let t = super::seeking(s, target);
            let p = super::fresh_pass(target);
            &&& t.state == SessionState::Running
            &&& !t.cancelled && !t.paused && !t.ffmpeg_exited
            &&& t.ffmpeg_start_segment == target
            &&& t.current() == (Pass { stopped: true, ..s.current() })
            &&& t.passes.len() == s.passes.len()
            &&& t.id == s.id && t.file_id == s.file_id && t.output_dir == s.output_dir
            &&& t.vod_playlist == s.vod_playlist && t.segment_start_times == s.segment_start_times
            &&& t.has_worker == s.has_worker && t.has_channel == s.has_channel
            &&& p.start_segment == target && p.download_position == target
            &&& p.segment_count == 0 && p.last_completed == -1 && !p.stopped
        }),
{
}

/// What the watcher sees is noted: the number of segments without a gap after every event but
/// one of no concern, and of files that were closed the greatest number, unless a greater one
/// was known.
pub proof fn what_the_watcher_sees_is_noted(
    p: Pass,
    event: WatchEvent,
    closed: Seq<Seq<char>>,
    count: u32,
    ext: Seq<char>,
    k: int,
)
    requires
        0 <= k < closed.len(),
    ensures
        ({
            let a = super::pass_after(p, event, closed, count, ext);
            &&& a.segment_count == if event == WatchEvent::Other {
                p.segment_count
            } else {
                count
            }
            &&& a.last_completed >= p.last_completed
            &&& event != WatchEvent::Closed ==> a.last_completed == p.last_completed
            &&& event == WatchEvent::Closed ==> (segments::segment_number(closed[k], ext) matches Some(
                n,
            ) ==> a.last_completed >= n)
            &&& a.last_completed > p.last_completed ==> exists|j: int|
                0 <= j < closed.len() && segments::segment_number(#[trigger] closed[j], ext)
                    == Some(a.last_completed as u32) && a.last_completed <= u32::MAX
            &&& a.start_segment == p.start_segment && a.stopped == p.stopped
            &&& a.download_position == p.download_position
        }),
{
    lemma_greatest(closed, ext, p.last_completed);
    if event == WatchEvent::Closed {
        assert(segments::segment_number(closed[k], ext) matches Some(n)
            ==> super::greatest_number(closed, ext, p.last_completed) >= n);
    }
}

proof fn lemma_greatest(names: Seq<Seq<char>>, ext: Seq<char>, least: i64)
    ensures
        super::greatest_number(names, ext, least) >= least,
        forall|i: int|
            0 <= i < names.len() ==> (segments::segment_number(#[trigger] names[i], ext) matches Some(n)
                ==> super::greatest_number(names, ext, least) >= n),
        super::greatest_number(names, ext, least) > least ==> exists|j: int|
            0 <= j < names.len() && segments::segment_number(#[trigger] names[j], ext) == Some(
                super::greatest_number(names, ext, least) as u32,
            ) && super::greatest_number(names, ext, least) <= u32::MAX,
    decreases names.len(),
{
    if names.len() > 0 {
        let less = names.drop_last();
        lemma_greatest(less, ext, least);
        let best = super::greatest_number(names, ext, least);
        assert forall|i: int| 0 <= i < names.len() implies (segments::segment_number(
            #[trigger] names[i],
            ext,
        ) matches Some(n) ==> best >= n) by {
            if i < names.len() - 1 {
                assert(less[i] == names[i]);
            }
        }
        if best > least {
            if best == super::greatest_number(less, ext, least) {
                let j = choose|j: int|
                    0 <= j < less.len() && segments::segment_number(#[trigger] less[j], ext)
                        == Some(super::greatest_number(less, ext, least) as u32)
                        && super::greatest_number(less, ext, least) <= u32::MAX;
                assert(names[j] == less[j]);
            } else {
                assert(names[names.len() - 1] == names.last());
            }
        }
    }
}

/// Keyframes are looked for in files whose names end in .mkv, whatever the case.
pub proof fn matroska_files_are_told_by_their_name(front: Seq<char>, ext: Seq<char>)
    requires
        ext.len() == 4,
    ensures
        super::is_mkv(front + ext) <==> {
            &&& ext[0] == '.'
            &&& ext[1] == 'm' || ext[1] == 'M'
            &&& ext[2] == 'k' || ext[2] == 'K'
            &&& ext[3] == 'v' || ext[3] == 'V'
        },
{
    reveal_strlit(".mkv");
    let low = text::ascii_lowercase(front + ext);
    assert(low =~= text::ascii_lowercase(front) + text::ascii_lowercase(ext));
    let tail = low.skip(low.len() - 4);
    assert(tail =~= text::ascii_lowercase(ext));
    assert(super::is_mkv(front + ext) <==> tail == ".mkv"@);
    lemma_letter(ext[0], '.', '.');
    lemma_letter(ext[1], 'm', 'M');
    lemma_letter(ext[2], 'k', 'K');
    lemma_letter(ext[3], 'v', 'V');
    assert(forall|i: int| 0 <= i < 4 ==> #[trigger] tail[i] == text::ascii_lower(ext[i]));
    if ext[0] == '.' && (ext[1] == 'm' || ext[1] == 'M') && (ext[2] == 'k' || ext[2] == 'K') && (
    ext[3] == 'v' || ext[3] == 'V') {
        assert(tail =~= ".mkv"@);
    }
    if tail == ".mkv"@ {
        assert(tail[0] == '.' && tail[1] == 'm' && tail[2] == 'k' && tail[3] == 'v');
    }
}

proof fn lemma_letter(c: char, small: char, big: char)
    requires
        ('a' <= small <= 'z' && big as u32 + 32 == small as u32) || (small == '.' && big == '.'),
    ensures
        text::ascii_lower(c) == small <==> c == small || c == big,
{
}

/// The keyframes of the local file count before those of the remote source, and none do where
/// the video is encoded anew.
pub proof fn local_keyframes_come_first(local: Option<Seq<u128>>, remote: Option<Seq<u128>>)
    ensures
        super::keyframes_used(true, local, remote) is None,
        local is Some ==> super::keyframes_used(false, local, remote) == local,
        local is None ==> super::keyframes_used(false, local, remote) == remote,
{
}


/// A session begins with a pass from the first segment on, a transcoder that runs, and what the
/// request says. Its playlist is that of segments of six seconds, whose starts are kept where
/// they are cut at keyframes.
pub proof fn sessions_begin_as_requested(
    s: super::SessionView,
    id: Seq<char>,
    req: CreateSessionRequest,
    output_dir: Seq<char>,
    keyframes: Option<Seq<u128>>,
)
    requires
        super::started(s, id, req, output_dir, keyframes),
    ensures
        s.id == id && s.file_id == req.file_id@ && s.output_dir == output_dir,
        s.audio_stream_index == req.audio_stream_index && s.duration_ns == req.duration_ns,
        s.state == SessionState::Running && s.has_worker && s.has_channel,
        !s.cancelled && !s.paused && !s.ffmpeg_exited && s.ffmpeg_start_segment == 0,
        s.passes.len() == 1,
        s.passes[0] == (Pass {
            start_segment: 0,
            stopped: false,
            segment_count: 0,
            download_position: 0,
            last_completed: -1i64,
        }),
        s.transcode_video == req.transcode_video,
        s.segment_type == if req.transcode_video {
            HlsSegmentType::Fmp4
        } else {
            HlsSegmentType::Mpegts
        },
        s.vod_playlist == playlist::playlist_text(
            playlist::vod_segments(req.duration_ns as int, 6_000_000_000, keyframes),
            6_000_000_000,
            s.segment_type,
        ),
        keyframes is None ==> s.segment_start_times.len() == 0,
        keyframes is Some ==> {
            let segs = playlist::vod_segments(req.duration_ns as int, 6_000_000_000, keyframes);
            &&& s.segment_start_times.len() == segs.len()
            &&& forall|i: int|
                0 <= i < segs.len() ==> #[trigger] s.segment_start_times[i] == segs[i].0
        },
        s.user_id == text::opt_string(req.user_id),
        s.video_item_id == text::opt_string(req.video_item_id),
        s.episode_id == text::opt_string(req.episode_id),
{
    let times = s.segment_start_times.map_values(|t: u128| t as int);
    assert(times.len() == s.segment_start_times.len());
    if keyframes is Some {
        let segs = playlist::vod_segments(req.duration_ns as int, 6_000_000_000, keyframes);
        assert forall|i: int| 0 <= i < segs.len() implies #[trigger] s.segment_start_times[i]
            == segs[i].0 by {
            assert(times[i] == playlist::starts(segs)[i]);
        }
    }
}

/// A session that is stopped ends its pass, is cancelled, and lets go of its worker; one that is
/// let go of is cancelled and ends its pass too. All else of it stays.
pub proof fn stopped_sessions_let_go(s: super::SessionView)
    requires
        s.sound(),
    ensures
        ({
            let over = super::stopped_for_good(s);
            let left = super::abandoned(s);
            &&& over.state == SessionState::Stopped && left.state == s.state
            &&& over.cancelled && left.cancelled && !over.paused && !left.paused
            &&& !over.has_channel && !left.has_channel
            &&& !over.has_worker && left.has_worker == s.has_worker
            &&& over.passes.len() == s.passes.len() && left.passes == over.passes
            &&& over.passes[s.passes.len() - 1] == (Pass {
                stopped: true,
                ..s.passes[s.passes.len() - 1]
            })
            &&& over.id == s.id && over.file_id == s.file_id && over.output_dir == s.output_dir
            &&& left.id == s.id && left.file_id == s.file_id && left.output_dir == s.output_dir
            &&& over.ffmpeg_start_segment == s.ffmpeg_start_segment
            &&& over.ffmpeg_exited == s.ffmpeg_exited
        }),
{
}

/// A session writes to a directory of its own, named by its ID, below that of all sessions.
pub proof fn sessions_write_to_their_own_directory(temp_dir: Seq<char>, id: Seq<char>)
    ensures
        super::session_dir(temp_dir, id).dir == temp_dir,
        super::session_dir(temp_dir, id).name == "tokimo-hls/"@ + id,
{
}

}
