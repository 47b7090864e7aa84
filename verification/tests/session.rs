use tokimo_package_hls::ffmpeg::{EncodingAnswers, HlsSegmentType};
use tokimo_package_hls::hw_detect::{HwCapabilities, Platform};
use tokimo_package_hls::manager::HlsSessionManager;
use tokimo_package_hls::pipeline::SourceDecoders;
use tokimo_package_hls::segments::FilePath;
use tokimo_package_hls::session::{
    session_output_dir, wants_local_index, wants_remote_index, HlsSession, SegmentPlan, SegmentSight, ThrottleStep,
    WaitMoment, WaitStep, WatchEvent, WatchStep,
};
use tokimo_package_hls::types::{
    default_tonemap_algorithm, default_tonemap_mode, default_tonemap_peak, default_tonemap_range, default_true,
    CreateSessionRequest, RemoteInput, SessionState, TonemapOptions,
};

const S: u128 = 1_000_000_000;

fn software() -> HwCapabilities {
    HwCapabilities {
        has_nvenc: false,
        has_nvenc_hevc: false,
        has_cuvid: false,
        has_cuda_full: false,
        has_bwdif_cuda: false,
        cuvid_hw_codecs: vec![],
        has_vaapi: false,
        has_vaapi_full: false,
        has_vaapi_hevc: false,
        has_qsv: false,
        has_qsv_full: false,
        has_qsv_hevc: false,
        has_amf: false,
        has_amf_hevc: false,
        has_rkmpp: false,
        has_rkmpp_hevc: false,
        has_videotoolbox: false,
        has_videotoolbox_full: false,
        has_videotoolbox_hevc: false,
        has_videotoolbox_tonemap: false,
        has_tonemap: false,
        has_tonemapx: false,
        has_zscale: false,
        has_bwdif: false,
        has_libx265: false,
    }
}

fn answers() -> EncodingAnswers {
    EncodingAnswers {
        audio_needs_transcode: false,
        audio_bitrate_kbps: 256,
        out_channels: 2,
        out_bitrate_kbps: 4000,
        target_encoder: None,
        aac_encoder: None,
        decoders: SourceDecoders { cuvid: false, videotoolbox: false, vaapi: false, qsv: false, amf: false },
        segment_frames: None,
    }
}

fn request(duration: u128, video: bool) -> CreateSessionRequest {
    CreateSessionRequest {
        file_id: "file".to_string(),
        local_path: Some("/m/a.MKV".to_string()),
        duration_ns: duration,
        transcode_video: video,
        user_id: Some("u".to_string()),
        ..Default::default()
    }
}

fn started(id: &str, req: &CreateSessionRequest, local: Option<Vec<u128>>, remote: Option<Vec<u128>>) -> HlsSession {
    let dir = format!("/tmp/tokimo-hls/{id}");
    let (s, opts) =
        HlsSession::start(id, req, &dir, Ok(()), local, remote, &software(), Platform::Linux, &answers()).unwrap();
    assert_eq!(opts.output, format!("{dir}/playlist.m3u8"));
    s
}

fn parts(path: &FilePath) -> (&str, &str) {
    (&path.dir, &path.name)
}

fn names(from: u32, count: u32, ext: &str) -> Vec<String> {
    (from..from + count).map(|n| format!("{n:05}.{ext}")).collect()
}

fn wait(plan: SegmentPlan) -> tokimo_package_hls::session::SegmentWaitHandle {
    match plan {
        SegmentPlan::Wait(h) => h,
        other => panic!("{other:?}"),
    }
}

#[test]
fn a_session_starts_with_its_playlist() {
    let req = request(20 * S, false);
    let s = started("x", &req, Some(vec![0, 7 * S]), Some(vec![S]));
    assert_eq!(s.output_dir, "/tmp/tokimo-hls/x");
    assert_eq!(s.state, SessionState::Running);
    assert_eq!(s.segment_type, HlsSegmentType::Mpegts);
    assert_eq!(s.segment_start_times, vec![0, 7 * S]);
    assert!(s.vod_playlist.contains("#EXTINF:7.000000,\n00000.ts\n#EXTINF:13.000000,\n00001.ts\n"));
    assert!(!s.is_stopped() && !s.paused && !s.ffmpeg_exited && !s.cancelled);
    // The remote source counts where the local file has no index.
    let s = started("x", &req, None, Some(vec![0, 5 * S]));
    assert_eq!(s.segment_start_times, vec![0, 5 * S]);
    // Segments of equal length have no starts to seek by.
    let s = started("x", &req, None, None);
    assert!(s.segment_start_times.is_empty());
    let s = started("x", &request(20 * S, true), Some(vec![0, 7 * S]), None);
    assert!(s.segment_start_times.is_empty());
    assert_eq!(s.segment_type, HlsSegmentType::Fmp4);
    assert_eq!(parts(&session_output_dir("/tmp/", "y")), ("/tmp/", "tokimo-hls/y"));
}

#[test]
fn a_session_without_a_directory_does_not_start() {
    let failed = Err("disk full".to_string());
    let r = HlsSession::start("x", &request(S, false), "/tmp", failed, None, None, &software(), Platform::Linux, &answers());
    assert_eq!(r.unwrap_err(), "Failed to create HLS temp dir: disk full");
}

#[test]
fn indexes_are_looked_for_in_matroska_files_that_are_copied() {
    let mut req = request(S, false);
    assert!(wants_local_index(&req));
    assert!(!wants_remote_index(&req, false));
    req.direct_input = Some(RemoteInput { filename_hint: Some("b.mkv".to_string()) });
    assert!(wants_remote_index(&req, false));
    assert!(!wants_remote_index(&req, true));
    req.direct_input = Some(RemoteInput { filename_hint: None });
    assert!(!wants_remote_index(&req, false));
    req.local_path = Some("/m/a.mp4".to_string());
    assert!(!wants_local_index(&req));
    req = request(S, true);
    req.direct_input = Some(RemoteInput { filename_hint: Some("b.mkv".to_string()) });
    assert!(!wants_local_index(&req));
    assert!(!wants_remote_index(&req, false));
}

#[test]
fn segments_near_the_transcoder_are_waited_for() {
    let mut s = started("x", &request(600 * S, false), None, None);
    let h = wait(s.prepare_segment_wait("00004.ts", false));
    assert_eq!(parts(&h.path), ("/tmp/tokimo-hls/x", "00004.ts"));
    assert_eq!(h.next_path.as_ref().map(parts), Some(("/tmp/tokimo-hls/x", "00005.ts")));
    assert_eq!(h.requested_segment, Some(4));
    assert_eq!(h.pass, 0);
    assert_eq!(s.passes[0].download_position, 4);
    let h = wait(s.prepare_segment_wait("init.mp4", false));
    assert_eq!(h.next_path.as_ref().map(parts), Some(("/tmp/tokimo-hls/x", "00000.ts")));
    assert_eq!(h.requested_segment, None);
    // What is there is never looked for elsewhere.
    let h = wait(s.prepare_segment_wait("00099.ts", true));
    assert_eq!(h.requested_segment, Some(99));
    assert_eq!(s.passes[0].download_position, 99);
    let h = wait(s.prepare_segment_wait("other.txt", false));
    assert!(h.next_path.is_none());
}

#[test]
fn far_segments_start_a_new_pass() {
    let mut s = started("x", &request(600 * S, false), None, None);
    let first = wait(s.prepare_segment_wait("00000.ts", false));
    let order = match s.prepare_segment_wait("00005.ts", false) {
        SegmentPlan::Seek(o) => o,
        other => panic!("{other:?}"),
    };
    assert_eq!(order.target_segment, 5);
    // Copied video without an index is sought one segment early.
    assert_eq!(order.seek_ns, 24 * S);
    assert!(s.is_stopped());
    assert_eq!(s.ffmpeg_start_segment, 5);
    assert!(s.seek_sent(true).is_ok());
    assert!(!s.is_stopped());
    assert_eq!(s.current_pass(), 1);
    assert_eq!(s.passes[1].download_position, 5);
    let h = s.wait_handle("00005.ts");
    assert_eq!(h.pass, 1);
    wait(s.prepare_segment_wait("00005.ts", false));
    let seen = s.sight(&first, true, false);
    assert!(seen.stopped);
    assert_eq!(first.wait(WaitMoment::Look, &seen), WaitStep::GiveUp);
    // Backwards, and after the end of the pass.
    assert!(matches!(s.prepare_segment_wait("00004.ts", false), SegmentPlan::Seek(_)));
    assert!(s.seek_sent(true).is_ok());
    s.pass_finished(false);
    assert!(!s.ffmpeg_exited);
    s.pass_finished(true);
    assert!(matches!(s.prepare_segment_wait("00005.ts", false), SegmentPlan::Seek(_)));
    assert!(!s.ffmpeg_exited);
}

#[test]
fn passes_start_at_the_right_place() {
    let place = |s: &mut HlsSession, n: u32| s.seek_restart(n).seek_ns;
    let mut copy = started("x", &request(600 * S, false), None, None);
    assert_eq!(place(&mut copy, 0), 0);
    assert_eq!(place(&mut copy, 1), 0);
    assert_eq!(place(&mut copy, 10), 54 * S);
    assert_eq!(place(&mut copy, 1000), 595 * S);
    let mut encode = started("x", &request(600 * S, true), None, None);
    assert_eq!(place(&mut encode, 10), 60 * S);
    let mut indexed = started("x", &request(600 * S, false), Some(vec![0, 7 * S, 13 * S]), None);
    assert_eq!(indexed.segment_start_times, vec![0, 7 * S, 13 * S]);
    assert_eq!(place(&mut indexed, 2), 13 * S + 100_000_000);
    assert_eq!(place(&mut indexed, 50), 300 * S + 100_000_000);
    assert_eq!(place(&mut indexed, 5000), 595 * S);
    let mut short = started("x", &request(3 * S, true), None, None);
    assert_eq!(place(&mut short, 2), 0);
}

#[test]
fn orders_that_do_not_arrive_are_reported() {
    let mut s = started("abc", &request(600 * S, false), None, None);
    s.seek_restart(50);
    assert_eq!(s.seek_sent(false).unwrap_err(), "[HLS:abc] worker thread has exited");
    assert!(s.is_stopped());
    assert!(matches!(s.prepare_segment_wait("00050.ts", false), SegmentPlan::Gone));
    let mut s = started("abc", &request(600 * S, false), None, None);
    assert!(s.stop());
    s.seek_restart(50);
    assert_eq!(s.seek_sent(true).unwrap_err(), "[HLS:abc] no worker thread available");
}

#[test]
fn readiness_of_segments() {
    let mut s = started("x", &request(600 * S, false), None, None);
    let h = wait(s.prepare_segment_wait("00002.ts", false));
    let none = SegmentSight { stopped: false, ffmpeg_exited: false, last_completed: -1, exists: false, next_exists: false };
    assert!(!h.is_ready(&none));
    assert!(!h.is_ready(&SegmentSight { next_exists: true, ..none }));
    let there = SegmentSight { exists: true, ..none };
    assert!(!h.is_ready(&there));
    assert!(h.is_ready(&SegmentSight { next_exists: true, ..there }));
    assert!(h.is_ready(&SegmentSight { ffmpeg_exited: true, ..there }));
    assert!(h.is_ready(&SegmentSight { last_completed: 2, ..there }));
    assert!(!h.is_ready(&SegmentSight { last_completed: 1, ..there }));

    assert_eq!(h.wait(WaitMoment::Look, &none), WaitStep::Wait);
    assert_eq!(h.wait(WaitMoment::Late, &none), WaitStep::GiveUp);
    assert_eq!(h.wait(WaitMoment::Notified, &none), WaitStep::Again);
    assert_eq!(h.wait(WaitMoment::TimedOut, &there), WaitStep::GiveUp);
    let ready = SegmentSight { next_exists: true, ..there };
    for moment in [WaitMoment::Look, WaitMoment::Late, WaitMoment::Notified, WaitMoment::TimedOut] {
        assert_eq!(h.wait(moment, &ready), WaitStep::Serve);
        assert_eq!(h.wait(moment, &SegmentSight { ffmpeg_exited: true, ..none }), WaitStep::GiveUp);
    }
    let stopped = SegmentSight { stopped: true, ..ready };
    assert_eq!(h.wait(WaitMoment::Look, &stopped), WaitStep::GiveUp);
    assert_eq!(h.wait(WaitMoment::Late, &stopped), WaitStep::GiveUp);
    assert_eq!(h.wait(WaitMoment::Notified, &stopped), WaitStep::Serve);
    let plain = wait(s.prepare_segment_wait("notes.txt", true));
    assert!(plain.is_ready(&there));
}

#[test]
fn the_output_is_watched() {
    let mut s = started("x", &request(600 * S, false), None, None);
    assert_eq!(s.watch_segments(0, WatchEvent::Created, &[], &names(0, 2, "ts")), WatchStep::Notify);
    assert_eq!(s.passes[0].segment_count, 2);
    assert_eq!(s.watch_segments(0, WatchEvent::Created, &[], &names(0, 2, "ts")), WatchStep::GoOn);
    assert_eq!(s.watch_segments(0, WatchEvent::Other, &[], &names(0, 3, "ts")), WatchStep::GoOn);
    assert_eq!(s.passes[0].segment_count, 2);
    let closed = vec!["00001.ts".to_string(), "00000.ts".to_string(), "x".to_string()];
    assert_eq!(s.watch_segments(0, WatchEvent::Closed, &closed, &names(0, 2, "ts")), WatchStep::Notify);
    assert_eq!(s.passes[0].last_completed, 1);
    assert_eq!(s.watch_segments(0, WatchEvent::Closed, &closed[1..2], &names(0, 2, "ts")), WatchStep::Notify);
    assert_eq!(s.passes[0].last_completed, 1);
    assert_eq!(s.watch_segments(0, WatchEvent::Quiet, &[], &names(0, 4, "ts")), WatchStep::Notify);
    assert_eq!(s.passes[0].segment_count, 4);
    assert_eq!(s.watch_segments_poll(0, &names(0, 4, "ts")), WatchStep::GoOn);
    assert_eq!(s.watch_segments_poll(0, &names(0, 5, "ts")), WatchStep::Notify);
    // Files behind a gap do not count for a pass that has just begun.
    s.seek_restart(20);
    s.seek_sent(true).unwrap();
    assert!(s.watch_ends(0) && !s.watch_ends(1));
    // What the watcher of an ended pass was waiting for is still taken note of.
    assert_eq!(s.watch_segments(0, WatchEvent::Quiet, &[], &names(0, 9, "ts")), WatchStep::Notify);
    assert_eq!(s.passes[0].segment_count, 9);
    let closed = ["00008.ts".to_string()];
    assert_eq!(s.watch_segments(0, WatchEvent::Closed, &closed, &names(0, 9, "ts")), WatchStep::Notify);
    assert_eq!(s.passes[0].last_completed, 8);
    assert_eq!(s.watch_segments_poll(0, &names(0, 9, "ts")), WatchStep::GoOn);
    assert!(s.watch_ends(0) && s.passes[0].stopped);
    assert_eq!(s.watch_segments_poll(1, &names(21, 9, "ts")), WatchStep::GoOn);
    assert_eq!(s.passes[1].segment_count, 0);
    assert_eq!(s.watch_segments_poll(1, &names(20, 9, "ts")), WatchStep::Notify);
    assert_eq!(s.passes[1].segment_count, 9);
}

#[test]
fn the_transcoder_is_throttled() {
    let mut s = started("x", &request(600 * S, false), None, None);
    s.watch_segments_poll(0, &names(0, 10, "ts"));
    assert_eq!(s.throttle(0), ThrottleStep::Keep);
    s.watch_segments_poll(0, &names(0, 11, "ts"));
    assert_eq!(s.throttle(0), ThrottleStep::Pause);
    assert!(s.paused);
    assert_eq!(s.throttle(0), ThrottleStep::Keep);
    // A client that comes near is not held up until the next look.
    s.prepare_segment_wait("00000.ts", true);
    assert!(s.paused);
    s.prepare_segment_wait("00001.ts", true);
    assert!(!s.paused);
    assert_eq!(s.throttle(0), ThrottleStep::Keep);
    s.watch_segments_poll(0, &names(0, 30, "ts"));
    assert_eq!(s.throttle(0), ThrottleStep::Pause);
    s.passes[0].download_position = 25;
    assert_eq!(s.throttle(0), ThrottleStep::Resume);
    s.seek_restart(40);
    assert_eq!(s.throttle(0), ThrottleStep::Stop);
}

#[test]
fn a_session_stops_once() {
    let mut s = started("x", &request(600 * S, false), None, None);
    s.paused = true;
    assert!(s.stop());
    assert!(s.is_stopped() && s.cancelled && !s.paused && !s.has_worker && !s.has_channel);
    assert_eq!(s.state, SessionState::Stopped);
    assert!(!s.stop());
    assert!(matches!(s.prepare_segment_wait("00000.ts", true), SegmentPlan::Gone));
    let mut s = started("x", &request(600 * S, false), None, None);
    assert!(s.abandon());
    assert!(!s.abandon());
    assert!(s.is_stopped() && s.cancelled);
    assert_eq!(s.state, SessionState::Running);
}

#[test]
fn states_follow_the_worker() {
    let mut s = started("x", &request(600 * S, false), None, None);
    s.check_ffmpeg_status(true);
    assert_eq!(s.state, SessionState::Running);
    s.worker_exited();
    s.check_ffmpeg_status(false);
    assert_eq!(s.state, SessionState::Running);
    s.check_ffmpeg_status(true);
    assert_eq!(s.state, SessionState::Finished);
    s.cancelled = true;
    s.check_ffmpeg_status(true);
    assert_eq!(s.state, SessionState::Stopped);
}

#[test]
fn snapshots_tell_the_position() {
    let mut s = started("x", &request(600 * S, false), None, None);
    s.prepare_segment_wait("00003.ts", false);
    let p = s.playback_snapshot();
    assert_eq!(p.session_id, "x");
    assert_eq!(p.file_id, "file");
    assert_eq!(p.user_id.as_deref(), Some("u"));
    assert_eq!(p.video_item_id, None);
    assert_eq!(p.episode_id, None);
    assert_eq!(p.duration_ns, 600 * S);
    assert_eq!(p.position_secs, 18);
    assert_eq!(p.client_name, "HLS Server");
}

fn entered(m: &mut HlsSessionManager, file: &str, now: u128) -> String {
    let (id, _) = m.begin_session(file);
    let mut req = request(600 * S, false);
    req.file_id = file.to_string();
    let s = started(&id, &req, None, None);
    let info = m.create_session(id.clone(), file, s, now, "http://h");
    assert_eq!(info.session_id, id);
    assert_eq!(info.playlist_url, format!("http://h/api/hls/{id}/playlist.m3u8"));
    id
}

#[test]
fn sessions_have_random_names() {
    let mut m = HlsSessionManager::new();
    let (a, _) = m.begin_session("f");
    let (b, _) = m.begin_session("f");
    assert_ne!(a, b);
    for id in [a, b] {
        let parsed = uuid::Uuid::parse_str(&id).unwrap();
        assert_eq!(parsed.get_version_num(), 4);
        assert_eq!(parsed.to_string(), id);
    }
}

#[test]
fn a_file_has_one_session() {
    let mut m = HlsSessionManager::default();
    let a = entered(&mut m, "f", 0);
    let other = entered(&mut m, "g", 0);
    m.get_session(&a, 1).unwrap().prepare_segment_wait("00002.ts", false);
    let (b, gone) = m.begin_session("f");
    assert_eq!(gone.len(), 1);
    assert_eq!(gone[0].id, a);
    assert!(gone[0].was_running);
    assert_eq!(gone[0].snapshot.position_secs, 12);
    assert!(m.get_session(&a, 2).is_none());
    m.create_session(b.clone(), "f", started(&b, &request(S, true), None, None), 2, "");
    assert_eq!(m.get_file_id(&b).as_deref(), Some("f"));
    assert_eq!(m.get_file_id(&other).as_deref(), Some("g"));
    assert_eq!(m.get_file_id(&a), None);
    assert_eq!(m.playback_snapshots().len(), 2);
}

#[test]
fn idle_sessions_are_stopped() {
    let mut m = HlsSessionManager::new();
    let a = entered(&mut m, "f", 0);
    let b = entered(&mut m, "g", 0);
    assert!(m.cleanup_idle_sessions(60 * S).is_empty());
    assert!(m.ping_session(&b, 60 * S));
    assert!(!m.ping_session("nobody", 60 * S));
    let gone = m.cleanup_idle_sessions(60 * S + 1);
    assert_eq!(gone.len(), 1);
    assert_eq!(gone[0].id, a);
    assert!(m.get_session(&b, 100 * S).is_some());
    assert!(m.cleanup_idle_sessions(160 * S).is_empty());
    assert_eq!(m.cleanup_idle_sessions(161 * S).len(), 1);
    assert!(m.playback_snapshots().is_empty());
}

#[test]
fn sessions_are_stopped_by_name_and_all_at_once() {
    let mut m = HlsSessionManager::new();
    let a = entered(&mut m, "f", 0);
    entered(&mut m, "g", 0);
    entered(&mut m, "h", 0);
    let e = m.stop_session(&a).unwrap();
    assert_eq!(e.id, a);
    assert_eq!(e.snapshot.file_id, "f");
    assert!(m.stop_session(&a).is_none());
    assert_eq!(m.stop_session_for_file("g").len(), 1);
    assert!(m.stop_session_for_file("g").is_empty());
    assert_eq!(m.stop_all().len(), 1);
    assert!(m.stop_all().is_empty());
}

#[test]
fn a_session_with_the_same_name_is_replaced() {
    let mut m = HlsSessionManager::new();
    m.create_session("n".to_string(), "f", started("n", &request(S, false), None, None), 0, "");
    m.create_session("n".to_string(), "g", started("n", &request(S, false), None, None), 0, "");
    assert_eq!(m.get_file_id("n").as_deref(), Some("g"));
    assert_eq!(m.stop_all().len(), 1);
}

#[test]
fn defaults_of_requests() {
    assert_eq!(default_tonemap_algorithm(), "bt2390");
    assert_eq!(default_tonemap_mode(), "auto");
    assert_eq!(default_tonemap_range(), "auto");
    let peak = default_tonemap_peak();
    assert_eq!(f64::from_bits(peak.bits), 100.0);
    assert_eq!(peak.text, "100");
    assert!(default_true());
    let tm = TonemapOptions::default();
    assert_eq!(tm.algorithm, "");
    assert!(!tm.peak.nonzero());
    assert!(CreateSessionRequest::default().client_supports_hevc);
}
