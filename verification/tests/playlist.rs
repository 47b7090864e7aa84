use tokimo_package_hls::playlist::{compute_keyframe_segments, generate_vod_playlist, HlsSegmentType};

const S: u128 = 1_000_000_000;

#[test]
fn playlist_of_equal_segments_in_full() {
    let (pl, starts) = generate_vod_playlist(14 * S + 500_500, 6, HlsSegmentType::Fmp4, None);
    assert_eq!(
        pl,
        "#EXTM3U\n#EXT-X-VERSION:7\n#EXT-X-TARGETDURATION:6\n#EXT-X-MEDIA-SEQUENCE:0\n\
         #EXT-X-PLAYLIST-TYPE:VOD\n#EXT-X-MAP:URI=\"init.mp4\"\n\
         #EXTINF:6.000000,\n00000.tokimo\n#EXTINF:6.000000,\n00001.tokimo\n#EXTINF:2.000500,\n00002.tokimo\n\
         #EXT-X-ENDLIST\n"
    );
    assert_eq!(starts, vec![0, 6 * S, 12 * S]);
}

#[test]
fn durations_are_rounded_to_the_even_microsecond() {
    let shown = |ns: u128| {
        let (pl, _) = generate_vod_playlist(ns, 6, HlsSegmentType::Mpegts, None);
        pl.lines().find(|l| l.starts_with("#EXTINF:")).unwrap().to_string()
    };
    assert_eq!(shown(500), "#EXTINF:0.000000,");
    assert_eq!(shown(501), "#EXTINF:0.000001,");
    assert_eq!(shown(1_500), "#EXTINF:0.000002,");
    assert_eq!(shown(2_500), "#EXTINF:0.000002,");
    assert_eq!(shown(999_999_999), "#EXTINF:1.000000,");
}

#[test]
fn whole_multiples_have_no_rest() {
    let (pl, starts) = generate_vod_playlist(12 * S, 6, HlsSegmentType::Mpegts, None);
    assert_eq!(starts, vec![0, 6 * S]);
    assert!(pl.contains("#EXT-X-TARGETDURATION:6\n"));
    let (pl, starts) = generate_vod_playlist(0, 6, HlsSegmentType::Mpegts, None);
    assert!(starts.is_empty());
    assert_eq!(
        pl,
        "#EXTM3U\n#EXT-X-VERSION:3\n#EXT-X-TARGETDURATION:6\n#EXT-X-MEDIA-SEQUENCE:0\n\
         #EXT-X-PLAYLIST-TYPE:VOD\n#EXT-X-ENDLIST\n"
    );
}

#[test]
fn keyframe_segments_tile_the_file() {
    let kfs = [0, 2 * S, 11 * S, 11 * S + 1, 30 * S, 31 * S];
    let duration = 40 * S;
    let segs = compute_keyframe_segments(&kfs, 6 * S, duration);
    let starts: Vec<u128> = segs.iter().map(|s| s.start).collect();
    // At 6 s the keyframe at 2 s is nearest; at 12 s that just behind 11 s; at 18 s the next.
    assert_eq!(starts, vec![0, 2 * S, 11 * S + 1, 30 * S, 31 * S]);
    let mut at = 0;
    for s in &segs {
        assert_eq!(s.start, at);
        assert!(s.duration > 0);
        at += s.duration;
    }
    assert_eq!(at, duration);
    let (pl, _) = generate_vod_playlist(duration, 6, HlsSegmentType::Mpegts, Some(&kfs));
    assert!(pl.contains("#EXT-X-TARGETDURATION:19\n"));
}

#[test]
fn equally_near_keyframes_leave_the_first() {
    let segs = compute_keyframe_segments(&[7 * S, 5 * S], 6 * S, 10 * S);
    assert_eq!(segs.len(), 2);
    assert_eq!(segs[1].start, 7 * S);
    let segs = compute_keyframe_segments(&[5 * S, 7 * S], 6 * S, 10 * S);
    assert_eq!(segs[1].start, 5 * S);
}

#[test]
fn keyframes_outside_the_file_make_no_cuts() {
    let segs = compute_keyframe_segments(&[0, 60 * S], 6 * S, 20 * S);
    assert_eq!(segs.len(), 1);
    assert_eq!(segs[0].duration, 20 * S);
    assert!(compute_keyframe_segments(&[S], 6 * S, 0).is_empty());
}

#[test]
fn extensions() {
    assert_eq!(HlsSegmentType::Fmp4.extension(), "tokimo");
    assert_eq!(HlsSegmentType::Mpegts.extension(), "ts");
}
