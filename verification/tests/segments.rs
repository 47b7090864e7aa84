use tokimo_package_hls::number::{decimal_text, hexadecimal_text, padded_text, parse_i32, parse_i64, parse_u32, signed_text};
use tokimo_package_hls::segments::{
    count_segments_from, delete_segments_from, next_segment_path, parse_segment_number, segment_name_text,
};

fn strings(list: &[&str]) -> Vec<String> {
    list.iter().map(|s| s.to_string()).collect()
}

#[test]
fn numbers_are_written_and_read() {
    assert_eq!(decimal_text(0), "0");
    assert_eq!(decimal_text(u128::MAX), u128::MAX.to_string());
    assert_eq!(signed_text(i128::MIN), i128::MIN.to_string());
    assert_eq!(signed_text(-7), "-7");
    assert_eq!(padded_text(42, 5), "00042");
    assert_eq!(padded_text(1_234_567, 5), "1234567");
    assert_eq!(hexadecimal_text(0x1C53_BB6B), "1C53BB6B");
    assert_eq!(hexadecimal_text(0), "0");
    for s in ["0", "+7", "-7", "", "+", "-", "007", "9223372036854775807", "-9223372036854775808",
        "9223372036854775808", "4294967295", "4294967296", "2147483648", "1 ", "a", "1_0", "\u{661}",
        "99999999999999999999999999999999999999999999"]
    {
        assert_eq!(parse_i64(s), s.parse().ok(), "{s}");
        assert_eq!(parse_i32(s), s.parse().ok(), "{s}");
        assert_eq!(parse_u32(s), s.parse().ok(), "{s}");
    }
}

#[test]
fn segment_names_and_numbers() {
    assert_eq!(segment_name_text(12, "ts"), "00012.ts");
    assert_eq!(segment_name_text(123_456, "tokimo"), "123456.tokimo");
    assert_eq!(parse_segment_number("00012.ts", "ts"), Some(12));
    assert_eq!(parse_segment_number("7.ts", "ts"), Some(7));
    assert_eq!(parse_segment_number("00012.ts", "tokimo"), None);
    assert_eq!(parse_segment_number("init.mp4", "ts"), None);
    assert_eq!(parse_segment_number(".ts", "ts"), None);
    assert_eq!(parse_segment_number("4294967296.ts", "ts"), None);
    for n in [0u32, 9, 99_999, 100_000, u32::MAX] {
        assert_eq!(parse_segment_number(&segment_name_text(n as u64, "ts"), "ts"), Some(n));
    }
}

#[test]
fn the_next_segment() {
    let next = next_segment_path("01560.ts", "/tmp/x", "ts").unwrap();
    assert_eq!((next.dir.as_str(), next.name.as_str()), ("/tmp/x", "01561.ts"));
    let next = next_segment_path("99999.ts", "C:\\x", "ts").unwrap();
    assert_eq!((next.dir.as_str(), next.name.as_str()), ("C:\\x", "100000.ts"));
    assert!(next_segment_path("init.mp4", "/tmp/x", "ts").is_none());
}

#[test]
fn runs_end_at_gaps() {
    let names = strings(&["00003.ts", "00004.ts", "00006.ts", "init.mp4", "playlist.m3u8"]);
    assert_eq!(count_segments_from(&names, 3, "ts"), 2);
    assert_eq!(count_segments_from(&names, 5, "ts"), 0);
    assert_eq!(count_segments_from(&names, 6, "ts"), 1);
    assert_eq!(count_segments_from(&names, 3, "tokimo"), 0);
    assert_eq!(count_segments_from(&[], 0, "ts"), 0);
}

#[test]
fn stale_segments_are_deleted() {
    let names = strings(&["00003.ts", "00010.ts", "00004.ts", "init.mp4", "00009.tokimo"]);
    let gone = delete_segments_from(&names, 4, "ts");
    assert_eq!(gone, strings(&["00010.ts", "00004.ts"]));
    let left: Vec<String> = names.into_iter().filter(|n| !gone.contains(n)).collect();
    assert_eq!(count_segments_from(&left, 4, "ts"), 0);
}
