use subtitle_sync::{compute_ratio, transform, update_line, Ratio, SyncError, TimeCode, TimeRange};

fn ratio(num: u32, den: u32) -> Ratio {
    Ratio::new(num, den).unwrap()
}

fn tc(h: u32, m: u32, s: u32, ms: u32) -> TimeCode {
    TimeCode { h, m, s, ms }
}

#[test]
fn reference_ratio() {
    let r = compute_ratio("00:40:50,652", "00:43:50,200").unwrap();
    assert_eq!(r.num(), 2630200);
    assert_eq!(r.den(), 2450652);
    let value = r.num() as f64 / r.den() as f64;
    assert!((value - 1.0732654).abs() < 1e-6);
}

#[test]
fn ratio_from_zero_reference_fails() {
    assert_eq!(compute_ratio("00:00:00,000", "00:00:01,000").unwrap_err(), SyncError::DivisionByZero);
    assert_eq!(Ratio::new(1, 0).unwrap_err(), SyncError::DivisionByZero);
}

#[test]
fn ratio_from_malformed_reference_fails() {
    assert_eq!(compute_ratio("00:4x:50,652", "00:43:50,200").unwrap_err(), SyncError::MalformedTimestamp);
    assert_eq!(compute_ratio("00:40:50,652", "00:43").unwrap_err(), SyncError::MalformedTimestamp);
}

#[test]
fn timespan_rescale_identity() {
    let text = "00:40:50,652 --> 00:40:53,000";
    let range = TimeRange::from_str(text).unwrap();
    assert_eq!(range.beginning, tc(0, 40, 50, 652));
    assert_eq!(range.end, tc(0, 40, 53, 0));
    assert_eq!(range.sync(ratio(1, 1)).unwrap(), text);
    assert_eq!(update_line(text.to_string(), ratio(1, 1)).unwrap(), format!("{}\n", text));
}

#[test]
fn single_timestamp_doubled() {
    assert_eq!(tc(0, 0, 10, 0).sync(ratio(2, 1)).unwrap(), "00:00:20,000");
}

#[test]
fn malformed_cue_line_fails() {
    let line = "0a:40:50,652 --> 00:40:53,000";
    assert_eq!(update_line(line.to_string(), ratio(1, 1)).unwrap_err(), SyncError::MalformedTimestamp);
    let lines = vec!["1".to_string(), line.to_string(), "Hello".to_string()];
    assert_eq!(transform(&lines, ratio(1, 1)).unwrap_err(), SyncError::MalformedTimestamp);
}

#[test]
fn plain_line_kept() {
    assert_eq!(update_line("Hello, world!".to_string(), ratio(3, 2)).unwrap(), "Hello, world!\n");
}

#[test]
fn short_line_with_arrow_kept() {
    assert_eq!(update_line("a --> b".to_string(), ratio(3, 2)).unwrap(), "a --> b\n");
}

#[test]
fn long_line_without_arrow_kept() {
    let line = "00:00:01,000 -> 00:00:02,000 and more";
    assert_eq!(update_line(line.to_string(), ratio(2, 1)).unwrap(), format!("{}\n", line));
}

#[test]
fn empty_line_kept() {
    assert_eq!(update_line(String::new(), ratio(2, 1)).unwrap(), "\n");
}

#[test]
fn cue_rest_of_line_kept() {
    let line = "00:00:01,000 --> 00:00:02,000 X1 é";
    assert_eq!(
        update_line(line.to_string(), ratio(2, 1)).unwrap(),
        "00:00:02,000 --> 00:00:04,000 X1 é\n"
    );
}

#[test]
fn cue_read_at_fixed_byte_places() {
    // The five bytes between the instants are not looked at, and the arrow
    // may stand later in the line.
    let line = "00:00:01,000 é> 00:00:02,000 -->";
    assert_eq!(
        update_line(line.to_string(), ratio(2, 1)).unwrap(),
        "00:00:02,000 --> 00:00:04,000 -->\n"
    );
}

#[test]
fn round_trip_parse_format() {
    for s in ["00:00:00,000", "01:02:03,004", "99:59:59,999", "12:34:56,789", "00:40:50,652"] {
        assert_eq!(TimeCode::from_str(s).unwrap().to_string(), s);
    }
}

#[test]
fn parse_fields() {
    assert_eq!(TimeCode::from_str("01:02:03,004").unwrap(), tc(1, 2, 3, 4));
    // separators are not checked, and text past twelve bytes is ignored
    assert_eq!(TimeCode::from_str("01x02y03z004 tail").unwrap(), tc(1, 2, 3, 4));
}

#[test]
fn parse_rejects_bad_digits_and_short_text() {
    assert_eq!(TimeCode::from_str("01:02:03").unwrap_err(), SyncError::MalformedTimestamp);
    assert_eq!(TimeCode::from_str("").unwrap_err(), SyncError::MalformedTimestamp);
    assert_eq!(TimeCode::from_str("01:02:03,00a").unwrap_err(), SyncError::MalformedTimestamp);
    assert_eq!(TimeCode::from_str("-1:02:03,004").unwrap_err(), SyncError::MalformedTimestamp);
    assert_eq!(TimeRange::from_str("00:00:01,000 --> 00:00:02").unwrap_err(), SyncError::MalformedTimestamp);
    assert_eq!(TimeRange::from_str("00:00:01,000 --> 00:0x:02,000").unwrap_err(), SyncError::MalformedTimestamp);
}

#[test]
fn format_pads_and_keeps_wide_fields() {
    assert_eq!(tc(1, 2, 3, 4).to_string(), "01:02:03,004");
    assert_eq!(tc(123, 5, 6, 7).to_string(), "123:05:06,007");
    assert_eq!(tc(0, 0, 0, 45).to_string(), "00:00:00,045");
    assert_eq!(tc(0, 0, 75, 1000).to_string(), "00:00:75,1000");
}

#[test]
fn to_ms_formula() {
    assert_eq!(tc(1, 2, 3, 4).to_ms().unwrap(), 3723004);
    assert_eq!(tc(0, 40, 50, 652).to_ms().unwrap(), 2450652);
    assert_eq!(tc(1193, 2, 47, 295).to_ms().unwrap(), u32::MAX);
}

#[test]
fn to_ms_overflow() {
    assert_eq!(tc(1193, 2, 47, 296).to_ms().unwrap_err(), SyncError::Overflow);
    assert_eq!(tc(u32::MAX, 0, 0, 0).to_ms().unwrap_err(), SyncError::Overflow);
}

#[test]
fn from_ms_decomposes() {
    assert_eq!(TimeCode::from_ms(&3723004), tc(1, 2, 3, 4));
    assert_eq!(TimeCode::from_ms(&0), tc(0, 0, 0, 0));
    assert_eq!(TimeCode::from_ms(&u32::MAX), tc(1193, 2, 47, 295));
}

#[test]
fn identity_ratio_keeps_text() {
    for t in [tc(0, 0, 0, 0), tc(1, 2, 3, 4), tc(99, 59, 59, 999)] {
        assert_eq!(t.sync(ratio(1, 1)).unwrap(), t.to_string());
        assert_eq!(t.sync(ratio(7, 7)).unwrap(), t.to_string());
    }
}

#[test]
fn larger_ratio_never_earlier() {
    let t = tc(0, 12, 34, 567);
    let slow = t.sync(ratio(1, 2)).unwrap();
    let fast = t.sync(ratio(3, 2)).unwrap();
    let a = TimeCode::from_str(&slow).unwrap().to_ms().unwrap();
    let b = TimeCode::from_str(&fast).unwrap().to_ms().unwrap();
    assert_eq!(a, 377283);
    assert_eq!(b, 1131850);
    assert!(a <= b);
}

#[test]
fn stretch_truncates() {
    // 19 ms times 1/10 is 1.9 ms: truncated to 1
    assert_eq!(tc(0, 0, 0, 19).sync(ratio(1, 10)).unwrap(), "00:00:00,001");
    // 999 ms times 999/1000 is 998.001 ms
    assert_eq!(tc(0, 0, 0, 999).sync(ratio(999, 1000)).unwrap(), "00:00:00,998");
    // 2 ms times 2/3 is 1.33 ms; 1 ms times 2/3 is 0.67 ms
    assert_eq!(tc(0, 0, 0, 2).sync(ratio(2, 3)).unwrap(), "00:00:00,001");
    assert_eq!(tc(0, 0, 0, 1).sync(ratio(2, 3)).unwrap(), "00:00:00,000");
}

#[test]
fn stretch_normalizes_out_of_range_fields() {
    assert_eq!(tc(0, 0, 75, 1500).sync(ratio(1, 1)).unwrap(), "00:01:16,500");
}

#[test]
fn stretch_overflow() {
    assert_eq!(TimeCode::from_ms(&u32::MAX).sync(ratio(2, 1)).unwrap_err(), SyncError::Overflow);
    assert_eq!(tc(2000, 0, 0, 0).sync(ratio(1, 2)).unwrap_err(), SyncError::Overflow);
    assert_eq!(TimeCode::from_ms(&u32::MAX).sync(ratio(u32::MAX, u32::MAX)).unwrap(), "1193:02:47,295");
}

#[test]
fn transform_whole_track() {
    let lines: Vec<String> = vec![
        "1".to_string(),
        "00:00:01,000 --> 00:00:02,500".to_string(),
        "Hello".to_string(),
        "".to_string(),
        "2".to_string(),
        "00:01:00,000 --> 00:01:03,001".to_string(),
        "World".to_string(),
    ];
    let out = transform(&lines, ratio(3, 2)).unwrap();
    let expected = vec![
        "1\n",
        "00:00:01,500 --> 00:00:03,750\n",
        "Hello\n",
        "\n",
        "2\n",
        "00:01:30,000 --> 00:01:34,501\n",
        "World\n",
    ];
    assert_eq!(out, expected);
    assert_eq!(transform(&Vec::new(), ratio(3, 2)).unwrap(), Vec::<String>::new());
}

#[test]
fn transform_stops_at_first_failure() {
    let lines = vec![
        "99:59:59,999 --> 99:59:59,999".to_string(),
        "0a:00:00,000 --> 00:00:00,000".to_string(),
    ];
    assert_eq!(transform(&lines, ratio(12, 1)).unwrap_err(), SyncError::Overflow);
    assert_eq!(update_line(lines[0].clone(), ratio(12, 1)).unwrap_err(), SyncError::Overflow);
}
