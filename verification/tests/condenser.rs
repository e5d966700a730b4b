use chrono::TimeZone;
use foldback_lib::condenser::{
    build_condensed, condense, line_count, CONDENSE_BYTE_THRESHOLD, CONDENSE_LINE_THRESHOLD,
    HEAD_LINES, TAIL_LINES,
};
use foldback_lib::time::UtcTime;

const REF_ID: &str = "abc123";

fn expires_chrono() -> chrono::DateTime<chrono::Utc> {
    chrono::Utc.with_ymd_and_hms(2026, 9, 7, 0, 0, 0).unwrap()
}

fn expires() -> UtcTime {
    UtcTime::from_millis(expires_chrono().timestamp_millis()).unwrap()
}

fn wide_numbered_lines(count: usize) -> Vec<u8> {
    let padding = "x".repeat(500);
    (0..count)
        .flat_map(|i| format!("line-{i:04} {padding}\n").into_bytes())
        .collect()
}

fn numbered_lines(count: usize, trailing_newline: bool) -> Vec<u8> {
    let mut data: Vec<u8> = (0..count)
        .flat_map(|i| format!("line-{i:04}\n").into_bytes())
        .collect();
    if !trailing_newline && data.last() == Some(&b'\n') {
        data.pop();
    }
    data
}

fn byte_blob(size: usize) -> Vec<u8> {
    vec![b'x'; size]
}

#[test]
fn test_short_output_passthrough() {
    let data = b"hello world\n";
    let res = condense(data, REF_ID, &expires());
    assert!(!res.condensed);
    assert_eq!(res.display, data);
}

#[test]
fn test_long_output_condenses() {
    let data = numbered_lines(200, true);
    let res = condense(&data, REF_ID, &expires());
    assert!(res.condensed);
    assert!(res.display.len() < data.len());
    assert!(res.display.windows(9).any(|w| w == b"[foldback"));
}

#[test]
fn test_condensed_contains_ref_marker() {
    let data = numbered_lines(200, true);
    let res = condense(&data, "myrefid", &expires());
    assert!(res.condensed);
    let display_str = String::from_utf8_lossy(&res.display);
    assert!(display_str.contains("ref=myrefid"));
    assert!(display_str.contains("expires="));
}

#[test]
fn test_exactly_100_lines_passthrough() {
    let data = numbered_lines(CONDENSE_LINE_THRESHOLD, true);
    assert_eq!(line_count(&data), CONDENSE_LINE_THRESHOLD);
    assert!(data.len() <= CONDENSE_BYTE_THRESHOLD);

    let res = condense(&data, REF_ID, &expires());
    assert!(!res.condensed);
    assert_eq!(res.display, data);
}

#[test]
fn test_101_lines_condenses() {
    let data = numbered_lines(CONDENSE_LINE_THRESHOLD + 1, true);
    assert_eq!(line_count(&data), CONDENSE_LINE_THRESHOLD + 1);

    let res = condense(&data, REF_ID, &expires());
    assert!(res.condensed);
    assert!(res.display.len() < data.len());
}

#[test]
fn test_byte_threshold_at_exactly_10kb_passthrough() {
    let data = byte_blob(CONDENSE_BYTE_THRESHOLD);
    assert_eq!(data.len(), CONDENSE_BYTE_THRESHOLD);
    assert_eq!(line_count(&data), 1);

    let res = condense(&data, REF_ID, &expires());
    assert!(!res.condensed);
    assert_eq!(res.display, data);
}

#[test]
fn test_byte_threshold_one_below_passthrough() {
    let data = byte_blob(CONDENSE_BYTE_THRESHOLD - 1);
    assert_eq!(line_count(&data), 1);

    let res = condense(&data, REF_ID, &expires());
    assert!(!res.condensed);
    assert_eq!(res.display, data);
}

#[test]
fn test_byte_threshold_one_above_passthrough_when_no_space_saved() {
    let data = byte_blob(CONDENSE_BYTE_THRESHOLD + 1);
    assert_eq!(line_count(&data), 1);

    let res = condense(&data, REF_ID, &expires());
    assert!(!res.condensed);
    assert_eq!(res.display, data);
}

#[test]
fn test_single_line_over_10kb_passthrough() {
    let data = byte_blob(CONDENSE_BYTE_THRESHOLD + 2048);
    assert_eq!(line_count(&data), 1);
    assert!(data.len() > CONDENSE_BYTE_THRESHOLD);

    let res = condense(&data, REF_ID, &expires());
    assert!(!res.condensed);
    assert_eq!(res.display, data);
}

#[test]
fn test_no_trailing_newline_still_condenses() {
    let data = numbered_lines(200, false);
    assert_eq!(line_count(&data), 200);
    assert_ne!(data.last(), Some(&b'\n'));

    let res = condense(&data, REF_ID, &expires());
    assert!(res.condensed);
    assert!(res.display.len() < data.len());
}

#[test]
fn test_byte_threshold_with_few_lines_preserves_head_and_tail() {
    let total = 25;
    let data = wide_numbered_lines(total);
    assert!(data.len() > CONDENSE_BYTE_THRESHOLD);
    assert_eq!(line_count(&data), total);

    let head_lines_bytes: usize = data
        .split(|&b| b == b'\n')
        .take(HEAD_LINES)
        .map(|l| l.len() + 1)
        .sum();
    let marker_len = format!(
        "[foldback ref={REF_ID} raw={}b lines={total} omitted=0 expires={}]\n",
        data.len(),
        expires_chrono().format("%Y-%m-%dT%H:%M:%SZ")
    )
    .len();
    assert!(
        head_lines_bytes + marker_len < data.len(),
        "fixture must compress when tail is wrongly dropped"
    );

    let built = build_condensed(&data, REF_ID, &expires());
    let display = String::from_utf8_lossy(&built);
    for i in 0..HEAD_LINES {
        assert!(
            display.contains(&format!("line-{i:04}")),
            "missing head line {i}"
        );
    }
    for i in HEAD_LINES..total {
        assert!(
            display.contains(&format!("line-{i:04}")),
            "missing tail line {i} (omitted=0 must not drop tail)"
        );
    }
    assert!(display.contains("omitted=0"));

    let res = condense(&data, REF_ID, &expires());
    assert!(!res.condensed);
    assert_eq!(res.display, data);
}

#[test]
fn test_head_and_tail_lines_preserved() {
    let total = 200;
    let data = numbered_lines(total, true);
    let res = condense(&data, REF_ID, &expires());
    assert!(res.condensed);

    let display = String::from_utf8_lossy(&res.display);
    for i in 0..HEAD_LINES {
        assert!(
            display.contains(&format!("line-{i:04}")),
            "missing head line {i}"
        );
    }
    for i in (total - TAIL_LINES)..total {
        assert!(
            display.contains(&format!("line-{i:04}")),
            "missing tail line {i}"
        );
    }

    let middle = HEAD_LINES + 50;
    assert!(
        !display.contains(&format!("line-{middle:04}")),
        "middle line {middle} should be omitted"
    );

    let omitted = total - HEAD_LINES - TAIL_LINES;
    assert!(display.contains(&format!("omitted={omitted}")));
}

#[test]
fn test_no_space_saved_passthrough_preserves_original_bytes() {
    let mut data = byte_blob(CONDENSE_BYTE_THRESHOLD + 100);
    data[0] = 0xFF;
    data[1] = 0xFE;

    let res = condense(&data, REF_ID, &expires());
    assert!(!res.condensed);
    assert_eq!(res.display, data);
}

#[test]
fn test_line_count_empty() {
    assert_eq!(line_count(b""), 0);
}

#[test]
fn test_line_count_no_trailing_newline() {
    assert_eq!(line_count(b"a\nb"), 2);
}

#[test]
fn test_line_count_trailing_newline() {
    assert_eq!(line_count(b"a\nb\n"), 2);
}

#[test]
fn test_line_count_helper() {
    assert_eq!(line_count(b""), 0);
    assert_eq!(line_count(b"a\nb\n"), 2);
    assert_eq!(line_count(b"a\nb"), 2);
    assert_eq!(line_count(b"a"), 1);
}

// ── exact shape of the generic view ─────────────────────────────────────────

#[test]
fn generic_view_is_head_marker_tail_exactly() {
    let data = numbered_lines(200, true);
    let res = condense(&data, REF_ID, &expires());
    assert!(res.condensed);
    let mut expected = String::new();
    for i in 0..20 {
        expected.push_str(&format!("line-{i:04}\n"));
    }
    expected.push_str(&format!(
        "[foldback ref={REF_ID} raw={}b lines=200 omitted=160 expires=2026-09-07T00:00:00Z]\n",
        data.len()
    ));
    for i in 180..200 {
        expected.push_str(&format!("line-{i:04}\n"));
    }
    assert_eq!(String::from_utf8(res.display).unwrap(), expected);
}

#[test]
fn generic_view_terminates_an_unterminated_last_line() {
    let data = numbered_lines(200, false);
    let res = condense(&data, REF_ID, &expires());
    assert!(res.condensed);
    assert!(res.display.ends_with(b"line-0199\n"));
}

#[test]
fn generic_marker_prefix_is_foldback() {
    let data = numbered_lines(150, true);
    let res = condense(&data, REF_ID, &expires());
    assert!(res.condensed);
    let s = String::from_utf8_lossy(&res.display);
    assert!(s.contains("[foldback ref=abc123 "));
    assert!(!s.contains("view="));
}
