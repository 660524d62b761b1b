use espmonitor::transcript::{
    apply_timestamp, strip_ansi_formatting, strip_ansi_formatting_and_apply_timestamp,
};

#[test]
fn strips_colour_sequences() {
    assert_eq!(strip_ansi_formatting("\x1b[31mERROR\x1b[0m"), "ERROR");
    assert_eq!(strip_ansi_formatting("\x1b[1;32mI (42) boot: ok\x1b[0m"), "I (42) boot: ok");
}

#[test]
fn strips_left_over_fragments() {
    assert_eq!(strip_ansi_formatting("a;32mb"), "ab");
    assert_eq!(strip_ansi_formatting("x;m"), "x");
}

#[test]
fn keeps_plain_text() {
    assert_eq!(strip_ansi_formatting("hello, world\n"), "hello, world\n");
    assert_eq!(strip_ansi_formatting(""), "");
    assert_eq!(strip_ansi_formatting("\x1b[31"), "\x1b[31");
}

#[test]
fn stripping_twice_is_stripping_once() {
    for s in ["\x1b[31mERROR\x1b[0m", "plain", "\x1b[0m\x1b[1;31mx", "a;1mb", ";;1mm", "\x1b\x1b[0m[m"] {
        let once = strip_ansi_formatting(s);
        assert_eq!(strip_ansi_formatting(&once), once);
    }
}

#[test]
fn stripping_removes_what_a_removal_exposes() {
    let once = strip_ansi_formatting(";;1mm");
    assert_eq!(once, "");
    assert_eq!(strip_ansi_formatting(&once), "");
    let once = strip_ansi_formatting("\x1b\x1b[0m[m");
    assert_eq!(once, "");
    assert_eq!(strip_ansi_formatting("a\x1b\x1b[0m[1mb"), "ab");
}

#[test]
fn timestamped_line_layout() {
    assert_eq!(
        apply_timestamp("2024-01-02T03:04:05.000006+00:00", "\x1b[31mERROR\x1b[0m"),
        "2024-01-02T03:04:05.000006+00:00 - ERROR"
    );
}

#[test]
fn current_timestamp_is_in_front() {
    let line = strip_ansi_formatting_and_apply_timestamp("\x1b[32mboot\x1b[0m");
    assert!(line.ends_with(" - boot"));
    let ts = &line[..line.len() - " - boot".len()];
    // %+ : YYYY-MM-DDTHH:MM:SS.ffffff+HH:MM
    assert!(ts.len() >= 25, "{ts}");
    assert!(!ts.contains(' '));
    let b = ts.as_bytes();
    assert_eq!(b[4], b'-');
    assert_eq!(b[7], b'-');
    assert_eq!(b[10], b'T');
    assert_eq!(b[13], b':');
    assert_eq!(b[16], b':');
    assert!(b[..4].iter().all(|c| c.is_ascii_digit()));
    // The offset closes the timestamp: +HH:MM or -HH:MM.
    let off = &b[b.len() - 6..];
    assert!(off[0] == b'+' || off[0] == b'-');
    assert_eq!(off[3], b':');
    assert!([1, 2, 4, 5].iter().all(|&i| off[i].is_ascii_digit()));
}
