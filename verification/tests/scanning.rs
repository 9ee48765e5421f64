use serial_tether::scan::{
    constant_time_eq, find_substring, plain_byte_positions, strip_ansi_bytes, strip_leading_echo,
};

#[test]
fn strips_crlf_echo() {
    let before = b"version\r\nU-Boot 2025\r\n";
    let echo = b"version\r\n";
    let r = strip_leading_echo(before, echo);
    assert_eq!(r, b"U-Boot 2025\r\n");
}

#[test]
fn strips_lf_echo_with_crlf_response() {
    let before = b"version\r\nU-Boot\r\n";
    let echo = b"version\n";
    let r = strip_leading_echo(before, echo);
    assert_eq!(r, b"U-Boot\r\n");
}

#[test]
fn no_strip_when_mismatch() {
    let before = b"hello world";
    let echo = b"version\n";
    let r = strip_leading_echo(before, echo);
    assert_eq!(r, before);
}

#[test]
fn ansi_strip_basic() {
    let s = b"\x1b[31mred\x1b[0m text";
    assert_eq!(strip_ansi_bytes(s), b"red text");
}

#[test]
fn echo_ends_with_any_line_break() {
    assert_eq!(strip_leading_echo(b"ls\rok", b"ls\r\n"), b"ok");
    assert_eq!(strip_leading_echo(b"ls\nok", b"ls"), b"ok");
    assert_eq!(strip_leading_echo(b"ls\n", b"ls\r"), b"");
}

#[test]
fn echo_of_nothing_strips_nothing() {
    assert_eq!(strip_leading_echo(b"\r\nabc", b"\r\n"), b"\r\nabc");
    assert_eq!(strip_leading_echo(b"abc", b"abc"), b"");
    assert_eq!(strip_leading_echo(b"abc\r\n\r\nx", b"abc\r"), b"\r\nx");
}

#[test]
fn ansi_edge_cases() {
    // A cut-off sequence disappears up to the end.
    assert_eq!(strip_ansi_bytes(b"ab\x1b[12"), b"ab");
    assert_eq!(strip_ansi_bytes(b"ab\x1b"), b"ab");
    // ESC and one character.
    assert_eq!(strip_ansi_bytes(b"a\x1bcb"), b"ab");
    // Stripping twice is stripping once.
    let once = strip_ansi_bytes(b"\x1b\x1b[31mx");
    assert_eq!(strip_ansi_bytes(&once), once);
    assert_eq!(plain_byte_positions(b"a\x1b[0mb"), vec![0, 5]);
}

#[test]
fn substring_search() {
    assert_eq!(find_substring(b"abcabc", b"bc"), Some((1, 3)));
    assert_eq!(find_substring(b"abc", b""), Some((0, 0)));
    assert_eq!(find_substring(b"", b"a"), None);
    assert_eq!(find_substring(b"aab", b"ab"), Some((1, 3)));
    assert_eq!(find_substring(b"aaa", b"b"), None);
}

#[test]
fn token_comparison() {
    assert!(constant_time_eq(b"secret", b"secret"));
    assert!(!constant_time_eq(b"secret", b"secreT"));
    assert!(!constant_time_eq(b"secret", b"secre"));
    assert!(constant_time_eq(b"", b""));
}
