use serial_tether::buffer::RingBuffer;
use serial_tether::error::ErrorCode;
use serial_tether::expect::{
    ExpectRequest, ExpectState, ExpectStep, Interrupt, RawMatch, Verdict,
};

fn request(pattern: &str) -> ExpectRequest {
    ExpectRequest {
        from_seq: 0,
        pattern: pattern.to_string(),
        regex: true,
        strip_ansi: false,
        strip_echo: None,
        timeout_ms: Some(1000),
        max_bytes: 1024 * 1024,
        max_output_bytes: None,
    }
}

fn matched(v: Verdict) -> RawMatch {
    match v {
        Verdict::Matched(m) => m,
        other => panic!("expected a match, got {other:?}"),
    }
}

#[test]
fn regex_match_is_found() {
    let mut ring = RingBuffer::new(64);
    ring.push(b"boot\r\n# ");
    let mut s = ExpectState::new(request("# $")).unwrap();
    match s.step(&ring, 0, Interrupt::Nothing) {
        ExpectStep::Matched(m) => {
            assert!(m.matched);
            assert_eq!(m.match_text, "# ");
            assert_eq!(m.before, "Ym9vdA0K");
            assert_eq!(m.match_seq, 6);
            assert_eq!(m.end_seq, 8);
            assert!(!m.truncated);
            assert_eq!(m.original_bytes, None);
        }
        other => panic!("unexpected {other:?}"),
    }
    assert_eq!(s.cursor(), 8);
}

#[test]
fn bad_regex_is_refused() {
    let e = ExpectState::new(request("(")).unwrap_err();
    assert_eq!(e.code, ErrorCode::InvalidParams.as_i32());
    assert!(e.message.starts_with("regex: "));
    assert!(e.message.contains("unclosed group"));
    // As a literal text it is fine.
    let mut r = request("(");
    r.regex = false;
    assert!(ExpectState::new(r).is_ok());
}

#[test]
fn literal_match_takes_metacharacters_as_they_are() {
    let mut ring = RingBuffer::new(64);
    ring.push(b"a.c abc");
    let mut r = request("a.c");
    r.regex = false;
    let mut s = ExpectState::new(r).unwrap();
    s.absorb(&ring);
    let found = s.search();
    assert_eq!(found, Some((0, 3)));
    let m = matched(s.judge(found, 0, Interrupt::Nothing));
    assert_eq!(m.matched, b"a.c");
    assert_eq!(m.before, b"");
}

#[test]
fn literal_match_text_is_the_pattern() {
    let mut ring = RingBuffer::new(64);
    ring.push("\u{ff}\u{e9}t\u{e9} $?".as_bytes());
    let mut r = request("\u{e9}t\u{e9} $?");
    r.regex = false;
    match ExpectState::new(r).unwrap().step(&ring, 0, Interrupt::Nothing) {
        ExpectStep::Matched(m) => assert_eq!(m.match_text, "\u{e9}t\u{e9} $?"),
        other => panic!("unexpected {other:?}"),
    }
}

#[test]
fn waits_until_the_pattern_is_complete() {
    let mut ring = RingBuffer::new(64);
    let mut s = ExpectState::new(request("ok!")).unwrap();
    ring.push(b"o");
    assert!(matches!(s.step(&ring, 100, Interrupt::Nothing), ExpectStep::Wait(Some(900))));
    ring.push(b"k!");
    assert!(matches!(s.step(&ring, 200, Interrupt::Nothing), ExpectStep::Matched(_)));
}

#[test]
fn waiting_forever_has_no_limit() {
    let ring = RingBuffer::new(64);
    let mut r = request("x");
    r.timeout_ms = None;
    let mut s = ExpectState::new(r).unwrap();
    assert!(matches!(s.step(&ring, u64::MAX, Interrupt::Nothing), ExpectStep::Wait(None)));
}

#[test]
fn timeout_reports_what_was_buffered() {
    let mut ring = RingBuffer::new(64);
    ring.push(b"xxab");
    let mut r = request("zz");
    r.from_seq = 2;
    let mut s = ExpectState::new(r).unwrap();
    match s.step(&ring, 1000, Interrupt::Nothing) {
        ExpectStep::Failed(e) => {
            assert_eq!(e.code, -32001);
            assert_eq!(e.message, "timeout");
            let d = e.data.unwrap();
            assert_eq!(d.buffered, "YWI=");
            assert_eq!(d.buffered_seq_range, [2, 4]);
        }
        other => panic!("unexpected {other:?}"),
    }
}

#[test]
fn a_match_counts_before_the_clock_and_interruptions() {
    let mut ring = RingBuffer::new(64);
    ring.push(b"yes");
    let mut s = ExpectState::new(request("yes")).unwrap();
    assert!(matches!(s.step(&ring, 5000, Interrupt::DeviceDropped), ExpectStep::Matched(_)));
}

#[test]
fn too_much_data_overflows() {
    let mut ring = RingBuffer::new(64);
    ring.push(b"abcd");
    let mut r = request("zz");
    r.max_bytes = 3;
    let mut s = ExpectState::new(r).unwrap();
    match s.step(&ring, 0, Interrupt::Nothing) {
        ExpectStep::Failed(e) => assert_eq!(e.code, -32006),
        other => panic!("unexpected {other:?}"),
    }
    let mut r = request("zz");
    r.max_bytes = 4;
    let mut s = ExpectState::new(r).unwrap();
    assert!(matches!(s.step(&ring, 0, Interrupt::Nothing), ExpectStep::Wait(_)));
}

#[test]
fn interruptions_fail_the_wait() {
    let ring = RingBuffer::new(64);
    let mut s = ExpectState::new(request("x")).unwrap();
    match s.step(&ring, 0, Interrupt::DeviceDropped) {
        ExpectStep::Failed(e) => assert_eq!(e.code, -32005),
        other => panic!("unexpected {other:?}"),
    }
    let mut s = ExpectState::new(request("x")).unwrap();
    match s.step(&ring, 0, Interrupt::LockSeized) {
        ExpectStep::Failed(e) => assert_eq!(e.code, -32800),
        other => panic!("unexpected {other:?}"),
    }
}

#[test]
fn echo_is_stripped_and_output_truncated() {
    let mut ring = RingBuffer::new(64);
    ring.push(b"ls\r\nabcdef\r\n$ ");
    let mut r = request("\\$ ");
    r.strip_echo = Some(b"ls\n".to_vec());
    r.max_output_bytes = Some(4);
    let mut s = ExpectState::new(r).unwrap();
    s.absorb(&ring);
    let m = matched(s.judge(s.search(), 0, Interrupt::Nothing));
    assert_eq!(m.before, b"ef\r\n");
    assert!(m.truncated);
    assert_eq!(m.original_bytes, Some(8));
}

#[test]
fn sequence_numbers_survive_stripped_escapes() {
    let mut ring = RingBuffer::new(64);
    // The prompt starts at sequence number 10 and is preceded by escapes.
    ring.push(b"\x1b[31mout\x1b[0m> ");
    let mut r = request("> ");
    r.strip_ansi = true;
    let mut s = ExpectState::new(r).unwrap();
    s.absorb(&ring);
    let m = matched(s.judge(s.search(), 0, Interrupt::Nothing));
    assert_eq!(m.before, b"out");
    assert_eq!(m.match_seq, 12);
    assert_eq!(m.end_seq, 14);
}

#[test]
fn sequence_numbers_survive_dropped_bytes() {
    let mut ring = RingBuffer::new(4);
    ring.push(b"abcdefgh");
    let mut s = ExpectState::new(request("gh")).unwrap();
    s.absorb(&ring);
    let m = matched(s.judge(s.search(), 0, Interrupt::Nothing));
    assert_eq!(m.before, b"ef");
    assert_eq!(m.match_seq, 6);
    assert_eq!(m.end_seq, 8);
    // A gap in the middle of a wait is accounted for as well.
    let mut ring = RingBuffer::new(4);
    ring.push(b"ab");
    let mut s = ExpectState::new(request("yz")).unwrap();
    s.absorb(&ring);
    ring.push(b"cdefghyz");
    s.absorb(&ring);
    let m = matched(s.judge(s.search(), 0, Interrupt::Nothing));
    assert_eq!(m.before, b"abgh");
    assert_eq!(m.match_seq, 8);
    assert_eq!(m.end_seq, 10);
}

#[test]
fn empty_match_has_an_empty_range() {
    let mut ring = RingBuffer::new(16);
    ring.push(b"abc");
    let mut s = ExpectState::new(request("$")).unwrap();
    s.absorb(&ring);
    let m = matched(s.judge(s.search(), 0, Interrupt::Nothing));
    assert_eq!(m.matched, b"");
    assert_eq!((m.match_seq, m.end_seq), (3, 3));
}

#[test]
fn invalid_utf8_match_is_shown_lossily() {
    let mut ring = RingBuffer::new(16);
    ring.push(b"a\xffb");
    let mut s = ExpectState::new(request("(?-u)\\xff")).unwrap();
    match s.step(&ring, 0, Interrupt::Nothing) {
        ExpectStep::Matched(m) => assert_eq!(m.match_text, "\u{fffd}"),
        other => panic!("unexpected {other:?}"),
    }
}
