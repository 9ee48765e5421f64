use serial_tether::buffer::RingBuffer;

#[test]
fn push_and_read() {
    let mut r = RingBuffer::new(8);
    assert!(r.push(b"hello"));
    let (head, tail) = r.snapshot_seqs();
    assert_eq!(head, 5);
    assert_eq!(tail, 0);
    let (data, cursor, lag) = r.read_from(0);
    assert_eq!(data, b"hello");
    assert_eq!(cursor, 5);
    assert!(lag.is_none());
}

#[test]
fn cursor_at_head_returns_empty() {
    let mut r = RingBuffer::new(8);
    r.push(b"abc");
    let (data, cursor, lag) = r.read_from(3);
    assert!(data.is_empty());
    assert_eq!(cursor, 3);
    assert!(lag.is_none());
}

#[test]
fn overflow_drops_oldest_and_signals_lag() {
    let mut r = RingBuffer::new(4);
    r.push(b"abcd"); // seq 0..4
    r.push(b"efgh"); // seq 4..8, tail moves to 4
    let (head, tail) = r.snapshot_seqs();
    assert_eq!(head, 8);
    assert_eq!(tail, 4);
    let (data, cursor, lag) = r.read_from(2);
    assert_eq!(data, b"efgh");
    assert_eq!(cursor, 8);
    let l = lag.expect("should report lag");
    assert_eq!(l.dropped_bytes, 2);
    assert_eq!(l.dropped_range, (2, 4));
    assert_eq!(l.resume_seq, 4);
}

#[test]
fn empty_push_wakes_nobody() {
    let mut r = RingBuffer::new(4);
    assert!(!r.push(b""));
    assert_eq!(r.snapshot_seqs(), (0, 0));
    assert_eq!(r.capacity(), 4);
}

#[test]
fn reads_continue_where_they_ended() {
    let mut r = RingBuffer::new(16);
    r.push(b"abc");
    let (first, cursor, _) = r.read_from(1);
    r.push(b"def");
    let (second, _, _) = r.read_from(cursor);
    let (both, _, _) = r.read_from(1);
    assert_eq!(first, b"bc");
    assert_eq!(second, b"def");
    assert_eq!(both, b"bcdef");
}

#[test]
fn large_push_keeps_the_newest_bytes() {
    let mut r = RingBuffer::new(3);
    r.push(b"abcdefg");
    assert_eq!(r.snapshot_seqs(), (7, 4));
    let (data, _, lag) = r.read_from(0);
    assert_eq!(data, b"efg");
    assert_eq!(lag.unwrap().dropped_bytes, 4);
}

#[test]
fn ring_without_capacity_keeps_nothing() {
    let mut r = RingBuffer::new(0);
    r.push(b"abc");
    assert_eq!(r.snapshot_seqs(), (3, 3));
    let (data, cursor, lag) = r.read_from(1);
    assert!(data.is_empty());
    assert_eq!(cursor, 3);
    assert_eq!(lag.unwrap().dropped_range, (1, 3));
}

#[test]
fn cursor_ahead_of_the_ring_waits() {
    let mut r = RingBuffer::new(8);
    r.push(b"abc");
    let (data, cursor, lag) = r.read_from(10);
    assert!(data.is_empty());
    assert_eq!(cursor, 10);
    assert!(lag.is_none());
}

#[test]
fn how_bytes_are_cut_into_pushes_makes_no_difference() {
    let bytes = b"abcdefgh";
    for capacity in [1, 3, 8, 20] {
        for cut in 0..=bytes.len() {
            let mut twice = RingBuffer::new(capacity);
            twice.push(&bytes[..cut]);
            twice.push(&bytes[cut..]);
            let mut once = RingBuffer::new(capacity);
            once.push(bytes);
            assert_eq!(twice.snapshot_seqs(), once.snapshot_seqs());
            for from in 0..10 {
                let (a, b) = (twice.read_from(from), once.read_from(from));
                assert_eq!((a.0, a.1), (b.0, b.1));
                assert_eq!(a.2.map(|l| l.dropped_range), b.2.map(|l| l.dropped_range));
            }
        }
    }
}
