use ralph::bytes::CappedBuffer;
use ralph::bytes::contains_bytes;
use ralph::bytes::read_with_limit;

#[test]
fn contains_finds_needle_anywhere() {
    let hay: Vec<u8> = b"prefix __RALPH_DONE__ suffix".to_vec();
    let needle: Vec<u8> = b"__RALPH_DONE__".to_vec();
    assert!(contains_bytes(&hay, &needle));
    let hay2: Vec<u8> = b"__RALPH_DONE__".to_vec();
    assert!(contains_bytes(&hay2, &needle));
    let miss: Vec<u8> = b"__RALPH_DON__".to_vec();
    assert!(!contains_bytes(&miss, &needle));
    let empty: Vec<u8> = Vec::new();
    assert!(contains_bytes(&hay, &empty));
    assert!(!contains_bytes(&empty, &needle));
}

#[test]
fn capped_buffer_drops_bytes_past_the_cap() {
    let mut buf = CappedBuffer::new(4);
    buf.push_chunk(&vec![1, 2, 3]);
    assert_eq!(buf.len(), 3);
    assert!(!buf.is_full());
    buf.push_chunk(&vec![4, 5, 6]);
    assert_eq!(buf.len(), 4);
    assert!(buf.is_full());
    assert_eq!(buf.remaining(), 0);
    buf.push_chunk(&vec![7]);
    assert_eq!(buf.cap(), 4);
    assert_eq!(buf.into_vec(), vec![1, 2, 3, 4]);
}

#[test]
fn read_with_limit_caps_exactly_at_the_limit() {
    // stream longer than the cap: result length is exactly the cap
    let chunks = vec![vec![1u8, 2, 3, 4, 5], vec![6, 7, 8, 9, 10]];
    let out = read_with_limit(&chunks, 7);
    assert_eq!(out, vec![1, 2, 3, 4, 5, 6, 7]);
    assert_eq!(out.len(), 7);
}

#[test]
fn read_with_limit_keeps_short_streams_whole() {
    let chunks = vec![vec![1u8, 2], vec![], vec![3]];
    assert_eq!(read_with_limit(&chunks, 20), vec![1, 2, 3]);
    assert_eq!(read_with_limit(&chunks, 0), Vec::<u8>::new());
    assert_eq!(read_with_limit(&Vec::new(), 5), Vec::<u8>::new());
}
