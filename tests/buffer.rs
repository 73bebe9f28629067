use rotate_puts::buffer::LineBuffer;

#[test]
fn buffer_holds_partial_line() {
    let mut b = LineBuffer::new();
    let out = b.push(b"abc");
    assert!(out.is_empty());
    assert_eq!(b.len(), 3);
    assert!(!b.is_empty());
}

#[test]
fn buffer_emits_through_last_newline() {
    let mut b = LineBuffer::new();
    let out = b.push(b"AAAA\nBBBB\nCCCC");
    assert_eq!(out, b"AAAA\nBBBB\n".to_vec());
    assert_eq!(b.len(), 4);
    assert_eq!(b.take_all(), b"CCCC".to_vec());
    assert!(b.is_empty());
}

#[test]
fn buffer_joins_chunks_before_emitting() {
    let mut b = LineBuffer::new();
    assert!(b.push(b"hel").is_empty());
    assert_eq!(b.push(b"lo\nwor"), b"hello\n".to_vec());
    assert_eq!(b.push(b"ld\n"), b"world\n".to_vec());
    assert!(b.is_empty());
}

#[test]
fn buffer_overflows_without_newline() {
    let mut b = LineBuffer::new();
    let chunk = vec![b'x'; 4096];
    assert!(b.push(&chunk).is_empty());
    let out = b.push(b"y");
    assert_eq!(out.len(), 4097);
    assert_eq!(out[4096], b'y');
    assert!(b.is_empty());
}

#[test]
fn buffer_past_limit_with_newline_cuts_at_newline() {
    let mut b = LineBuffer::new();
    let mut chunk = vec![b'x'; 5000];
    chunk[10] = b'\n';
    let out = b.push(&chunk);
    assert_eq!(out.len(), 11);
    assert_eq!(b.len(), 4989);
}

#[test]
fn buffer_emits_lone_newline() {
    let mut b = LineBuffer::new();
    assert_eq!(b.push(b"\n"), b"\n".to_vec());
    assert!(b.is_empty());
    assert!(b.push(b"").is_empty());
}
