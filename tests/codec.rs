use rust_shell::codec::{frame_line, write_line, LineBuffer};

#[test]
fn frame_adds_one_line_feed() {
    assert_eq!(frame_line("hello"), "hello\n");
    let mut out: Vec<u8> = Vec::new();
    write_line(&mut out, &"add_two 3,4".to_string()).unwrap();
    assert_eq!(out, b"add_two 3,4\n".to_vec());
}

#[test]
fn line_buffer_waits_for_line_feed() {
    let mut b = LineBuffer::new();
    assert!(!b.feed(b"hel"));
    assert!(b.feed(b"lo \n"));
    assert_eq!(b.finish(), Ok("hello".to_string()));
}

#[test]
fn line_buffer_rejects_bad_utf8() {
    let mut b = LineBuffer::new();
    assert!(b.feed(&[0xff, b'\n']));
    assert!(b.finish().is_err());
}

#[test]
fn line_buffer_keeps_leading_space() {
    let mut b = LineBuffer::new();
    assert!(b.feed(b"  add_two 3,4 \r\n"));
    assert_eq!(b.finish(), Ok("  add_two 3,4".to_string()));
}

#[test]
fn line_buffer_utf8_text() {
    let mut b = LineBuffer::new();
    assert!(b.feed("héllo\n".as_bytes()));
    assert_eq!(b.finish(), Ok("héllo".to_string()));
}
