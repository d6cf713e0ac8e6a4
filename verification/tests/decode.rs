use loghound::capture::dbwin::{read_record, Poll, BUFFER_SIZE};
use loghound::capture::decode::{ansi_decoded, decode_utf8_message, message_bytes, text_end, trim_line_end};

#[test]
fn cuts_at_nul() {
    let raw = b"hello\0garbage";
    assert_eq!(decode_utf8_message(raw), "hello");
}

#[test]
fn trims_trailing_newline() {
    assert_eq!(decode_utf8_message(b"line\r\n"), "line");
    assert_eq!(decode_utf8_message(b"line\n"), "line");
}

#[test]
fn plain_ascii_roundtrips() {
    assert_eq!(decode_utf8_message(b"abc 123"), "abc 123");
}

#[test]
fn empty_is_empty() {
    assert_eq!(decode_utf8_message(b""), "");
    assert_eq!(decode_utf8_message(b"\0"), "");
}

#[test]
fn only_the_trailing_line_breaks_are_dropped() {
    assert_eq!(decode_utf8_message(b"a\r\nb\n\n\r"), "a\r\nb");
    assert_eq!(decode_utf8_message(b"\r\n\r\n"), "");
    assert_eq!(decode_utf8_message(b"  x  "), "  x  ");
}

#[test]
fn utf8_text_is_decoded() {
    let raw = "中文\n".as_bytes();
    assert_eq!(decode_utf8_message(raw), "中文");
}

#[test]
fn ill_formed_bytes_become_replacement_characters() {
    assert_eq!(decode_utf8_message(&[0x61, 0xFF, 0x62]), "a\u{FFFD}b");
}

#[test]
fn text_end_finds_the_first_nul() {
    assert_eq!(text_end(b"ab\0cd\0"), 2);
    assert_eq!(text_end(b"abc"), 3);
    assert_eq!(text_end(b"\0abc"), 0);
    assert_eq!(message_bytes(b"ab\0cd"), b"ab");
}

#[test]
fn trim_line_end_keeps_inner_breaks() {
    assert_eq!(trim_line_end("x\ny\r\n"), "x\ny");
    assert_eq!(trim_line_end("x"), "x");
}

#[test]
fn record_reads_little_endian_pid_and_text() {
    let mut buf = vec![0u8; BUFFER_SIZE];
    buf[0] = 0xFC;
    buf[1] = 0x15;
    buf[2] = 0x00;
    buf[3] = 0x00;
    buf[4..11].copy_from_slice(b"hello\r\n");
    let p = read_record(&buf);
    assert_eq!(p, Poll::Message(5628, "hello".to_string()));
}

#[test]
fn record_with_high_pid_bytes() {
    let buf = [0x01u8, 0x02, 0x03, 0x04, b'x', 0];
    match read_record(&buf) {
        Poll::Message(pid, text) => {
            assert_eq!(pid, 0x0403_0201);
            assert_eq!(text, "x");
        }
        Poll::Timeout => panic!("a record is a message"),
    }
}

#[test]
fn ansi_decoding_decisions() {
    assert_eq!(ansi_decoded(b"", None), "");
    assert_eq!(ansi_decoded(b"", Some(&[0x41])), "");
    let wide: Vec<u16> = "中文".encode_utf16().collect();
    assert_eq!(ansi_decoded(&[0xD6, 0xD0, 0xCE, 0xC4], Some(&wide)), "中文");
    assert_eq!(ansi_decoded(b"ab\xff", None), "ab\u{FFFD}");
    assert_eq!(ansi_decoded(b"x", Some(&[0xD800, 0x41])), "\u{FFFD}A");
}
