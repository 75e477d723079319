use dap_session::frame::{
    begins_with_name, decode_frame, encode_frame, find_terminator, header_content_length,
    parse_digits, parse_length_value, trim, Decoded,
};
use dap_session::receiver::{FrameError, Received, Receiver};

#[test]
fn encode_writes_exact_header() {
    let frame = encode_frame(b"{\"seq\":1}");
    assert_eq!(frame, b"Content-Length: 9\r\n\r\n{\"seq\":1}".to_vec());
}

#[test]
fn encode_counts_bytes_not_characters() {
    let body = "\"\u{e9}\"".as_bytes();
    assert_eq!(body.len(), 4);
    let frame = encode_frame(body);
    assert_eq!(&frame[..21], b"Content-Length: 4\r\n\r\n".as_slice());
}

#[test]
fn encode_empty_body() {
    assert_eq!(encode_frame(b""), b"Content-Length: 0\r\n\r\n".to_vec());
}

#[test]
fn encode_long_body_writes_all_digits() {
    let body = vec![b'x'; 12345];
    let frame = encode_frame(&body);
    assert_eq!(&frame[..25], b"Content-Length: 12345\r\n\r\n".as_slice());
    assert_eq!(frame.len(), 25 + 12345);
}

#[test]
fn decode_reads_back_encoded_frame() {
    let frame = encode_frame(b"hello");
    assert_eq!(
        decode_frame(&frame),
        Decoded::Frame { body: b"hello".to_vec(), consumed: frame.len() }
    );
}

#[test]
fn decode_round_trip_for_many_lengths() {
    for n in [0usize, 1, 9, 10, 11, 99, 100, 101, 999, 1000, 4096] {
        let body = vec![b'a'; n];
        let mut buf = encode_frame(&body);
        let used = buf.len();
        buf.extend_from_slice(b"Content-Le");
        assert_eq!(decode_frame(&buf), Decoded::Frame { body, consumed: used });
    }
}

#[test]
fn decode_empty_body_gives_empty_frame() {
    assert_eq!(
        decode_frame(b"Content-Length: 0\r\n\r\n"),
        Decoded::Frame { body: vec![], consumed: 21 }
    );
}

#[test]
fn empty_body_is_a_protocol_error_for_the_receiver() {
    let mut receiver = Receiver::new();
    receiver.feed(b"Content-Length: 0\r\n\r\n");
    assert_eq!(receiver.next_message(), Received::Skipped(FrameError::BadJson));
    assert_eq!(receiver.next_message(), Received::NeedMore);
    assert_eq!(receiver.at_end(), Ok(()));
}

#[test]
fn decode_mixed_case_header_among_other_fields() {
    let buf = b"X-Trace: 17\r\ncOnTeNt-LeNgTh:   5 \r\nContent-Type: application/json\r\n\r\nhelloREST";
    assert_eq!(
        decode_frame(buf),
        Decoded::Frame { body: b"hello".to_vec(), consumed: buf.len() - 4 }
    );
}

#[test]
fn decode_upper_case_header() {
    assert_eq!(
        decode_frame(b"CONTENT-LENGTH:2\r\n\r\nok"),
        Decoded::Frame { body: b"ok".to_vec(), consumed: 22 }
    );
}

#[test]
fn decode_needs_the_terminator() {
    assert_eq!(decode_frame(b""), Decoded::Incomplete);
    assert_eq!(decode_frame(b"Content-Length: 5\r\n"), Decoded::Incomplete);
    assert_eq!(decode_frame(b"Content-Length: 5\r\n\r"), Decoded::Incomplete);
}

#[test]
fn decode_needs_the_whole_body() {
    assert_eq!(decode_frame(b"Content-Length: 5\r\n\r\nhell"), Decoded::Incomplete);
    assert_eq!(
        decode_frame(b"Content-Length: 5\r\n\r\nhello"),
        Decoded::Frame { body: b"hello".to_vec(), consumed: 26 }
    );
}

#[test]
fn decode_header_without_length_is_malformed() {
    assert_eq!(decode_frame(b"Foo: bar\r\n\r\nrest"), Decoded::Malformed { consumed: 12 });
    assert_eq!(decode_frame(b"\r\n\r\n"), Decoded::Malformed { consumed: 4 });
}

#[test]
fn decode_header_with_bad_number_is_malformed() {
    assert_eq!(decode_frame(b"Content-Length: abc\r\n\r\n"), Decoded::Malformed { consumed: 23 });
    assert_eq!(decode_frame(b"Content-Length: \r\n\r\n"), Decoded::Malformed { consumed: 20 });
    assert_eq!(decode_frame(b"Content-Length: -1\r\n\r\n"), Decoded::Malformed { consumed: 22 });
    assert_eq!(decode_frame(b"Content-Length: 1 2\r\n\r\n"), Decoded::Malformed { consumed: 23 });
}

#[test]
fn decode_length_beyond_the_machine_is_malformed() {
    assert_eq!(
        decode_frame(b"Content-Length: 99999999999999999999999999\r\n\r\n"),
        Decoded::Malformed { consumed: 46 }
    );
}

#[test]
fn decode_accepts_a_plus_sign() {
    assert_eq!(
        decode_frame(b"Content-Length: +3\r\n\r\nabc"),
        Decoded::Frame { body: b"abc".to_vec(), consumed: 25 }
    );
    assert_eq!(decode_frame(b"Content-Length: +\r\n\r\n"), Decoded::Malformed { consumed: 21 });
}

#[test]
fn decode_first_length_line_decides() {
    assert_eq!(
        decode_frame(b"Content-Length: x\r\nContent-Length: 2\r\n\r\nok"),
        Decoded::Malformed { consumed: 40 }
    );
    assert_eq!(
        decode_frame(b"Content-Length: 1\r\nContent-Length: 2\r\n\r\nok"),
        Decoded::Frame { body: b"o".to_vec(), consumed: 41 }
    );
}

#[test]
fn decode_name_must_begin_the_line() {
    assert_eq!(decode_frame(b" Content-Length: 2\r\n\r\nok"), Decoded::Malformed { consumed: 22 });
}

#[test]
fn decode_stops_at_first_terminator() {
    let buf = b"Content-Length: 4\r\n\r\n\r\n\r\nmore";
    assert_eq!(decode_frame(buf), Decoded::Frame { body: b"\r\n\r\n".to_vec(), consumed: 25 });
}

#[test]
fn find_terminator_positions() {
    assert_eq!(find_terminator(b"ab\r\n\r\ncd\r\n\r\n"), Some(2));
    assert_eq!(find_terminator(b"\r\n\r\n"), Some(0));
    assert_eq!(find_terminator(b"\r\n\r"), None);
    assert_eq!(find_terminator(b"\r\n \r\n"), None);
}

#[test]
fn header_lines_may_end_without_carriage_return() {
    assert_eq!(header_content_length(b"A: b\ncontent-length: 7\n\n"), Some(7));
    assert_eq!(header_content_length(b"content-length: 7"), Some(7));
    assert_eq!(header_content_length(b""), None);
    assert_eq!(header_content_length(b"content-length 7\r\n"), None);
}

#[test]
fn name_test_ignores_case() {
    assert!(begins_with_name(b"Content-Length: 1"));
    assert!(begins_with_name(b"content-length:"));
    assert!(begins_with_name(b"CONTENT-LENGTH:9"));
    assert!(!begins_with_name(b"content-length"));
    assert!(!begins_with_name(b"content_length: 1"));
    assert!(!begins_with_name(b"x-content-length: 1"));
}

#[test]
fn trim_removes_ascii_blanks_only() {
    assert_eq!(trim(b"  12\t\r\n"), b"12".as_slice());
    assert_eq!(trim(b"   "), b"".as_slice());
    assert_eq!(trim(b"a b"), b"a b".as_slice());
    assert_eq!(trim(b"\x0b\x0c7\x0b"), b"7".as_slice());
    assert_eq!(trim(b"\xc2\xa07"), b"\xc2\xa07".as_slice());
}

#[test]
fn digits_are_read_exactly() {
    assert_eq!(parse_digits(b"0"), Some(0));
    assert_eq!(parse_digits(b"007"), Some(7));
    assert_eq!(parse_digits(b"18446744073709551615"), Some(18446744073709551615));
    assert_eq!(parse_digits(b"18446744073709551616"), None);
    assert_eq!(parse_digits(b""), None);
    assert_eq!(parse_digits(b"12a"), None);
    assert_eq!(parse_length_value(b"+15"), Some(15));
    assert_eq!(parse_length_value(b"++15"), None);
}

#[test]
fn frames_that_arrive_together_are_taken_one_by_one() {
    let first = br#"{"seq":1,"type":"event","event":"initialized"}"#;
    let second = br#"{"seq":2,"type":"event","event":"continued"}"#;
    let mut buf = encode_frame(first);
    buf.extend_from_slice(&encode_frame(second));
    let mut receiver = Receiver::new();
    receiver.feed(&buf);
    assert_eq!(
        receiver.next_frame(),
        Decoded::Frame { body: first.to_vec(), consumed: first.len() + 22 }
    );
    assert_eq!(
        receiver.next_frame(),
        Decoded::Frame { body: second.to_vec(), consumed: second.len() + 22 }
    );
    assert_eq!(receiver.next_frame(), Decoded::Incomplete);
    assert_eq!(receiver.at_end(), Ok(()));
}

#[test]
fn frame_split_over_several_reads() {
    let frame = encode_frame(b"{\"a\":1}");
    let mut receiver = Receiver::new();
    for chunk in frame.chunks(3) {
        assert_eq!(receiver.next_frame(), Decoded::Incomplete);
        receiver.feed(chunk);
    }
    assert_eq!(
        receiver.next_frame(),
        Decoded::Frame { body: b"{\"a\":1}".to_vec(), consumed: frame.len() }
    );
}

#[test]
fn connection_closed_in_mid_frame() {
    let mut receiver = Receiver::new();
    assert_eq!(receiver.at_end(), Ok(()));
    receiver.feed(b"Content-Length: 10\r\n\r\n{\"a\"");
    assert_eq!(receiver.next_frame(), Decoded::Incomplete);
    assert_eq!(receiver.at_end(), Err(FrameError::UnexpectedEof));
}

#[test]
fn malformed_header_is_skipped_and_the_next_frame_read() {
    let mut receiver = Receiver::new();
    receiver.feed(b"Length: 3\r\n\r\nContent-Length: 2\r\n\r\n{}");
    assert_eq!(receiver.next_message(), Received::Skipped(FrameError::MalformedHeader));
    assert_eq!(receiver.next_frame(), Decoded::Frame { body: b"{}".to_vec(), consumed: 23 });
}
