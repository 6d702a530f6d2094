use fetch_mcp_rust::mcp::stdio::{parse_header, read_message, write_message, FrameError, Header};

#[test]
fn roundtrip_message() {
    let body = br#"{"jsonrpc":"2.0","id":1,"method":"ping"}"#;
    let mut stream: Vec<u8> = Vec::new();
    write_message(&mut stream, body);
    let (got, used) = read_message(&stream).unwrap();
    assert_eq!(got, body);
    assert_eq!(used, stream.len());
}

#[test]
fn roundtrip_empty_body() {
    let mut stream: Vec<u8> = Vec::new();
    write_message(&mut stream, b"");
    assert_eq!(stream, b"Content-Length: 0\r\n\r\n");
    let (got, used) = read_message(&stream).unwrap();
    assert_eq!(got, b"");
    assert_eq!(used, stream.len());
}

#[test]
fn roundtrip_body_with_line_endings_and_high_bytes() {
    let body: Vec<u8> = vec![13, 10, 13, 10, 0, 255, 58, 10, 200, 13];
    let mut stream: Vec<u8> = Vec::new();
    write_message(&mut stream, &body);
    let (got, used) = read_message(&stream).unwrap();
    assert_eq!(got, body);
    assert_eq!(used, stream.len());
}

#[test]
fn write_emits_header_blank_line_and_body() {
    let mut stream: Vec<u8> = Vec::new();
    write_message(&mut stream, b"hello");
    assert_eq!(stream, b"Content-Length: 5\r\n\r\nhello");
}

#[test]
fn write_appends_to_what_is_there() {
    let mut stream: Vec<u8> = b"abc".to_vec();
    write_message(&mut stream, b"0123456789");
    assert_eq!(stream, b"abcContent-Length: 10\r\n\r\n0123456789");
}

#[test]
fn two_messages_are_read_one_after_the_other() {
    let mut stream: Vec<u8> = Vec::new();
    write_message(&mut stream, b"first");
    write_message(&mut stream, b"second!");
    let (one, used) = read_message(&stream).unwrap();
    assert_eq!(one, b"first");
    let (two, rest) = read_message(&stream[used..]).unwrap();
    assert_eq!(two, b"second!");
    assert_eq!(used + rest, stream.len());
}

#[test]
fn header_name_is_matched_without_case() {
    let (got, _) = read_message(b"content-LENGTH: 3\r\n\r\nabc").unwrap();
    assert_eq!(got, b"abc");
}

#[test]
fn header_value_is_trimmed() {
    let (got, _) = read_message(b"Content-Length:   \t4  \r\n\r\nabcd").unwrap();
    assert_eq!(got, b"abcd");
    let (got, _) = read_message(b"Content-Length:2\r\n\r\nab").unwrap();
    assert_eq!(got, b"ab");
}

#[test]
fn other_headers_are_ignored() {
    let stream = b"Content-Type: application/json\r\nContent-Length: 2\r\nX-Other: 9\r\n\r\nhi!";
    let (got, used) = read_message(stream).unwrap();
    assert_eq!(got, b"hi");
    assert_eq!(used, stream.len() - 1);
}

#[test]
fn later_length_header_counts() {
    let (got, _) = read_message(b"Content-Length: 1\r\nContent-Length: 3\r\n\r\nabc").unwrap();
    assert_eq!(got, b"abc");
}

#[test]
fn missing_length_is_a_format_error() {
    assert_eq!(read_message(b"\r\nbody"), Err(FrameError::Format));
    assert_eq!(read_message(b"X-Other: 1\r\n\r\nbody"), Err(FrameError::Format));
}

#[test]
fn bad_length_is_a_format_error() {
    assert_eq!(read_message(b"Content-Length: abc\r\n\r\n"), Err(FrameError::Format));
    assert_eq!(read_message(b"Content-Length: -1\r\n\r\n"), Err(FrameError::Format));
    assert_eq!(read_message(b"Content-Length: \r\n\r\n"), Err(FrameError::Format));
    assert_eq!(read_message(b"Content-Length: 1.5\r\n\r\n"), Err(FrameError::Format));
    assert_eq!(
        read_message(b"Content-Length: 99999999999999999999999999\r\n\r\n"),
        Err(FrameError::Format)
    );
}

#[test]
fn header_line_that_is_no_text_is_a_format_error() {
    assert_eq!(read_message(b"X-Other: \xff\xfe\r\nContent-Length: 1\r\n\r\na"), Err(FrameError::Format));
}

#[test]
fn stream_that_ends_in_the_headers_is_end_of_stream() {
    assert_eq!(read_message(b""), Err(FrameError::EndOfStream));
    assert_eq!(read_message(b"Content-Length: 3\r\n"), Err(FrameError::EndOfStream));
    assert_eq!(read_message(b"Content-Le"), Err(FrameError::EndOfStream));
}

#[test]
fn stream_that_ends_in_the_body_is_end_of_stream() {
    assert_eq!(read_message(b"Content-Length: 3\r\n\r\nab"), Err(FrameError::EndOfStream));
}

#[test]
fn a_lone_line_feed_does_not_end_the_headers() {
    let (got, _) = read_message(b"Content-Length: 1\n\n\r\nZ").unwrap();
    assert_eq!(got, b"Z");
}

#[test]
fn header_lines_are_classified() {
    assert_eq!(parse_header(b"\r\n"), Header::Blank);
    assert_eq!(parse_header(b"Content-Length: 42\r\n"), Header::Length(42));
    assert_eq!(parse_header(b"Content-Length: +7\r\n"), Header::Length(7));
    assert_eq!(parse_header(b"Content-Length:: 7\r\n"), Header::Length(7));
    assert_eq!(parse_header(b"CONTENT-LENGTH:0\r\n"), Header::Length(0));
    assert_eq!(parse_header(b"Content-Length: x\r\n"), Header::Malformed);
    assert_eq!(parse_header(b"Content-Length : 5\r\n"), Header::Other);
    assert_eq!(parse_header(b"no colon here\r\n"), Header::Other);
    assert_eq!(parse_header(b"\n"), Header::Other);
    assert_eq!(parse_header(b"\xc3\x28\r\n"), Header::Malformed);
}

#[test]
fn header_value_is_trimmed_of_unicode_space() {
    assert_eq!(parse_header("Content-Length:\u{a0}\u{2003}12\u{3000}\r\n".as_bytes()), Header::Length(12));
}
