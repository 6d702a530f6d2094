use crate::decimal::{decimal_digits, parse_unsigned, parse_usize, push_decimal};
use crate::text::{
    ascii_bytes, chars_eq_ignore_case, decode_chars, eq_ignore_case, find_char, is_ascii_text,
    lemma_ascii_join, position,
    push_ascii, slice_chars, strip_leading, strip_start, to_chars, trim, trimmed,
};
use vstd::prelude::*;
use vstd::utf8::*;

verus! {

/// Why a message could not be read.
#[derive(Debug, Clone, Copy, PartialEq, Eq, Structural)]
pub enum FrameError {
    /// The stream ended before the header block or the body was complete.
    EndOfStream,
    /// The length header is missing or is no non-negative decimal number,
    /// or a header line is not text.
    Format,
}

/// What one line of the header block says.
#[derive(Debug, Clone, Copy, PartialEq, Eq, Structural)]
pub enum Header {
    /// The line `"\r\n"`, which ends the header block.
    Blank,
    /// A `Content-Length` header with the length it gives.
    Length(usize),
    /// A `Content-Length` header whose value is no length, or a line that is not text.
    Malformed,
    /// Any other line; it is ignored.
    Other,
}

/// The name of the one header that is recognised.
pub open spec fn length_name() -> Seq<char> {
    "Content-Length"@
}

/// The text of a length header's value that is read as a number.
pub open spec fn length_field(value: Seq<char>) -> Seq<char> {
    trimmed(strip_leading(trimmed(value), ':'))
}

/// What a header line says, given as text with its line ending.
pub open spec fn header_of_text(line: Seq<char>) -> Header {
    let colon = position(line, ':');
    if line == seq!['\r', '\n'] {
        Header::Blank
    } else if colon < line.len() && eq_ignore_case(line.take(colon), length_name()) {
        match parse_unsigned(length_field(line.skip(colon + 1)), usize::MAX as nat) {
            Some(n) => Header::Length(n as usize),
            None => Header::Malformed,
        }
    } else {
        Header::Other
    }
}

/// What a header line says, given as the bytes read from the stream.
pub open spec fn header_of(line: Seq<u8>) -> Header {
    if valid_utf8(line) {
        header_of_text(decode_utf8(line))
    } else {
        Header::Malformed
    }
}

/// Where the line that starts at `pos` ends: just behind its line feed, or at
/// the end of the stream if there is none.
pub open spec fn line_end(stream: Seq<u8>, pos: int) -> int {
    let feed = pos + position(stream.skip(pos), 10u8);
    if feed < stream.len() {
        feed + 1
    } else {
        stream.len() as int
    }
}

/// The outcome of reading one message from `stream` at `pos`, where `length`
/// is the length that the header lines before `pos` gave: the body and the
/// position behind it, or the reason for the failure.
pub open spec fn read_from(stream: Seq<u8>, pos: int, length: Option<usize>) -> Result<
    (Seq<u8>, int),
    FrameError,
>
    decreases stream.len() - pos,
{
    let end = line_end(stream, pos);
    if pos < 0 || pos >= stream.len() || end <= pos {
        Err(FrameError::EndOfStream)
    } else {
        match header_of(stream.subrange(pos, end)) {
            Header::Blank => match length {
                None => Err(FrameError::Format),
                Some(n) => if end + n <= stream.len() {
                    Ok((stream.subrange(end, end + n), end + n))
                } else {
                    Err(FrameError::EndOfStream)
                },
            },
            Header::Length(n) => read_from(stream, end, Some(n)),
            Header::Malformed => Err(FrameError::Format),
            Header::Other => read_from(stream, end, length),
        }
    }
}

/// The header block written in front of a body of `n` bytes.
pub open spec fn frame_header(n: nat) -> Seq<u8> {
    ascii_bytes("Content-Length: "@ + decimal_digits(n) + "\r\n\r\n"@)
}

/// A body as it stands on the stream: its header block, then the body itself.
pub open spec fn frame(body: Seq<u8>) -> Seq<u8> {
    frame_header(body.len()) + body
}

/// The header block is made of ASCII characters.
pub proof fn lemma_frame_header_ascii(n: nat)
    ensures
        is_ascii_text("Content-Length: "@ + decimal_digits(n) + "\r\n\r\n"@),
{
    reveal_strlit("Content-Length: ");
    reveal_strlit("\r\n\r\n");
    crate::decimal::lemma_decimal_digits_ascii(n);
    assert(is_ascii_text("Content-Length: "@));
    assert(is_ascii_text("\r\n\r\n"@));
    lemma_ascii_join("Content-Length: "@, decimal_digits(n));
    lemma_ascii_join("Content-Length: "@ + decimal_digits(n), "\r\n\r\n"@);
}

/// A line ends just behind the first line feed at or after its start.
pub proof fn lemma_line_end(stream: Seq<u8>, pos: int, feed: int)
    requires
        0 <= pos <= feed < stream.len(),
        stream[feed] == 10u8,
        forall|k: int| pos <= k < feed ==> stream[k] != 10u8,
    ensures
        line_end(stream, pos) == feed + 1,
{
    crate::text::lemma_position_is(stream.skip(pos), 10u8, feed - pos);
}

/// The length header written for `n` is read as the length `n`.
pub proof fn lemma_length_line(n: nat)
    requires
        n <= usize::MAX,
    ensures
        header_of_text("Content-Length: "@ + decimal_digits(n) + "\r\n"@) == Header::Length(
            n as usize,
        ),
{
    reveal_strlit("Content-Length: ");
    reveal_strlit("Content-Length");
    reveal_strlit("\r\n");
    let digits = decimal_digits(n);
    let line = "Content-Length: "@ + digits + "\r\n"@;
    crate::decimal::lemma_decimal_digits(n);
    crate::decimal::lemma_parse_decimal_digits(n, usize::MAX as nat);
    assert(crate::decimal::is_digit(digits[0]));
    assert(crate::decimal::is_digit(digits.last()));
    assert(line.len() == 18 + digits.len());
    crate::text::lemma_position_is(line, ':', 14);
    assert(line.take(14) =~= length_name());
    let value = line.skip(15);
    assert(value[0] == ' ');
    assert(value[1] == digits[0]);
    crate::text::lemma_trim_start(value, 1);
    let tail = value.skip(1);
    assert(tail =~= digits + "\r\n"@);
    assert(tail[digits.len() - 1] == digits.last());
    crate::text::lemma_trim_end(tail, digits.len() as int);
    assert(tail.take(digits.len() as int) =~= digits);
    assert(trimmed(value) == digits);
    crate::text::lemma_strip_leading(digits, ':', 0);
    assert(digits.skip(0) =~= digits);
    crate::text::lemma_trim_start(digits, 0);
    crate::text::lemma_trim_end(digits, digits.len() as int);
    assert(digits.take(digits.len() as int) =~= digits);
    assert(length_field(value) == digits);
}

/// Reading at the start of a stream on which a body was written gives that
/// body back, byte for byte, and ends just behind it, whatever follows.
pub proof fn lemma_read_written(body: Seq<u8>, rest: Seq<u8>)
    requires
        body.len() <= usize::MAX,
    ensures
        read_from(frame(body) + rest, 0, None) == Ok::<(Seq<u8>, int), FrameError>(
            (body, frame(body).len() as int),
        ),
{
    reveal_strlit("Content-Length: ");
    reveal_strlit("\r\n");
    reveal_strlit("\r\n\r\n");
    let n = body.len();
    let digits = decimal_digits(n);
    let line = "Content-Length: "@ + digits + "\r\n"@;
    let blank = "\r\n"@;
    let stream = frame(body) + rest;
    let first = line.len() as int;
    crate::decimal::lemma_decimal_digits(n);
    crate::decimal::lemma_decimal_digits_ascii(n);
    lemma_ascii_join("Content-Length: "@, digits);
    lemma_ascii_join("Content-Length: "@ + digits, blank);
    assert(frame_header(n) =~= ascii_bytes(line) + ascii_bytes(blank));
    assert(stream =~= ascii_bytes(line) + ascii_bytes(blank) + body + rest);
    // The first line is the length header.
    assert forall|k: int| 0 <= k < first - 1 implies stream[k] != 10u8 by {
        assert(stream[k] == (line[k] as u32) as u8);
        if 16 <= k < 16 + digits.len() {
            assert(line[k] == digits[k - 16]);
            assert(crate::decimal::is_digit(digits[k - 16]));
        }
    }
    assert(stream[first - 1] == (line[first - 1] as u32) as u8);
    lemma_line_end(stream, 0, first - 1);
    assert(stream.subrange(0, first) =~= ascii_bytes(line));
    crate::text::lemma_ascii_bytes_decode(line);
    lemma_length_line(n);
    assert(read_from(stream, 0, None) == read_from(stream, first, Some(n as usize)));
    // The second line is blank, and the body follows it.
    assert(stream[first] == (blank[0] as u32) as u8);
    assert(stream[first + 1] == (blank[1] as u32) as u8);
    lemma_line_end(stream, first, first + 1);
    assert(stream.subrange(first, first + 2) =~= ascii_bytes(blank));
    crate::text::lemma_ascii_bytes_decode(blank);
    assert(blank =~= seq!['\r', '\n']);
    assert(stream.subrange(first + 2, first + 2 + n) =~= body);
    assert(frame(body).len() == first + 2 + n);
}

/// Says what a header line, given as text with its line ending, means.
pub fn parse_header_text(line: &Vec<char>) -> (h: Header)
    ensures
        h == header_of_text(line@),
{
    if line.len() == 2 && line[0] == '\r' && line[1] == '\n' {
        assert(line@ == seq!['\r', '\n']);
        return Header::Blank;
    }
    let colon = find_char(line, 0, ':');
    assert(line@.skip(0) == line@);
    if colon >= line.len() {
        return Header::Other;
    }
    let name = slice_chars(line, 0, colon);
    let expected = to_chars("Content-Length");
    if !chars_eq_ignore_case(&name, &expected) {
        return Header::Other;
    }
    let value = slice_chars(line, colon + 1, line.len());
    let field = trim(&strip_start(&trim(&value), ':'));
    match parse_usize(&field) {
        Some(n) => Header::Length(n),
        None => Header::Malformed,
    }
}

/// Says what a header line, given as the bytes read from the stream, means.
pub fn parse_header(line: &[u8]) -> (h: Header)
    ensures
        h == header_of(line@),
{
    match decode_chars(line) {
        Some(chars) => parse_header_text(&chars),
        None => Header::Malformed,
    }
}

/// Finds the end of the line that starts at `pos`.
pub fn find_line_end(stream: &[u8], pos: usize) -> (end: usize)
    requires
        pos <= stream.len(),
    ensures
        end == line_end(stream@, pos as int),
        pos <= end <= stream.len(),
        pos < stream.len() ==> pos < end,
{
    let mut i: usize = pos;
    while i < stream.len() && stream[i] != 10
        invariant
            pos <= i <= stream.len(),
            forall|k: int| pos <= k < i ==> stream@[k] != 10u8,
        decreases stream.len() - i,
    {
        i += 1;
    }
    proof {
        crate::text::lemma_position_is(stream@.skip(pos as int), 10u8, i - pos);
    }
    if i < stream.len() {
        i + 1
    } else {
        i
    }
}

/// Reads one message from the start of `stream`: the header lines up to the
/// blank line, then as many body bytes as the length header says. Returns
/// the body and the number of bytes that the message took.
pub fn read_message(stream: &[u8]) -> (r: Result<(Vec<u8>, usize), FrameError>)
    ensures
        match read_from(stream@, 0, None) {
            Ok((body, next)) => r is Ok && r->Ok_0.0@ == body && r->Ok_0.1 == next,
            Err(e) => r == Err::<(Vec<u8>, usize), FrameError>(e),
        },
{
    let mut pos: usize = 0;
    let mut length: Option<usize> = None;
    while pos < stream.len()
        invariant
            pos <= stream.len(),
            read_from(stream@, 0, None) == read_from(stream@, pos as int, length),
        decreases stream.len() - pos,
    {
        let end = find_line_end(stream, pos);
        let line = vstd::slice::slice_subrange(stream, pos, end);
        match parse_header(line) {
            Header::Blank => {
                return match length {
                    None => Err(FrameError::Format),
                    Some(n) => if n <= stream.len() - end {
                        let body = vstd::slice::slice_subrange(stream, end, end + n);
                        Ok((vstd::slice::slice_to_vec(body), end + n))
                    } else {
                        Err(FrameError::EndOfStream)
                    },
                };
            },
            Header::Length(n) => {
                length = Some(n);
            },
            Header::Malformed => {
                return Err(FrameError::Format);
            },
            Header::Other => {},
        }
        pos = end;
    }
    Err(FrameError::EndOfStream)
}

/// Writes `body` as one message at the end of `out`: the length header, a
/// blank line, then the body.
pub fn write_message(out: &mut Vec<u8>, body: &[u8])
    ensures
        final(out)@ == old(out)@ + frame(body@),
{
    let mut header = to_chars("Content-Length: ");
    push_decimal(body.len() as u64, &mut header);
    let mut ending = to_chars("\r\n\r\n");
    header.append(&mut ending);
    proof {
        lemma_frame_header_ascii(body.len() as nat);
    }
    push_ascii(out, &header);
    out.extend_from_slice(body);
}

} // verus!
