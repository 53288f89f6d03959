//! Whole responses, read through the tokenizer from a transport that
//! delivers them in chunks.

use http_parser::{HttpParser, HttpParserType};
use response_decoder::{
    after_feed, after_read, ConnectionState, InFlightParse, ParseError, Progress, Response,
    RECEIVE_BUFFER_SIZE,
};

/// Runs the read loop over a transport that delivers the given chunks, one
/// per read, and then reports the end of the stream.
fn decode(chunks: &[&[u8]]) -> Result<(Response, ConnectionState), ParseError> {
    let mut parser = HttpParser::new(HttpParserType::Response);
    let mut parse = InFlightParse::new();
    let mut reads = chunks.iter();
    loop {
        let chunk: &[u8] = match reads.next() {
            Some(chunk) => chunk,
            None => &[],
        };
        let count = after_read(Ok(chunk.len()))?;
        parser.execute(&mut parse, &chunk[..count]);
        parse = match after_feed(parse) {
            Progress::NeedMore(parse) => parse,
            Progress::Complete(response, state) => return Ok((response, state)),
            Progress::Failed(e) => return Err(e),
        };
    }
}

fn header<'a>(response: &'a Response, name: &str) -> Option<&'a [u8]> {
    response.headers.get(name).map(|value| value.as_bytes())
}

#[test]
fn keep_alive_response_in_one_chunk() {
    let input = b"HTTP/1.1 200 OK\r\nConnection: keep-alive\r\nContent-Length: 5\r\n\r\nhello";
    let (response, state) = decode(&[input]).unwrap();
    assert_eq!(response.status.as_u16(), 200);
    assert_eq!(response.headers.len(), 2);
    assert_eq!(header(&response, "Connection"), Some(&b"keep-alive"[..]));
    assert_eq!(header(&response, "Content-Length"), Some(&b"5"[..]));
    assert_eq!(response.body, b"hello");
    assert_eq!(state, ConnectionState::KeepAlive);
}

#[test]
fn close_response_split_in_the_status_line() {
    let (response, state) = decode(&[
        b"HTTP/1.1 20",
        b"0 OK\r\n",
        b"Connection: close\r\nContent-Length: 0\r\n\r\n",
    ]).unwrap();
    assert_eq!(response.status.as_u16(), 200);
    assert_eq!(response.headers.len(), 2);
    assert_eq!(header(&response, "connection"), Some(&b"close"[..]));
    assert_eq!(header(&response, "content-length"), Some(&b"0"[..]));
    assert_eq!(response.body, b"");
    assert_eq!(state, ConnectionState::Close);
}

#[test]
fn reads_that_end_between_tokens_give_the_response_of_one_read() {
    let whole = b"HTTP/1.1 404 Not Found\r\nServer: t\r\nContent-Length: 9\r\n\r\nnot found";
    let (expected, expected_state) = decode(&[whole]).unwrap();
    let (split, state) = decode(&[
        b"HTTP/1.",
        b"1 40",
        b"4 Not Found\r\n",
        b"Server: t\r",
        b"\nContent-Length: 9\r\n",
        b"\r",
        b"\n",
        b"not",
        b" ",
        b"found",
    ]).unwrap();
    assert_eq!(split, expected);
    assert_eq!(state, expected_state);
    assert_eq!(split.status.as_u16(), 404);
    assert_eq!(split.body, b"not found");
}

#[test]
fn body_arrives_byte_by_byte() {
    let head: &[u8] = b"HTTP/1.1 200 OK\r\nContent-Length: 4\r\n\r\n";
    let (response, _) = decode(&[head, b"a", b"b", b"c", b"d"]).unwrap();
    assert_eq!(response.body, b"abcd");
}

#[test]
fn chunked_body_is_joined() {
    let input =
        b"HTTP/1.1 200 OK\r\nTransfer-Encoding: chunked\r\n\r\n3\r\nabc\r\n2\r\nde\r\n0\r\n\r\n";
    let (response, state) = decode(&[input]).unwrap();
    assert_eq!(response.body, b"abcde");
    assert_eq!(header(&response, "transfer-encoding"), Some(&b"chunked"[..]));
    assert_eq!(state, ConnectionState::Close);
}

#[test]
fn response_without_a_body() {
    let (response, state) = decode(&[b"HTTP/1.1 204 No Content\r\n\r\n"]).unwrap();
    assert_eq!(response.status.as_u16(), 204);
    assert!(response.headers.is_empty());
    assert!(response.body.is_empty());
    assert_eq!(state, ConnectionState::Close);
}

#[test]
fn header_that_comes_twice_keeps_the_last_value() {
    let input = b"HTTP/1.1 200 OK\r\nX-Tag: 1\r\nx-tag: 2\r\nContent-Length: 0\r\n\r\n";
    let (response, _) = decode(&[input]).unwrap();
    assert_eq!(response.headers.len(), 2);
    assert_eq!(header(&response, "x-tag"), Some(&b"2"[..]));
}

#[test]
fn headers_in_another_order_give_the_same_response() {
    let one = b"HTTP/1.1 200 OK\r\nA: 1\r\nB: 2\r\nContent-Length: 0\r\n\r\n";
    let other = b"HTTP/1.1 200 OK\r\nContent-Length: 0\r\nB: 2\r\nA: 1\r\n\r\n";
    assert_eq!(decode(&[one]).unwrap(), decode(&[other]).unwrap());
}

#[test]
fn parsing_twice_gives_equal_responses() {
    let input = b"HTTP/1.1 200 OK\r\nConnection: keep-alive\r\nContent-Length: 5\r\n\r\nhello";
    let first = decode(&[input]).unwrap();
    let second = decode(&[input]).unwrap();
    assert_eq!(first.0.status, second.0.status);
    assert_eq!(first.0.headers, second.0.headers);
    assert_eq!(first.0.body, second.0.body);
    assert_eq!(first.1, second.1);
}

#[test]
fn keep_alive_is_matched_letter_for_letter() {
    let input = b"HTTP/1.1 200 OK\r\nConnection: Keep-Alive\r\nContent-Length: 0\r\n\r\n";
    let (response, state) = decode(&[input]).unwrap();
    assert_eq!(header(&response, "connection"), Some(&b"Keep-Alive"[..]));
    assert_eq!(state, ConnectionState::Close);
}

#[test]
fn header_value_beyond_ascii() {
    let input = b"HTTP/1.1 200 OK\r\nX-Name: \xc3\xa9\r\nContent-Length: 0\r\n\r\n";
    let (response, _) = decode(&[input]).unwrap();
    assert_eq!(header(&response, "x-name"), Some(&b"\xc3\xa9"[..]));
}

#[test]
fn empty_header_value() {
    let input = b"HTTP/1.1 200 OK\r\nX-Empty:\r\nContent-Length: 0\r\n\r\n";
    let (response, _) = decode(&[input]).unwrap();
    assert_eq!(header(&response, "x-empty"), Some(&b""[..]));
}

#[test]
fn stream_that_ends_in_the_body() {
    let input = b"HTTP/1.1 200 OK\r\nContent-Length: 5\r\n\r\nhe";
    assert_eq!(decode(&[input]), Err(ParseError::UnexpectedEof));
}

#[test]
fn stream_that_ends_in_the_headers() {
    assert_eq!(decode(&[b"HTTP/1.1 200 OK\r\nConn"]), Err(ParseError::UnexpectedEof));
}

#[test]
fn stream_without_a_byte() {
    assert_eq!(decode(&[]), Err(ParseError::UnexpectedEof));
}

#[test]
fn body_that_lasts_to_the_end_of_the_stream() {
    let input = b"HTTP/1.1 200 OK\r\nConnection: close\r\n\r\nhello";
    assert_eq!(decode(&[input]), Err(ParseError::UnexpectedEof));
}

#[test]
fn status_code_of_two_digits() {
    let input = b"HTTP/1.1 99 Low\r\nContent-Length: 0\r\n\r\n";
    assert_eq!(decode(&[input]), Err(ParseError::MalformedStatus));
}

#[test]
fn status_line_without_a_reason() {
    let input = b"HTTP/1.1 200\r\nContent-Length: 0\r\n\r\n";
    assert_eq!(decode(&[input]), Err(ParseError::IllformedMessage));
}

#[test]
fn header_value_that_is_no_text() {
    let input = b"HTTP/1.1 200 OK\r\nX-Name: \xc3\r\nContent-Length: 0\r\n\r\n";
    assert_eq!(decode(&[input]), Err(ParseError::MalformedHeaderValue));
}

#[test]
fn header_value_with_a_control_character() {
    let input = b"HTTP/1.1 200 OK\r\nX-Name: a\x01b\r\nContent-Length: 0\r\n\r\n";
    assert_eq!(decode(&[input]), Err(ParseError::MalformedHeaderValue));
}

#[test]
fn error_in_the_headers_wins_over_the_end_of_the_message() {
    let input = b"HTTP/1.1 200 OK\r\nX-Name: a\x01b\r\nContent-Length: 2\r\n\r\nhi";
    assert_eq!(decode(&[input]), Err(ParseError::MalformedHeaderValue));
}

#[test]
fn each_span_is_taken_as_a_whole_token() {
    let (response, _) = decode(&[
        b"HTTP/1.1 200 OK\r\nConn",
        b"ection: close\r\nContent-Length: 0\r\n\r\n",
    ]).unwrap();
    assert_eq!(header(&response, "ection"), Some(&b"close"[..]));
    assert_eq!(header(&response, "connection"), None);
    let split_value = decode(&[
        b"HTTP/1.1 200 OK\r\nConnection: clo",
        b"se\r\nContent-Length: 0\r\n\r\n",
    ]);
    assert_eq!(split_value, Err(ParseError::MissingHeaderName));
}

#[test]
fn response_larger_than_the_receive_buffer() {
    assert_eq!(RECEIVE_BUFFER_SIZE, 4096);
    let body = vec![b'x'; 3 * RECEIVE_BUFFER_SIZE + 17];
    let mut input = format!("HTTP/1.1 200 OK\r\nContent-Length: {}\r\n\r\n", body.len()).into_bytes();
    input.extend_from_slice(&body);
    let chunks: Vec<&[u8]> = input.chunks(RECEIVE_BUFFER_SIZE).collect();
    assert!(chunks.len() > 3);
    let (response, _) = decode(&chunks).unwrap();
    assert_eq!(response.body, body);
}
