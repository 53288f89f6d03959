//! The decision on the connection, taken from a response.

use http::header::{HeaderMap, HeaderName, HeaderValue};
use response_decoder::{connection_state, ConnectionState, ParseError, Response, Status};

fn response_with(headers: &[(&str, &[u8])]) -> Response {
    let mut map = HeaderMap::new();
    for (name, value) in headers {
        map.append(
            HeaderName::from_bytes(name.as_bytes()).unwrap(),
            HeaderValue::from_bytes(value).unwrap(),
        );
    }
    Response { status: Status::from_u16(200).unwrap(), headers: map, body: Vec::new() }
}

#[test]
fn keep_alive_keeps_the_connection() {
    let response = response_with(&[("Connection", b"keep-alive")]);
    assert_eq!(connection_state(&response), ConnectionState::KeepAlive);
}

#[test]
fn close_closes_the_connection() {
    let response = response_with(&[("Connection", b"close")]);
    assert_eq!(connection_state(&response), ConnectionState::Close);
}

#[test]
fn no_connection_header_closes_the_connection() {
    assert_eq!(connection_state(&response_with(&[])), ConnectionState::Close);
    let response = response_with(&[("Keep-Alive", b"keep-alive"), ("Content-Length", b"0")]);
    assert_eq!(connection_state(&response), ConnectionState::Close);
}

#[test]
fn only_the_exact_token_keeps_the_connection() {
    for value in [
        &b"Keep-Alive"[..],
        b"KEEP-ALIVE",
        b"keep-alive ",
        b" keep-alive",
        b"keep-alive, upgrade",
        b"keepalive",
        b"keep-aliv",
        b"",
        b"keep-alive\xff",
    ] {
        let response = response_with(&[("connection", value)]);
        assert_eq!(connection_state(&response), ConnectionState::Close, "{:?}", value);
    }
}

#[test]
fn the_first_connection_value_decides() {
    let response = response_with(&[("connection", b"keep-alive"), ("connection", b"close")]);
    assert_eq!(connection_state(&response), ConnectionState::KeepAlive);
    let response = response_with(&[("connection", b"close"), ("connection", b"keep-alive")]);
    assert_eq!(connection_state(&response), ConnectionState::Close);
}

#[test]
fn the_header_name_is_found_in_any_case() {
    let response = response_with(&[("CONNECTION", b"keep-alive")]);
    assert_eq!(connection_state(&response), ConnectionState::KeepAlive);
}

#[test]
fn descriptions() {
    assert_eq!(ParseError::MalformedStatus.message(), "illformed response");
    assert_eq!(ParseError::MalformedHeaderName.message(), "malformed header");
    assert_eq!(ParseError::MalformedHeaderValue.message(), "malformed header");
    assert_eq!(ParseError::MissingHeaderName.message(), "malformed header");
    assert_eq!(ParseError::HeaderStoreFull.message(), "too many headers");
    assert_eq!(ParseError::IllformedMessage.message(), "illformed header");
    assert_eq!(ParseError::UnexpectedEof.message(), "unexpected end of stream");
    assert_eq!(
        ParseError::LostConnection("broken pipe".to_string()).message(),
        "lost connection while reading: broken pipe"
    );
    assert_eq!(ParseError::LostConnection(String::new()).message(), "lost connection while reading: ");
}

#[test]
fn copies_of_errors_are_equal() {
    let errors = [
        ParseError::MalformedStatus,
        ParseError::MalformedHeaderName,
        ParseError::MalformedHeaderValue,
        ParseError::MissingHeaderName,
        ParseError::HeaderStoreFull,
        ParseError::IllformedMessage,
        ParseError::LostConnection("timed out".to_string()),
        ParseError::UnexpectedEof,
    ];
    for (i, error) in errors.iter().enumerate() {
        assert_eq!(&error.clone(), error);
        for (j, other) in errors.iter().enumerate() {
            assert_eq!(error == other, i == j);
        }
    }
}
