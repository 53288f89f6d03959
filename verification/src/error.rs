//! The one error type of a parse attempt.

use vstd::prelude::*;
use vstd::string::StringExecFns;

verus! {

/// Why a parse attempt was abandoned.
///
/// Every variant is fatal for the connection: the framing of the stream is
/// unknown past the point of failure.
#[derive(Debug, PartialEq, Eq)]
pub enum ParseError {
    /// The status line carried no numeric status code, or one that is not a
    /// status code.
    MalformedStatus,
    /// A header name is not a valid token.
    MalformedHeaderName,
    /// A header value is not valid text for a header.
    MalformedHeaderValue,
    /// A header value arrived with no header name before it.
    MissingHeaderName,
    /// The header map accepts no further entry.
    HeaderStoreFull,
    /// The message ended without a status code.
    IllformedMessage,
    /// The transport failed while reading; the cause is kept as text.
    LostConnection(String),
    /// The stream ended before the message was complete.
    UnexpectedEof,
}

impl Clone for ParseError {
    /// A copy of the same kind with the same description.
    fn clone(&self) -> (copy: ParseError)
        ensures
            match *self {
                ParseError::LostConnection(cause) => copy matches ParseError::LostConnection(c)
                    && c@ == cause@,
                _ => copy == *self,
            },
    {
        match self {
            ParseError::MalformedStatus => ParseError::MalformedStatus,
            ParseError::MalformedHeaderName => ParseError::MalformedHeaderName,
            ParseError::MalformedHeaderValue => ParseError::MalformedHeaderValue,
            ParseError::MissingHeaderName => ParseError::MissingHeaderName,
            ParseError::HeaderStoreFull => ParseError::HeaderStoreFull,
            ParseError::IllformedMessage => ParseError::IllformedMessage,
            ParseError::LostConnection(cause) => ParseError::LostConnection(cause.clone()),
            ParseError::UnexpectedEof => ParseError::UnexpectedEof,
        }
    }
}

impl ParseError {
    /// The human readable description of the error.
    pub open spec fn description(self) -> Seq<char> {
        match self {
            ParseError::MalformedStatus => "illformed response"@,
            ParseError::MalformedHeaderName => "malformed header"@,
            ParseError::MalformedHeaderValue => "malformed header"@,
            ParseError::MissingHeaderName => "malformed header"@,
            ParseError::HeaderStoreFull => "too many headers"@,
            ParseError::IllformedMessage => "illformed header"@,
            ParseError::LostConnection(cause) => "lost connection while reading: "@ + cause@,
            ParseError::UnexpectedEof => "unexpected end of stream"@,
        }
    }

    /// True for the errors that the transport causes, false for those that
    /// the content of the stream causes.
    pub open spec fn is_transport(self) -> bool {
        self is LostConnection || self is UnexpectedEof
    }

    /// Renders the description as text.
    pub fn message(&self) -> (text: String)
        ensures
            text@ == self.description(),
    {
        match self {
            ParseError::MalformedStatus => String::from_str("illformed response"),
            ParseError::MalformedHeaderName => String::from_str("malformed header"),
            ParseError::MalformedHeaderValue => String::from_str("malformed header"),
            ParseError::MissingHeaderName => String::from_str("malformed header"),
            ParseError::HeaderStoreFull => String::from_str("too many headers"),
            ParseError::IllformedMessage => String::from_str("illformed header"),
            ParseError::LostConnection(cause) => {
                String::from_str("lost connection while reading: ").concat(cause.as_str())
            },
            ParseError::UnexpectedEof => String::from_str("unexpected end of stream"),
        }
    }
}

} // verus!
