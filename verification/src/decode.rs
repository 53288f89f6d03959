//! The decisions of the loop that reads a response from a transport.
//!
//! The loop itself belongs to the caller, who owns the transport and the
//! tokenizer: it reads into its buffer, asks [`after_read`] what the read
//! amounts to, feeds the bytes to the tokenizer, which reports to an
//! [`InFlightParse`], and asks [`after_feed`] how to go on.

use crate::error::ParseError;
use crate::events::{run, Event, ParseView};
use crate::message::{
    connection_state, connection_state_of, ConnectionState, Response, ResponseView,
};
use crate::parse::InFlightParse;
use crate::status::is_status_code;
use vstd::prelude::*;

verus! {

/// The size of the buffer that the loop reads into.
pub const RECEIVE_BUFFER_SIZE: usize = 4096;

/// How the loop goes on once the tokenizer has had the bytes of a read.
pub enum Progress {
    /// The message is not complete: read again, with the same parse.
    NeedMore(InFlightParse),
    /// The message is complete: here is the response, and whether the
    /// connection may serve another request.
    Complete(Response, ConnectionState),
    /// The parse has failed.
    Failed(ParseError),
}

/// What a read amounts to, as a value: the number of bytes to feed, or the
/// error that ends the parse.
pub open spec fn read_result(outcome: Result<usize, String>) -> Result<usize, ParseError> {
    match outcome {
        Ok(count) => if count == 0 {
            Err(ParseError::UnexpectedEof)
        } else {
            Ok(count)
        },
        Err(cause) => Err(ParseError::LostConnection(cause)),
    }
}

/// How a parse ends, as a value.
pub ghost enum Outcome {
    /// With a response, and the decision on the connection.
    Complete(ResponseView, ConnectionState),
    /// With an error.
    Failed(ParseError),
}

/// What the state of a parse decides once the tokenizer has had the bytes
/// of a read: nothing while the message goes on; otherwise the first
/// violation recorded, or, failing that, the response of the complete
/// message, which takes a status code.
pub open spec fn verdict(s: ParseView) -> Option<Outcome> {
    if s.error is Some {
        Some(Outcome::Failed(s.error.unwrap()))
    } else if !s.complete {
        None
    } else if s.status is Some {
        Some(Outcome::Complete(s.response(), connection_state_of(s.headers)))
    } else {
        Some(Outcome::Failed(ParseError::IllformedMessage))
    }
}

/// How the loop ends on a stream that delivers `reads` and then ends, where
/// each read holds the events that the tokenizer reports from its bytes and
/// the header map takes every entry: with the verdict after the first read
/// that brings one, or, where none does, with the end of the stream.
pub open spec fn loop_outcome(s: ParseView, reads: Seq<Seq<Event>>) -> Outcome
    decreases reads.len(),
{
    if reads.len() == 0 {
        Outcome::Failed(ParseError::UnexpectedEof)
    } else {
        let fed = run(s, reads.first());
        match verdict(fed) {
            Some(outcome) => outcome,
            None => loop_outcome(fed, reads.drop_first()),
        }
    }
}

/// Judges a read from the transport. A read of no bytes means that the
/// stream has ended, which is always an error here, whatever has been
/// parsed; a failed read is an error that carries its cause; any other read
/// gives that many bytes to feed.
pub fn after_read(outcome: Result<usize, String>) -> (result: Result<usize, ParseError>)
    ensures
        result == read_result(outcome),
{
    match outcome {
        Ok(count) => {
            if count == 0 {
                Err(ParseError::UnexpectedEof)
            } else {
                Ok(count)
            }
        },
        Err(cause) => Err(ParseError::LostConnection(cause)),
    }
}

/// Judges the parse once the tokenizer has had the bytes of a read. The
/// first violation recorded ends the parse, even where the message went on
/// to its end. Failing that, a complete message is built into its
/// response, which fails where it has no status code. Otherwise the loop
/// reads again.
pub fn after_feed(parse: InFlightParse) -> (progress: Progress)
    ensures
        match progress {
            Progress::NeedMore(next) => verdict(parse@) is None && next == parse,
            Progress::Complete(response, state) => {
                &&& verdict(parse@) == Some(Outcome::Complete(response@, state))
                &&& is_status_code(response@.status)
            },
            Progress::Failed(e) => verdict(parse@) == Some(Outcome::Failed(e)),
        },
{
    match parse.into_failure() {
        Err(e) => Progress::Failed(e),
        Ok(parse) => {
            if parse.is_complete() {
                match parse.to_response() {
                    Ok(response) => {
                        let state = connection_state(&response);
                        Progress::Complete(response, state)
                    },
                    Err(e) => Progress::Failed(e),
                }
            } else {
                Progress::NeedMore(parse)
            }
        },
    }
}

} // verus!
