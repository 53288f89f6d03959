//! The mathematical model of a parse: the events that a tokenizer reports,
//! the state that they build up, and what each event does to it.

use crate::error::ParseError;
use crate::field::{canonical_name, is_header_name, is_header_value};
use crate::headers::has_room;
use crate::message::ResponseView;
use crate::status::is_status_code;
use vstd::prelude::*;

verus! {

/// What a tokenizer reports while it scans a response.
pub ghost enum Event {
    /// A message starts.
    MessageBegin,
    /// The status line has been read, with the numeric status code that the
    /// tokenizer found in it, if it found one.
    Status(Option<u16>),
    /// The bytes of a header name.
    HeaderField(Seq<u8>),
    /// The bytes of a header value.
    HeaderValue(Seq<u8>),
    /// The blank line after the headers has been read.
    HeadersComplete,
    /// A span of the body.
    Body(Seq<u8>),
    /// The message is complete.
    MessageComplete,
}

/// The state of one parse, as a value.
pub ghost struct ParseView {
    /// The first violation met, once there is one.
    pub error: Option<ParseError>,
    /// The status code, once the status line has been read.
    pub status: Option<u16>,
    /// A header name whose value has not arrived yet, in lower case.
    pub pending_name: Option<Seq<u8>>,
    /// The headers read so far, by name in lower case.
    pub headers: Map<Seq<u8>, Seq<u8>>,
    /// The body read so far.
    pub body: Seq<u8>,
    /// Whether the tokenizer has reported the end of the message.
    pub complete: bool,
}

impl ParseView {
    /// The state in which every parse starts.
    pub open spec fn fresh() -> ParseView {
        ParseView {
            error: None,
            status: None,
            pending_name: None,
            headers: Map::empty(),
            body: Seq::empty(),
            complete: false,
        }
    }

    /// What every state of a parse satisfies: a status code that is one, a
    /// pending name that is a header name in lower case, and no violation
    /// but one of content.
    pub open spec fn well_formed(self) -> bool {
        &&& self.status matches Some(code) ==> is_status_code(code)
        &&& self.pending_name matches Some(name) ==> is_header_name(name) && canonical_name(name)
            == name
        &&& self.error matches Some(e) ==> !e.is_transport()
    }

    /// The response that the state amounts to, where it has a status code.
    pub open spec fn response(self) -> ResponseView
        recommends
            self.status is Some,
    {
        ResponseView { status: self.status.unwrap(), headers: self.headers, body: self.body }
    }

    /// The same state with a violation recorded.
    pub open spec fn fail(self, why: ParseError) -> ParseView {
        ParseView { error: Some(why), ..self }
    }
}

/// The state once the header map has answered an offered entry: a stored
/// entry uses up the pending name, a refused one ends the parse.
pub open spec fn entry_settled(s: ParseView, stored: bool) -> ParseView {
    if stored {
        ParseView { pending_name: None, ..s }
    } else {
        s.fail(ParseError::HeaderStoreFull)
    }
}

/// The state after an event, where the header map takes every entry that it
/// is offered, as it does while it has room. Once a violation is recorded no
/// event changes anything.
pub open spec fn step(s: ParseView, e: Event) -> ParseView {
    if s.error is Some {
        s
    } else {
        match e {
            Event::MessageBegin => s,
            Event::Status(code) => match code {
                Some(c) if is_status_code(c) => ParseView { status: Some(c), ..s },
                _ => s.fail(ParseError::MalformedStatus),
            },
            Event::HeaderField(data) => if is_header_name(data) {
                ParseView { pending_name: Some(canonical_name(data)), ..s }
            } else {
                s.fail(ParseError::MalformedHeaderName)
            },
            Event::HeaderValue(data) => match s.pending_name {
                None => s.fail(ParseError::MissingHeaderName),
                Some(name) => if is_header_value(data) {
                    ParseView { headers: s.headers.insert(name, data), pending_name: None, ..s }
                } else {
                    s.fail(ParseError::MalformedHeaderValue)
                },
            },
            Event::HeadersComplete => s,
            Event::Body(data) => ParseView { body: s.body + data, ..s },
            Event::MessageComplete => ParseView { complete: true, ..s },
        }
    }
}

/// True where the event makes the parse offer an entry to the header map:
/// a valid header value that arrives while a name is pending.
pub open spec fn offers_entry(s: ParseView, e: Event) -> bool {
    &&& s.error is None
    &&& s.pending_name is Some
    &&& e matches Event::HeaderValue(data) && is_header_value(data)
}

/// The states that may follow `s` on the event `e`: the one that `step`
/// gives, or, where an entry is offered to a header map that has no sure
/// room for it and the map refuses, `s` with that refusal recorded.
pub open spec fn follows(s: ParseView, e: Event, t: ParseView) -> bool {
    ||| t == step(s, e)
    ||| {
        &&& offers_entry(s, e)
        &&& !has_room(s.headers)
        &&& t == s.fail(ParseError::HeaderStoreFull)
    }
}

/// The state after a series of events, where the header map takes every
/// entry.
pub open spec fn run(s: ParseView, events: Seq<Event>) -> ParseView
    decreases events.len(),
{
    if events.len() == 0 {
        s
    } else {
        step(run(s, events.drop_last()), events.last())
    }
}

/// True where `states` are the states that a parse went through on
/// `events`, from the first state on, one more state than events.
pub open spec fn is_trace(states: Seq<ParseView>, events: Seq<Event>) -> bool {
    &&& states.len() == events.len() + 1
    &&& forall|i: int|
        0 <= i < events.len() ==> follows(#[trigger] states[i], events[i], states[i + 1])
}

} // verus!
