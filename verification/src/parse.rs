//! The accumulator of one parse, and its place behind the tokenizer.

use crate::error::ParseError;
use crate::events::{entry_settled, follows, step, Event, ParseView};
use crate::field::{header_value_of, FieldName};
use crate::headers::{has_room, header_entries, new_header_map, try_insert_header};
use crate::message::Response;
use crate::status::{is_status_code, Status};
use http::header::{HeaderMap, HeaderValue};
use http_parser::{HttpParser, HttpParserCallback, ParseAction};
use vstd::prelude::*;

verus! {

#[verifier::external_type_specification]
#[verifier::external_body]
pub struct ExHttpParser(HttpParser);

#[verifier::external_type_specification]
pub struct ExParseAction(ParseAction);

/// The number of headers that a new parse makes room for.
pub const INITIAL_HEADER_CAPACITY: usize = 10;

/// The number that a tokenizer has read from the status line, if it has
/// read one.
pub uninterp spec fn tokenizer_status(parser: HttpParser) -> Option<u16>;

/// The field `status_code` of the tokenizer, which holds the number that it
/// has read from the status line.
#[verifier::external_body]
pub(crate) fn status_code_of(parser: &HttpParser) -> (code: Option<u16>)
    ensures
        code == tokenizer_status(*parser),
{
    parser.status_code
}

/// True of the answer that lets the tokenizer carry on as it would by
/// itself: no error, and no request to skip the body.
pub open spec fn carries_on(signal: Result<ParseAction, String>) -> bool {
    signal matches Ok(ParseAction::None)
}

/// The working state of one parse. It is made fresh for each response,
/// filled by the events of a tokenizer, and given up for the response or
/// for the error that ended it.
pub struct InFlightParse {
    error: Option<ParseError>,
    body: Vec<u8>,
    headers: HeaderMap<HeaderValue>,
    pending_name: Option<FieldName>,
    status: Option<Status>,
    complete: bool,
}

impl InFlightParse {
    /// The state as a value.
    pub closed spec fn view(&self) -> ParseView {
        ParseView {
            error: self.error,
            status: match self.status {
                Some(status) => Some(status@),
                None => None,
            },
            pending_name: match self.pending_name {
                Some(name) => Some(name@),
                None => None,
            },
            headers: header_entries(self.headers),
            body: self.body@,
            complete: self.complete,
        }
    }

    /// A parse that has seen no event.
    pub fn new() -> (parse: InFlightParse)
        ensures
            parse@ == ParseView::fresh(),
    {
        InFlightParse {
            error: None,
            body: Vec::new(),
            headers: new_header_map(INITIAL_HEADER_CAPACITY),
            pending_name: None,
            status: None,
            complete: false,
        }
    }

    /// Takes the status code that the tokenizer read. A missing number, or
    /// one that is no status code, ends the parse.
    pub fn record_status(&mut self, code: Option<u16>)
        ensures
            final(self)@ == step(old(self)@, Event::Status(code)),
    {
        if self.error.is_some() {
            return ;
        }
        let status = match code {
            Some(c) => Status::from_u16(c),
            None => None,
        };
        match status {
            Some(c) => {
                self.status = Some(c);
            },
            None => {
                self.error = Some(ParseError::MalformedStatus);
            },
        }
    }

    /// Takes a header name and keeps it until its value arrives. A name
    /// that is still waiting for its value is given up for the new one.
    /// Bytes that are no header name end the parse.
    pub fn record_header_name(&mut self, data: &[u8])
        ensures
            final(self)@ == step(old(self)@, Event::HeaderField(data@)),
    {
        if self.error.is_some() {
            return ;
        }
        match FieldName::parse(data) {
            Some(name) => {
                self.pending_name = Some(name);
            },
            None => {
                self.error = Some(ParseError::MalformedHeaderName);
            },
        }
    }

    /// Takes a header value and stores it under the pending name. A value
    /// without a pending name, and bytes that are no header value, end the
    /// parse; so does a header map that refuses the entry, which it cannot
    /// do while it has room.
    pub fn record_header_value(&mut self, data: &[u8])
        ensures
            follows(old(self)@, Event::HeaderValue(data@), final(self)@),
            has_room(old(self)@.headers) ==> final(self)@ == step(
                old(self)@,
                Event::HeaderValue(data@),
            ),
    {
        if self.error.is_some() {
            return ;
        }
        let stored = match &self.pending_name {
            None => {
                self.error = Some(ParseError::MissingHeaderName);
                return ;
            },
            Some(name) => match header_value_of(data) {
                None => {
                    self.error = Some(ParseError::MalformedHeaderValue);
                    return ;
                },
                Some(value) => try_insert_header(
                    &mut self.headers,
                    name.as_bytes(),
                    value.as_slice(),
                ),
            },
        };
        self.settle_entry(stored);
    }

    /// Ends the handling of a header value once the header map has
    /// answered: a stored entry uses up the pending name, a refused one
    /// ends the parse.
    fn settle_entry(&mut self, stored: bool)
        requires
            old(self).error is None,
        ensures
            final(self)@ == entry_settled(old(self)@, stored),
    {
        if stored {
            self.pending_name = None;
        } else {
            self.error = Some(ParseError::HeaderStoreFull);
        }
    }

    /// Appends a span of the body.
    pub fn record_body(&mut self, data: &[u8])
        ensures
            final(self)@ == step(old(self)@, Event::Body(data@)),
    {
        if self.error.is_some() {
            return ;
        }
        self.body.extend_from_slice(data);
        assert(self.body@ =~= old(self).body@ + data@);
    }

    /// Notes that the tokenizer has seen the end of the message.
    pub fn record_complete(&mut self)
        ensures
            final(self)@ == step(old(self)@, Event::MessageComplete),
    {
        if self.error.is_some() {
            return ;
        }
        self.complete = true;
    }

    /// Whether the tokenizer has reported the end of the message.
    pub fn is_complete(&self) -> (complete: bool)
        ensures
            complete == self@.complete,
    {
        self.complete
    }

    /// Gives the parse up for the violation that it has recorded, or hands
    /// it back where it has recorded none.
    pub fn into_failure(self) -> (result: Result<InFlightParse, ParseError>)
        ensures
            match result {
                Ok(parse) => self@.error is None && parse == self,
                Err(e) => self@.error == Some(e),
            },
    {
        match self.error {
            Some(e) => Err(e),
            None => Ok(self),
        }
    }

    /// Gives the parse up for the response that it has gathered. What it
    /// asks is a status code: without one the message is no response.
    pub fn to_response(self) -> (result: Result<Response, ParseError>)
        ensures
            match result {
                Ok(response) => {
                    &&& self@.status is Some
                    &&& response@ == self@.response()
                    &&& is_status_code(response@.status)
                },
                Err(e) => self@.status is None && e == ParseError::IllformedMessage,
            },
    {
        match self.status {
            Some(status) => {
                proof {
                    use_type_invariant(&status);
                }
                Ok(Response { status, headers: self.headers, body: self.body })
            },
            None => Err(ParseError::IllformedMessage),
        }
    }
}

impl HttpParserCallback for InFlightParse {
    /// The start of a message changes nothing: a parse starts out empty.
    fn on_message_begin(&mut self, _parser: &mut HttpParser) -> (signal: Result<
        ParseAction,
        String,
    >)
        ensures
            final(self)@ == step(old(self)@, Event::MessageBegin),
            carries_on(signal),
    {
        Ok(ParseAction::None)
    }

    /// The status line: the number that the tokenizer read is held to the
    /// range of status codes.
    fn on_status(&mut self, parser: &mut HttpParser, _data: &[u8]) -> (signal: Result<
        ParseAction,
        String,
    >)
        ensures
            final(self)@ == step(old(self)@, Event::Status(tokenizer_status(*old(parser)))),
            *final(parser) == *old(parser),
            carries_on(signal),
    {
        let code = status_code_of(parser);
        self.record_status(code);
        Ok(ParseAction::None)
    }

    /// A header name.
    fn on_header_field(&mut self, _parser: &mut HttpParser, data: &[u8]) -> (signal: Result<
        ParseAction,
        String,
    >)
        ensures
            final(self)@ == step(old(self)@, Event::HeaderField(data@)),
            carries_on(signal),
    {
        self.record_header_name(data);
        Ok(ParseAction::None)
    }

    /// A header value.
    fn on_header_value(&mut self, _parser: &mut HttpParser, data: &[u8]) -> (signal: Result<
        ParseAction,
        String,
    >)
        ensures
            follows(old(self)@, Event::HeaderValue(data@), final(self)@),
            has_room(old(self)@.headers) ==> final(self)@ == step(
                old(self)@,
                Event::HeaderValue(data@),
            ),
            carries_on(signal),
    {
        self.record_header_value(data);
        Ok(ParseAction::None)
    }

    /// The end of the headers changes nothing: each header was stored when
    /// its value arrived.
    fn on_headers_complete(&mut self, _parser: &mut HttpParser) -> (signal: Result<
        ParseAction,
        String,
    >)
        ensures
            final(self)@ == step(old(self)@, Event::HeadersComplete),
            carries_on(signal),
    {
        Ok(ParseAction::None)
    }

    /// A span of the body.
    fn on_body(&mut self, _parser: &mut HttpParser, data: &[u8]) -> (signal: Result<
        ParseAction,
        String,
    >)
        ensures
            final(self)@ == step(old(self)@, Event::Body(data@)),
            carries_on(signal),
    {
        self.record_body(data);
        Ok(ParseAction::None)
    }

    /// The end of the message.
    fn on_message_complete(&mut self, _parser: &mut HttpParser) -> (signal: Result<
        ParseAction,
        String,
    >)
        ensures
            final(self)@ == step(old(self)@, Event::MessageComplete),
            carries_on(signal),
    {
        self.record_complete();
        Ok(ParseAction::None)
    }
}

} // verus!
