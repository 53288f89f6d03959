//! Incremental decoding of HTTP/1.x responses.
//!
//! A tokenizer scans the bytes that a transport delivers and reports what it
//! recognises as a series of events. This crate holds everything that is built
//! on those events: the accumulator that turns them into a status, a header
//! map and a body, the validation that may end a parse early, the assembly of
//! the finished [`Response`], and the decisions of the loop that reads from
//! the transport and feeds the tokenizer.

pub mod decode;
pub mod error;
pub mod events;
pub mod field;
pub mod headers;
pub mod laws;
pub mod message;
pub mod parse;
pub mod status;

pub use decode::{after_feed, after_read, Progress, RECEIVE_BUFFER_SIZE};
pub use error::ParseError;
pub use message::{connection_state, ConnectionState, Response};
pub use parse::InFlightParse;
pub use status::Status;
