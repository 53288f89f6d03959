//! The finished response, and what it says about the connection.

use crate::headers::{connection_header, connection_name, header_entries};
use crate::status::Status;
use http::header::{HeaderMap, HeaderValue};
use vstd::prelude::*;
use vstd::string::StringSliceAdditionalSpecFns;

verus! {

/// A complete response. Nothing changes it once it has been built.
#[derive(Debug, PartialEq, Eq)]
pub struct Response {
    /// The status code.
    pub status: Status,
    /// The headers. A name that came more than once holds the value that
    /// came last.
    pub headers: HeaderMap<HeaderValue>,
    /// The body; empty where the message had none.
    pub body: Vec<u8>,
}

/// A response as a value.
pub ghost struct ResponseView {
    pub status: u16,
    pub headers: Map<Seq<u8>, Seq<u8>>,
    pub body: Seq<u8>,
}

impl View for Response {
    type V = ResponseView;

    open spec fn view(&self) -> ResponseView {
        ResponseView {
            status: self.status@,
            headers: header_entries(self.headers),
            body: self.body@,
        }
    }
}

/// Whether the transport may serve another request.
#[derive(Clone, Copy, Debug, PartialEq, Eq, Structural)]
pub enum ConnectionState {
    /// The connection may be used again.
    KeepAlive,
    /// The connection must be closed.
    Close,
}

/// The one value of the `Connection` header that keeps the connection open.
pub open spec fn keep_alive_token() -> Seq<u8> {
    "keep-alive".spec_bytes()
}

/// The connection stays open exactly where the headers hold `Connection`
/// with the value `keep-alive`, letter for letter.
pub open spec fn connection_state_of(headers: Map<Seq<u8>, Seq<u8>>) -> ConnectionState {
    if headers.contains_key(connection_name()) && headers[connection_name()]
        == keep_alive_token() {
        ConnectionState::KeepAlive
    } else {
        ConnectionState::Close
    }
}

/// Whether two runs of bytes are the same.
fn same_bytes(left: &[u8], right: &[u8]) -> (same: bool)
    ensures
        same == (left@ == right@),
{
    if left.len() != right.len() {
        return false;
    }
    let mut i: usize = 0;
    while i < left.len()
        invariant
            left@.len() == right@.len(),
            0 <= i <= left@.len(),
            forall|k: int| 0 <= k < i ==> left@[k] == right@[k],
        decreases left@.len() - i,
    {
        if left[i] != right[i] {
            return false;
        }
        i += 1;
    }
    assert(left@ =~= right@);
    true
}

/// Decides from the headers of a response whether its connection may be
/// used again.
pub fn connection_state(response: &Response) -> (state: ConnectionState)
    ensures
        state == connection_state_of(response@.headers),
{
    match connection_header(&response.headers) {
        Some(value) => {
            if same_bytes(value.as_slice(), "keep-alive".as_bytes()) {
                ConnectionState::KeepAlive
            } else {
                ConnectionState::Close
            }
        },
        None => ConnectionState::Close,
    }
}

} // verus!
